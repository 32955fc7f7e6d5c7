//! What the headless runner does with its arguments, and what it records.
use crate::scalar::{Scalar, Vec3};
use crate::text::{decimal, push_decimal};
use crate::world::World;
use vstd::prelude::*;
use vstd::string::*;

verus! {

/// A frame is recorded every tenth step.
pub const RECORD_EVERY: usize = 10;

/// Where the run is streamed to.
#[derive(Debug)]
pub enum Stream {
    /// Nowhere.
    Off,
    /// To a viewer that is started for it.
    Viewer,
    /// To a file.
    File(String),
}

/// The arguments of a run.
#[derive(Debug)]
pub struct CliArgs {
    pub scenario: String,
    pub output: Option<String>,
    pub stream: Stream,
}

/// The text of the option that streams to a file, up to the path.
pub open spec fn file_option() -> Seq<char> {
    "--rerun="@
}

/// An argument that asks for streaming.
pub open spec fn is_stream_option(arg: Seq<char>) -> bool {
    arg == "--rerun"@ || file_option().is_prefix_of(arg)
}

/// The arguments, from `k` on, that name files.
pub open spec fn file_names(args: Seq<String>, k: nat) -> Seq<Seq<char>>
    decreases args.len() - k,
{
    if k >= args.len() {
        Seq::empty()
    } else if is_stream_option(args[k as int]@) {
        file_names(args, k + 1)
    } else {
        seq![args[k as int]@] + file_names(args, k + 1)
    }
}

/// The last of the arguments from `k` on that asks for streaming, if any; `last`
/// is the one before `k`.
pub open spec fn stream_option(args: Seq<String>, k: nat, last: Option<Seq<char>>) -> Option<
    Seq<char>,
>
    decreases args.len() - k,
{
    if k >= args.len() {
        last
    } else if is_stream_option(args[k as int]@) {
        stream_option(args, k + 1, Some(args[k as int]@))
    } else {
        stream_option(args, k + 1, last)
    }
}

/// What a streaming option asks for.
pub open spec fn streams(option: Option<Seq<char>>, s: Stream) -> bool {
    match option {
        None => s is Off,
        Some(arg) => if file_option().is_prefix_of(arg) {
            s is File && s->File_0@ == arg.skip(file_option().len() as int)
        } else {
            s is Viewer
        },
    }
}

fn starts_with(text: &str, prefix: &str) -> (r: bool)
    ensures
        r == prefix@.is_prefix_of(text@),
{
    let n: usize = prefix.unicode_len();
    if text.unicode_len() < n {
        return false;
    }
    let mut i: usize = 0;
    while i < n
        invariant
            n == prefix@.len(),
            n <= text@.len(),
            i <= n,
            forall|k: int| 0 <= k < i ==> #[trigger] prefix@[k] == text@[k],
        decreases n - i,
    {
        if text.get_char(i) != prefix.get_char(i) {
            assert(prefix@[i as int] != text@[i as int]);
            assert(text@.subrange(0, n as int)[i as int] == text@[i as int]);
            return false;
        }
        i += 1;
    }
    assert(prefix@ =~= text@.subrange(0, n as int));
    true
}

fn same_text(a: &str, b: &str) -> (r: bool)
    ensures
        r == (a@ == b@),
{
    let same: bool = a.unicode_len() == b.unicode_len() && starts_with(a, b);
    proof {
        if same {
            assert(a@.subrange(0, b@.len() as int) =~= a@);
        } else if a@ == b@ {
            assert(a@.subrange(0, b@.len() as int) =~= a@);
        }
    }
    same
}

/// Reads the arguments; the first is the program's own name. The first file is
/// the scenario and the second the output; there must be a scenario.
pub fn parse_args(args: &Vec<String>) -> (r: Option<CliArgs>)
    ensures
        match r {
            None => file_names(args@, 1).len() == 0,
            Some(a) => {
                let files = file_names(args@, 1);
                &&& files.len() > 0
                &&& a.scenario@ == files[0]
                &&& match a.output {
                    Some(o) => files.len() > 1 && o@ == files[1],
                    None => files.len() == 1,
                }
                &&& streams(stream_option(args@, 1, None), a.stream)
            },
        },
{
    let ghost files = file_names(args@, 1);
    let mut scenario: Option<String> = None;
    let mut output: Option<String> = None;
    let mut stream: Stream = Stream::Off;
    let ghost mut seen: Option<Seq<char>> = None;
    let mut k: usize = 1;
    while k < args.len()
        invariant
            1 <= k,
            k <= args@.len() || k == 1,
            files == file_names(args@, 1),
            match scenario {
                None => output is None && files == file_names(args@, k as nat),
                Some(s) => match output {
                    None => files =~= seq![s@] + file_names(args@, k as nat),
                    Some(o) => files.len() > 1 && files[0] == s@ && files[1] == o@,
                },
            },
            streams(seen, stream),
            stream_option(args@, 1, None) == stream_option(args@, k as nat, seen),
        decreases args@.len() - k,
    {
        let arg: &str = args[k].as_str();
        if starts_with(arg, "--rerun=") {
            let from: usize = "--rerun=".unicode_len();
            let path: &str = arg.substring_char(from, arg.unicode_len());
            proof {
                seen = Some(arg@);
                assert(arg@.subrange(from as int, arg@.len() as int) =~= arg@.skip(from as int));
            }
            stream = Stream::File(String::from_str(path));
        } else if same_text(arg, "--rerun") {
            stream = Stream::Viewer;
            proof {
                seen = Some(arg@);
            }
        } else {
            if scenario.is_none() {
                scenario = Some(String::from_str(arg));
            } else if output.is_none() {
                output = Some(String::from_str(arg));
            }
        }
        k += 1;
    }
    match scenario {
        None => None,
        Some(s) => Some(CliArgs { scenario: s, output, stream }),
    }
}

/// The place after the last slash of the first `n` characters.
pub open spec fn after_last_slash(path: Seq<char>, n: nat) -> nat
    decreases n,
{
    if n == 0 {
        0
    } else if path[n - 1] == '/' {
        n
    } else {
        after_last_slash(path, (n - 1) as nat)
    }
}

/// The output file where none is named: a fixed name in the scenario's
/// directory.
pub fn default_output(scenario: &str) -> (r: String)
    ensures
        r@ == scenario@.take(after_last_slash(scenario@, scenario@.len()) as int)
            + "simple_kite_v1_snapshot.json"@,
{
    let total: usize = scenario.unicode_len();
    let mut n: usize = total;
    while n > 0 && scenario.get_char(n - 1) != '/'
        invariant
            total == scenario@.len(),
            n <= total,
            after_last_slash(scenario@, scenario@.len()) == after_last_slash(
                scenario@,
                n as nat,
            ),
        decreases n,
    {
        n -= 1;
    }
    let mut s: String = String::from_str(scenario.substring_char(0, n));
    proof {
        assert(after_last_slash(scenario@, n as nat) == n);
        assert(s@ =~= scenario@.take(n as int));
    }
    s.append("simple_kite_v1_snapshot.json");
    s
}

/// Whether a step of a run is recorded: every tenth, and the last.
pub fn is_recorded(step: usize, total: usize) -> (r: bool)
    requires
        step < total,
    ensures
        r == (step % 10 == 0 || step == total - 1),
{
    step % RECORD_EVERY == 0 || step == total - 1
}

/// The places of a diamond kite that are recorded.
#[derive(Clone, Copy, Debug, PartialEq, Eq, Structural)]
pub struct SnapshotEntry {
    pub time: Scalar,
    pub tail: Vec3,
    pub nose: Vec3,
    pub left: Vec3,
    pub right: Vec3,
    pub junction: Vec3,
}

/// Records the named particles of a diamond kite. A world with fewer particles
/// is no diamond kite.
pub fn record(world: &World) -> (r: Option<SnapshotEntry>)
    ensures
        match r {
            None => world.particles.count() < 10,
            Some(e) => {
                let pos = world.particles.pos@;
                &&& pos.len() >= 10
                &&& e == (SnapshotEntry {
                    time: world.time,
                    tail: pos[0],
                    nose: pos[4],
                    left: pos[6],
                    right: pos[8],
                    junction: pos[9],
                })
            },
        },
{
    if world.particles.pos.len() < 10 {
        return None;
    }
    Some(
        SnapshotEntry {
            time: world.time,
            tail: world.particles.pos[0],
            nose: world.particles.pos[4],
            left: world.particles.pos[6],
            right: world.particles.pos[8],
            junction: world.particles.pos[9],
        },
    )
}

/// The first particle from `k` on whose place is not finite.
pub open spec fn first_lost(pos: Seq<Vec3>, k: nat) -> Option<usize>
    decreases pos.len() - k,
{
    if k >= pos.len() {
        None
    } else if !pos[k as int].finite() {
        Some(k as usize)
    } else {
        first_lost(pos, k + 1)
    }
}

/// What is said of a simulation that has exploded.
pub open spec fn explosion_text(step: usize, particle: usize) -> Seq<char> {
    "Simulation exploded at step "@ + decimal(step as nat) + " (particle "@ + decimal(
        particle as nat,
    ) + ")"@
}

/// Checks that every particle is at a finite place after a step; if not, says
/// which is the first that is not.
pub fn check_finite(world: &World, step: usize) -> (r: Result<(), String>)
    ensures
        match first_lost(world.particles.pos@, 0) {
            None => r is Ok,
            Some(i) => r is Err && r->Err_0@ == explosion_text(step, i),
        },
{
    let mut i: usize = 0;
    while i < world.particles.pos.len()
        invariant
            i <= world.particles.pos@.len(),
            first_lost(world.particles.pos@, 0) == first_lost(world.particles.pos@, i as nat),
        decreases world.particles.pos@.len() - i,
    {
        if !world.particles.pos[i].is_finite() {
            let mut s: String = String::from_str("Simulation exploded at step ");
            push_decimal(&mut s, step);
            s.append(" (particle ");
            push_decimal(&mut s, i);
            s.append(")");
            return Err(s);
        }
        i += 1;
    }
    Ok(())
}

} // verus!
