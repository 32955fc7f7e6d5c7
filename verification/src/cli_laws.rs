//! What a command line asks for.
use crate::cli::{
    after_last_slash, explosion_text, file_names, first_lost, is_stream_option, stream_option,
    streams, Stream,
};
use crate::scalar::Vec3;
use crate::text::decimal;
use vstd::prelude::*;

verus! {

/// An argument is a stream option where it is `--rerun` or starts with
/// `--rerun=`.
pub open spec fn asks_to_stream(arg: Seq<char>) -> bool {
    arg == "--rerun"@ || ("--rerun="@.len() <= arg.len() && arg.take("--rerun="@.len() as int)
        == "--rerun="@)
}

proof fn options_agree(arg: Seq<char>)
    ensures
        is_stream_option(arg) == asks_to_stream(arg),
{
    let p = "--rerun="@;
    if p.is_prefix_of(arg) {
        assert(arg.take(p.len() as int) =~= p);
    }
}

/// How many of the arguments from `k` up to `n` are file names.
pub open spec fn names_between(args: Seq<String>, k: nat, n: nat) -> nat
    decreases n,
{
    if n <= k {
        0
    } else {
        names_between(args, k, (n - 1) as nat) + if asks_to_stream(args[n - 1]@) {
            0nat
        } else {
            1nat
        }
    }
}

proof fn names_between_steps(args: Seq<String>, k: nat, n: nat)
    requires
        k < n,
    ensures
        names_between(args, k, n) == names_between(args, k + 1, n) + if asks_to_stream(
            args[k as int]@,
        ) {
            0nat
        } else {
            1nat
        },
    decreases n,
{
    if k + 1 < n {
        names_between_steps(args, k, (n - 1) as nat);
    } else {
        assert(names_between(args, k, k) == 0);
        assert(names_between(args, k + 1, n) == 0);
    }
}

/// The arguments that are no stream option are the file names, in their order.
pub proof fn other_arguments_are_files(args: Seq<String>, k: nat, i: int)
    requires
        k <= i < args.len(),
    ensures
        file_names(args, k).len() == names_between(args, k, args.len()),
        !asks_to_stream(args[i]@) ==> {
            let at = names_between(args, k, i as nat) as int;
            &&& at < file_names(args, k).len()
            &&& file_names(args, k)[at] == args[i]@
        },
    decreases args.len() - k,
{
    options_agree(args[k as int]@);
    names_between_steps(args, k, args.len());
    files_counted(args, k);
    if k < i {
        other_arguments_are_files(args, k + 1, i);
        names_between_steps(args, k, i as nat);
        let rest = file_names(args, k + 1);
        if !asks_to_stream(args[k as int]@) {
            assert(file_names(args, k) == seq![args[k as int]@] + rest);
        }
    } else {
        assert(names_between(args, k, i as nat) == 0);
    }
}

proof fn files_counted(args: Seq<String>, k: nat)
    requires
        k <= args.len(),
    ensures
        file_names(args, k).len() == names_between(args, k, args.len()),
    decreases args.len() - k,
{
    if k < args.len() {
        files_counted(args, k + 1);
        options_agree(args[k as int]@);
        names_between_steps(args, k, args.len());
    }
}

/// Of several stream options the last counts; with none nothing is streamed.
pub proof fn the_last_stream_option_counts(
    args: Seq<String>,
    k: nat,
    last: Option<Seq<char>>,
    i: int,
)
    requires
        k <= args.len(),
    ensures
        k <= i < args.len() && asks_to_stream(args[i]@) && (forall|j: int|
            i < j < args.len() ==> !asks_to_stream((#[trigger] args[j])@)) ==> stream_option(
            args,
            k,
            last,
        ) == Some(args[i]@),
        (forall|j: int| k <= j < args.len() ==> !asks_to_stream((#[trigger] args[j])@))
            ==> stream_option(args, k, last) == last,
    decreases args.len() - k,
{
    if k < args.len() {
        options_agree(args[k as int]@);
        let next = if asks_to_stream(args[k as int]@) {
            Some(args[k as int]@)
        } else {
            last
        };
        the_last_stream_option_counts(args, k + 1, next, i);
    }
}

/// With `--rerun` the viewer is opened; with `--rerun=` and a name, that file is
/// written; otherwise neither.
pub proof fn streams_go_where_they_are_told(option: Option<Seq<char>>, s: Stream)
    requires
        streams(option, s),
    ensures
        option is None ==> s is Off,
        option == Some("--rerun"@) ==> s is Viewer,
        forall|name: Seq<char>|
            #![trigger "--rerun="@ + name]
            option == Some("--rerun="@ + name) ==> s is File && s->File_0@ == name,
{
    let p = "--rerun="@;
    reveal_strlit("--rerun=");
    reveal_strlit("--rerun");
    assert forall|name: Seq<char>|
        #![trigger p + name]
        option == Some(p + name) implies s is File && s->File_0@ == name by {
        assert(p.is_prefix_of(p + name)) by {
            assert((p + name).take(p.len() as int) =~= p);
        }
        assert((p + name).skip(p.len() as int) =~= name);
    }
}

/// The directory of a path ends behind its last slash; there is none without a
/// slash.
pub proof fn directories_end_at_the_last_slash(path: Seq<char>, n: nat)
    requires
        n <= path.len(),
    ensures
        after_last_slash(path, n) <= n,
        after_last_slash(path, n) > 0 ==> path[after_last_slash(path, n) - 1] == '/',
        forall|i: int| after_last_slash(path, n) <= i < n ==> #[trigger] path[i] != '/',
    decreases n,
{
    if n > 0 && path[n - 1] != '/' {
        directories_end_at_the_last_slash(path, (n - 1) as nat);
    }
}

/// The first particle that has left for infinity, or is nowhere, is reported;
/// none only where all are somewhere.
pub proof fn the_first_lost_particle_is_told(pos: Seq<Vec3>, k: nat)
    requires
        k <= pos.len() <= usize::MAX,
    ensures
        match first_lost(pos, k) {
            Some(i) => k <= i < pos.len() && !(pos[i as int].x.finite() && pos[i as int].y.finite()
                && pos[i as int].z.finite()) && forall|j: int|
                k <= j < i ==> (#[trigger] pos[j]).x.finite() && pos[j].y.finite()
                    && pos[j].z.finite(),
            None => forall|j: int|
                k <= j < pos.len() ==> (#[trigger] pos[j]).x.finite() && pos[j].y.finite()
                    && pos[j].z.finite(),
        },
    decreases pos.len() - k,
{
    if k < pos.len() && pos[k as int].finite() {
        the_first_lost_particle_is_told(pos, k + 1);
    }
}

/// The report names the step and the particle.
pub proof fn explosions_are_told(step: usize, particle: usize)
    ensures
        explosion_text(step, particle) == "Simulation exploded at step "@ + decimal(step as nat)
            + " (particle "@ + decimal(particle as nat) + ")"@,
{
}

} // verus!
