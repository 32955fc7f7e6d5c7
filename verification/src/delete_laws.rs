//! What is left of a document once the selected elements are deleted.
use crate::doc::{BridleItem, EditorDoc, LashingItem, PanelItem, SparItem, StiffJointItem};
use crate::doc_delete::{
    bridle_uses, bridles_left, junction_left, lashings_left, panel_uses, panels_left, pins_left,
    point_deleted, shifted, spar_uses, spars_left, stiff_left,
};
use crate::scalar::Vec3;
use crate::selection::Selection;
use crate::tools::{
    ascending, drop_last_below, kind_is_within, points_deleted, same_elements, selected_deleted,
    selects_existing, without, Kind,
};
use vstd::prelude::*;

verus! {

/// Of the first `n` elements those that are not dropped, in their order, each
/// as `change` makes it.
pub open spec fn kept<T>(
    s: Seq<T>,
    drops: spec_fn(int, T) -> bool,
    change: spec_fn(T) -> T,
    n: nat,
) -> Seq<T>
    decreases n,
{
    if n == 0 {
        Seq::empty()
    } else {
        let before = kept(s, drops, change, (n - 1) as nat);
        if drops(n - 1, s[n - 1]) {
            before
        } else {
            before.push(change(s[n - 1]))
        }
    }
}

/// How many indices below `n` are gone.
pub open spec fn gone_below(gone: spec_fn(usize) -> bool, n: nat) -> nat
    decreases n,
{
    if n == 0 {
        0
    } else {
        gone_below(gone, (n - 1) as nat) + if gone((n - 1) as usize) {
            1nat
        } else {
            0nat
        }
    }
}

/// The index that a point has once the gone ones are deleted.
pub open spec fn renumbered(gone: spec_fn(usize) -> bool, i: usize) -> usize {
    (i - gone_below(gone, i as nat)) as usize
}

pub open spec fn spar_renumbered(gone: spec_fn(usize) -> bool, s: SparItem) -> SparItem {
    SparItem { a: renumbered(gone, s.a), b: renumbered(gone, s.b), ..s }
}

pub open spec fn panel_renumbered(gone: spec_fn(usize) -> bool, p: PanelItem) -> PanelItem {
    PanelItem {
        a: renumbered(gone, p.a),
        b: renumbered(gone, p.b),
        c: renumbered(gone, p.c),
        ..p
    }
}

pub open spec fn bridle_renumbered(gone: spec_fn(usize) -> bool, b: BridleItem) -> BridleItem {
    BridleItem { a: renumbered(gone, b.a), b: renumbered(gone, b.b), ..b }
}

/// The points that a selection deletes.
pub open spec fn points_chosen(sels: Seq<Selection>) -> spec_fn(usize) -> bool {
    |i: usize| sels.contains(Selection::Point(i))
}

/// The pins that are not gone, renumbered.
pub open spec fn pins_remain(
    before: Set<usize>,
    after: Set<usize>,
    gone: spec_fn(usize) -> bool,
) -> bool {
    forall|j: usize| #[trigger]
        after.contains(j) <==> exists|i: usize| #[trigger]
            before.contains(i) && !gone(i) && renumbered(gone, i) == j
}

/// `after` is what is left of `before`. Of the points those that are not gone;
/// of the spars, panels and lines those that are not dropped themselves and have
/// no gone point, and of the junction, pins, stiff joints and lashings those at
/// a point that is not gone. All keep their order, and name the points they
/// named.
pub open spec fn remains(
    before: EditorDoc,
    after: EditorDoc,
    gone: spec_fn(usize) -> bool,
    spars: spec_fn(int) -> bool,
    panels: spec_fn(int) -> bool,
    bridles: spec_fn(int) -> bool,
) -> bool {
    &&& after.points@ == kept(
        before.points@,
        |k: int, p: Vec3| gone(k as usize),
        |p: Vec3| p,
        before.points@.len(),
    )
    &&& after.spars@ == kept(
        before.spars@,
        |k: int, s: SparItem| spars(k) || gone(s.a) || gone(s.b),
        |s: SparItem| spar_renumbered(gone, s),
        before.spars@.len(),
    )
    &&& after.panels@ == kept(
        before.panels@,
        |k: int, p: PanelItem| panels(k) || gone(p.a) || gone(p.b) || gone(p.c),
        |p: PanelItem| panel_renumbered(gone, p),
        before.panels@.len(),
    )
    &&& after.bridles@ == kept(
        before.bridles@,
        |k: int, b: BridleItem| bridles(k) || gone(b.a) || gone(b.b),
        |b: BridleItem| bridle_renumbered(gone, b),
        before.bridles@.len(),
    )
    &&& after.stiff_joints@ == kept(
        before.stiff_joints@,
        |k: int, s: StiffJointItem| gone(s.point),
        |s: StiffJointItem| StiffJointItem { point: renumbered(gone, s.point), ..s },
        before.stiff_joints@.len(),
    )
    &&& after.lashings@ == kept(
        before.lashings@,
        |k: int, l: LashingItem| gone(l.point),
        |l: LashingItem| LashingItem { point: renumbered(gone, l.point), ..l },
        before.lashings@.len(),
    )
    &&& pins_remain(before.pinned@, after.pinned@, gone)
    &&& after.junction == match before.junction {
        Some(j) => if gone(j) {
            None
        } else {
            Some(renumbered(gone, j))
        },
        None => None,
    }
    &&& after.name == before.name
    &&& after.gravity == before.gravity
    &&& after.duration == before.duration
    &&& after.wind == before.wind
    &&& after.sim == before.sim
    &&& after.junction_pinned == before.junction_pinned
}

/// What a selection leaves of a document.
pub open spec fn selection_gone(before: EditorDoc, after: EditorDoc, sels: Seq<Selection>) -> bool {
    remains(
        before,
        after,
        points_chosen(sels),
        |k: int| sels.contains(Selection::Spar(k as usize)),
        |k: int| sels.contains(Selection::Panel(k as usize)),
        |k: int| sels.contains(Selection::Bridle(k as usize)),
    )
}

/// Two ways of keeping that agree on every element keep the same.
proof fn kept_alike<T>(
    s: Seq<T>,
    d1: spec_fn(int, T) -> bool,
    c1: spec_fn(T) -> T,
    d2: spec_fn(int, T) -> bool,
    c2: spec_fn(T) -> T,
    n: nat,
)
    requires
        n <= s.len(),
        forall|k: int| #![trigger s[k]] 0 <= k < n ==> d1(k, s[k]) == d2(k, s[k]),
        forall|k: int| #![trigger s[k]] 0 <= k < n && !d1(k, s[k]) ==> c1(s[k]) == c2(s[k]),
    ensures
        kept(s, d1, c1, n) == kept(s, d2, c2, n),
    decreases n,
{
    if n > 0 {
        kept_alike(s, d1, c1, d2, c2, (n - 1) as nat);
        assert(d1(n - 1, s[n - 1]) == d2(n - 1, s[n - 1]));
    }
}

/// Keeping depends on the first elements alone.
proof fn kept_of_prefix<T>(
    s: Seq<T>,
    t: Seq<T>,
    d: spec_fn(int, T) -> bool,
    c: spec_fn(T) -> T,
    n: nat,
)
    requires
        n <= s.len(),
        n <= t.len(),
        forall|k: int| #![trigger s[k]] 0 <= k < n ==> s[k] == t[k],
    ensures
        kept(s, d, c, n) == kept(t, d, c, n),
    decreases n,
{
    if n > 0 {
        kept_of_prefix(s, t, d, c, (n - 1) as nat);
        assert(s[n - 1] == t[n - 1]);
    }
}

/// Keeping what was kept, by what the elements are alone, is one keeping.
proof fn kept_twice<T>(
    s: Seq<T>,
    d1: spec_fn(int, T) -> bool,
    c1: spec_fn(T) -> T,
    d2: spec_fn(T) -> bool,
    c2: spec_fn(T) -> T,
    n: nat,
)
    requires
        n <= s.len(),
    ensures
        ({
            let once = kept(s, d1, c1, n);
            kept(once, |k: int, x: T| d2(x), c2, once.len()) == kept(
                s,
                |k: int, x: T| d1(k, x) || d2(c1(x)),
                |x: T| c2(c1(x)),
                n,
            )
        }),
    decreases n,
{
    if n > 0 {
        kept_twice(s, d1, c1, d2, c2, (n - 1) as nat);
        let before = kept(s, d1, c1, (n - 1) as nat);
        let once = kept(s, d1, c1, n);
        if !d1(n - 1, s[n - 1]) {
            kept_of_prefix(once, before, |k: int, x: T| d2(x), c2, before.len());
        }
    }
}

/// Nothing dropped and nothing changed.
proof fn kept_all<T>(s: Seq<T>, n: nat)
    requires
        n <= s.len(),
    ensures
        kept(s, |k: int, x: T| false, |x: T| x, n) == s.take(n as int),
    decreases n,
{
    if n > 0 {
        kept_all(s, (n - 1) as nat);
        assert(s.take(n as int) =~= s.take(n - 1).push(s[n - 1]));
    } else {
        assert(s.take(0) =~= Seq::<T>::empty());
    }
}

/// Without one element, then without those at lower places.
proof fn kept_without<T>(s: Seq<T>, g: usize, low: spec_fn(usize) -> bool, m: nat)
    requires
        g < s.len() <= usize::MAX,
        m < s.len(),
        forall|i: usize| #[trigger] low(i) ==> i < g,
    ensures
        kept(s.remove(g as int), |k: int, x: T| low(k as usize), |x: T| x, m) == kept(
            s,
            |k: int, x: T| low(k as usize) || k as usize == g,
            |x: T| x,
            if m <= g {
                m
            } else {
                m + 1
            },
        ),
    decreases m,
{
    let t = s.remove(g as int);
    let d1 = |k: int, x: T| low(k as usize);
    let d2 = |k: int, x: T| low(k as usize) || k as usize == g;
    let id = |x: T| x;
    if m > 0 {
        kept_without(s, g, low, (m - 1) as nat);
        if m <= g {
            assert(t[m - 1] == s[m - 1]);
        } else {
            assert(t[m - 1] == s[m as int]);
            if m == g + 1 {
                // The element at `g` is the one that is passed over.
                assert(d2(g as int, s[g as int]));
                assert(kept(s, d2, id, m) == kept(s, d2, id, (m - 1) as nat));
            }
            assert(kept(s, d2, id, m + 1) == kept(s, d2, id, m).push(s[m as int]));
        }
    }
}

/// Taking elements out at the places of an ascending list keeps the others.
proof fn without_keeps<T>(s: Seq<T>, gone: Seq<usize>)
    requires
        s.len() <= usize::MAX,
        ascending(gone),
        forall|k: int| 0 <= k < gone.len() ==> (#[trigger] gone[k]) < s.len(),
    ensures
        without(s, gone) == kept(
            s,
            |k: int, x: T| gone.contains(k as usize),
            |x: T| x,
            s.len(),
        ),
    decreases gone.len(),
{
    let id = |x: T| x;
    let d = |k: int, x: T| gone.contains(k as usize);
    if gone.len() == 0 {
        kept_all(s, s.len());
        assert(s.take(s.len() as int) =~= s);
        kept_alike(s, |k: int, x: T| false, id, d, id, s.len());
    } else {
        let g = gone.last();
        let rest = gone.drop_last();
        let t = s.remove(g as int);
        drop_last_below(gone);
        assert(gone[gone.len() - 1] == g);
        assert forall|k: int| 0 <= k < rest.len() implies (#[trigger] rest[k]) < t.len() by {
            assert(rest[k] < g);
        }
        without_keeps(t, rest);
        let low = |i: usize| rest.contains(i);
        assert forall|i: usize| #[trigger] low(i) implies i < g by {
            let k = choose|k: int| 0 <= k < rest.len() && rest[k] == i;
            assert(rest[k] < g);
        }
        kept_alike(
            t,
            |k: int, x: T| rest.contains(k as usize),
            id,
            |k: int, x: T| low(k as usize),
            id,
            t.len(),
        );
        kept_without(s, g, low, t.len());
        assert forall|i: usize| gone.contains(i) == (rest.contains(i) || i == g) by {
            last_or_rest(gone, i);
        }
        let d2 = |k: int, x: T| low(k as usize) || k as usize == g;
        if g == s.len() - 1 {
            assert(d2(g as int, s[g as int]));
            assert(kept(s, d2, id, s.len()) == kept(s, d2, id, (s.len() - 1) as nat));
        }
        kept_alike(s, d2, id, d, id, s.len());
    }
}

proof fn last_or_rest(gone: Seq<usize>, i: usize)
    requires
        gone.len() > 0,
    ensures
        gone.contains(i) == (gone.drop_last().contains(i) || i == gone.last()),
{
    let rest = gone.drop_last();
    if gone.contains(i) {
        let k = choose|k: int| 0 <= k < gone.len() && gone[k] == i;
        if k < gone.len() - 1 {
            assert(rest[k] == i);
        }
    }
    if rest.contains(i) {
        let k = choose|k: int| 0 <= k < rest.len() && rest[k] == i;
        assert(gone[k] == i);
    }
    assert(gone[gone.len() - 1] == gone.last());
}

/// No more are gone than there are.
proof fn gone_below_bound(gone: spec_fn(usize) -> bool, n: nat)
    ensures
        gone_below(gone, n) <= n,
    decreases n,
{
    if n > 0 {
        gone_below_bound(gone, (n - 1) as nat);
    }
}

/// Counting the gone below `n` with one more, higher than the others.
proof fn gone_below_with(low: spec_fn(usize) -> bool, g: usize, n: nat)
    requires
        n <= usize::MAX,
        forall|i: usize| #[trigger] low(i) ==> i < g,
    ensures
        gone_below(|i: usize| low(i) || i == g, n) == gone_below(low, n) + if n > g {
            1nat
        } else {
            0nat
        },
        n > g ==> gone_below(low, n) == gone_below(low, (n - 1) as nat),
    decreases n,
{
    if n > 0 {
        gone_below_with(low, g, (n - 1) as nat);
        assert(n > g ==> !low((n - 1) as usize));
    }
}

/// Deleting the highest point and then the others renumbers as deleting all.
proof fn renumbered_with(low: spec_fn(usize) -> bool, g: usize, i: usize)
    requires
        forall|k: usize| #[trigger] low(k) ==> k < g,
        i != g,
    ensures
        low(shifted(i, g)) == low(i),
        renumbered(low, shifted(i, g)) == renumbered(|k: usize| low(k) || k == g, i),
{
    gone_below_with(low, g, i as nat);
    gone_below_bound(low, i as nat);
    if i > g {
        gone_below_bound(low, (i - 1) as nat);
    }
}

proof fn spars_left_kept(items: Seq<SparItem>, g: usize, n: nat)
    requires
        n <= items.len(),
    ensures
        spars_left(items, g, n) == kept(
            items,
            |k: int, s: SparItem| spar_uses(s, g),
            |s: SparItem| SparItem { a: shifted(s.a, g), b: shifted(s.b, g), ..s },
            n,
        ),
    decreases n,
{
    if n > 0 {
        spars_left_kept(items, g, (n - 1) as nat);
    }
}

proof fn panels_left_kept(items: Seq<PanelItem>, g: usize, n: nat)
    requires
        n <= items.len(),
    ensures
        panels_left(items, g, n) == kept(
            items,
            |k: int, p: PanelItem| panel_uses(p, g),
            |p: PanelItem|
                PanelItem { a: shifted(p.a, g), b: shifted(p.b, g), c: shifted(p.c, g), ..p },
            n,
        ),
    decreases n,
{
    if n > 0 {
        panels_left_kept(items, g, (n - 1) as nat);
    }
}

proof fn bridles_left_kept(items: Seq<BridleItem>, g: usize, n: nat)
    requires
        n <= items.len(),
    ensures
        bridles_left(items, g, n) == kept(
            items,
            |k: int, b: BridleItem| bridle_uses(b, g),
            |b: BridleItem| BridleItem { a: shifted(b.a, g), b: shifted(b.b, g), ..b },
            n,
        ),
    decreases n,
{
    if n > 0 {
        bridles_left_kept(items, g, (n - 1) as nat);
    }
}

proof fn stiff_left_kept(items: Seq<StiffJointItem>, g: usize, n: nat)
    requires
        n <= items.len(),
    ensures
        stiff_left(items, g, n) == kept(
            items,
            |k: int, s: StiffJointItem| s.point == g,
            |s: StiffJointItem| StiffJointItem { point: shifted(s.point, g), ..s },
            n,
        ),
    decreases n,
{
    if n > 0 {
        stiff_left_kept(items, g, (n - 1) as nat);
    }
}

proof fn lashings_left_kept(items: Seq<LashingItem>, g: usize, n: nat)
    requires
        n <= items.len(),
    ensures
        lashings_left(items, g, n) == kept(
            items,
            |k: int, l: LashingItem| l.point == g,
            |l: LashingItem| LashingItem { point: shifted(l.point, g), ..l },
            n,
        ),
    decreases n,
{
    if n > 0 {
        lashings_left_kept(items, g, (n - 1) as nat);
    }
}

/// The pins left by the highest point, and then by the others.
proof fn pins_left_remain(
    before: Set<usize>,
    mid: Set<usize>,
    after: Set<usize>,
    low: spec_fn(usize) -> bool,
    g: usize,
)
    requires
        forall|i: usize| #[trigger] low(i) ==> i < g,
        mid == pins_left(before, g),
        pins_remain(mid, after, low),
    ensures
        pins_remain(before, after, |i: usize| low(i) || i == g),
{
    let all = |i: usize| low(i) || i == g;
    let shift = |i: usize| shifted(i, g);
    assert forall|j: usize| #[trigger] after.contains(j) <==> exists|i: usize| #[trigger]
        before.contains(i) && !all(i) && renumbered(all, i) == j by {
        if after.contains(j) {
            let m = choose|m: usize| #[trigger]
                mid.contains(m) && !low(m) && renumbered(low, m) == j;
            let i = choose|i: usize| before.remove(g).contains(i) && shift(i) == m;
            assert(before.contains(i));
            renumbered_with(low, g, i);
        }
        if exists|i: usize| #[trigger] before.contains(i) && !all(i) && renumbered(all, i) == j {
            let i = choose|i: usize| #[trigger]
                before.contains(i) && !all(i) && renumbered(all, i) == j;
            renumbered_with(low, g, i);
            assert(before.remove(g).contains(i));
            assert(mid.contains(shift(i)));
        }
    }
}

/// The spars left by the highest point, and then by the others.
proof fn spars_left_remain(items: Seq<SparItem>, low: spec_fn(usize) -> bool, g: usize)
    requires
        forall|i: usize| #[trigger] low(i) ==> i < g,
    ensures
        ({
            let all = |i: usize| low(i) || i == g;
            let once = spars_left(items, g, items.len());
            kept(once, |k: int, s: SparItem| low(s.a) || low(s.b), |s: SparItem| spar_renumbered(low, s), once.len()) == kept(
                items,
                |k: int, s: SparItem| all(s.a) || all(s.b),
                |s: SparItem| spar_renumbered(all, s),
                items.len(),
            )
        }),
{
    let all = |i: usize| low(i) || i == g;
    let d1 = |k: int, s: SparItem| spar_uses(s, g);
    let c1 = |s: SparItem| SparItem { a: shifted(s.a, g), b: shifted(s.b, g), ..s };
    let d2 = |s: SparItem| low(s.a) || low(s.b);
    let c2 = |s: SparItem| spar_renumbered(low, s);
    let n = items.len();
    spars_left_kept(items, g, n);
    kept_twice(items, d1, c1, d2, c2, n);
    let once = kept(items, d1, c1, n);
    kept_alike(
        once,
        |k: int, x: SparItem| d2(x),
        c2,
        |k: int, s: SparItem| low(s.a) || low(s.b),
        |s: SparItem| spar_renumbered(low, s),
        once.len(),
    );
    let dd = |k: int, x: SparItem| d1(k, x) || d2(c1(x));
    let cc = |x: SparItem| c2(c1(x));
    let da = |k: int, s: SparItem| all(s.a) || all(s.b);
    let ca = |s: SparItem| spar_renumbered(all, s);
    assert forall|k: int| #![trigger items[k]] 0 <= k < n implies dd(k, items[k]) == da(
        k,
        items[k],
    ) && (!dd(k, items[k]) ==> cc(items[k]) == ca(items[k])) by {
        let x = items[k];
        if x.a != g {
            renumbered_with(low, g, x.a);
        }
        if x.b != g {
            renumbered_with(low, g, x.b);
        }
    }
    kept_alike(items, dd, cc, da, ca, n);
}

proof fn panels_left_remain(items: Seq<PanelItem>, low: spec_fn(usize) -> bool, g: usize)
    requires
        forall|i: usize| #[trigger] low(i) ==> i < g,
    ensures
        ({
            let all = |i: usize| low(i) || i == g;
            let once = panels_left(items, g, items.len());
            kept(once, |k: int, p: PanelItem| low(p.a) || low(p.b) || low(p.c), |p: PanelItem| panel_renumbered(low, p), once.len()) == kept(
                items,
                |k: int, p: PanelItem| all(p.a) || all(p.b) || all(p.c),
                |p: PanelItem| panel_renumbered(all, p),
                items.len(),
            )
        }),
{
    let all = |i: usize| low(i) || i == g;
    let d1 = |k: int, p: PanelItem| panel_uses(p, g);
    let c1 = |p: PanelItem| 
        PanelItem { a: shifted(p.a, g), b: shifted(p.b, g), c: shifted(p.c, g), ..p };
    let d2 = |p: PanelItem| low(p.a) || low(p.b) || low(p.c);
    let c2 = |p: PanelItem| panel_renumbered(low, p);
    let n = items.len();
    panels_left_kept(items, g, n);
    kept_twice(items, d1, c1, d2, c2, n);
    let once = kept(items, d1, c1, n);
    kept_alike(
        once,
        |k: int, x: PanelItem| d2(x),
        c2,
        |k: int, p: PanelItem| low(p.a) || low(p.b) || low(p.c),
        |p: PanelItem| panel_renumbered(low, p),
        once.len(),
    );
    let dd = |k: int, x: PanelItem| d1(k, x) || d2(c1(x));
    let cc = |x: PanelItem| c2(c1(x));
    let da = |k: int, p: PanelItem| all(p.a) || all(p.b) || all(p.c);
    let ca = |p: PanelItem| panel_renumbered(all, p);
    assert forall|k: int| #![trigger items[k]] 0 <= k < n implies dd(k, items[k]) == da(
        k,
        items[k],
    ) && (!dd(k, items[k]) ==> cc(items[k]) == ca(items[k])) by {
        let x = items[k];
        if x.a != g {
            renumbered_with(low, g, x.a);
        }
        if x.b != g {
            renumbered_with(low, g, x.b);
        }
        if x.c != g {
            renumbered_with(low, g, x.c);
        }
    }
    kept_alike(items, dd, cc, da, ca, n);
}

proof fn bridles_left_remain(items: Seq<BridleItem>, low: spec_fn(usize) -> bool, g: usize)
    requires
        forall|i: usize| #[trigger] low(i) ==> i < g,
    ensures
        ({
            let all = |i: usize| low(i) || i == g;
            let once = bridles_left(items, g, items.len());
            kept(once, |k: int, b: BridleItem| low(b.a) || low(b.b), |b: BridleItem| bridle_renumbered(low, b), once.len()) == kept(
                items,
                |k: int, b: BridleItem| all(b.a) || all(b.b),
                |b: BridleItem| bridle_renumbered(all, b),
                items.len(),
            )
        }),
{
    let all = |i: usize| low(i) || i == g;
    let d1 = |k: int, b: BridleItem| bridle_uses(b, g);
    let c1 = |b: BridleItem| BridleItem { a: shifted(b.a, g), b: shifted(b.b, g), ..b };
    let d2 = |b: BridleItem| low(b.a) || low(b.b);
    let c2 = |b: BridleItem| bridle_renumbered(low, b);
    let n = items.len();
    bridles_left_kept(items, g, n);
    kept_twice(items, d1, c1, d2, c2, n);
    let once = kept(items, d1, c1, n);
    kept_alike(
        once,
        |k: int, x: BridleItem| d2(x),
        c2,
        |k: int, b: BridleItem| low(b.a) || low(b.b),
        |b: BridleItem| bridle_renumbered(low, b),
        once.len(),
    );
    let dd = |k: int, x: BridleItem| d1(k, x) || d2(c1(x));
    let cc = |x: BridleItem| c2(c1(x));
    let da = |k: int, b: BridleItem| all(b.a) || all(b.b);
    let ca = |b: BridleItem| bridle_renumbered(all, b);
    assert forall|k: int| #![trigger items[k]] 0 <= k < n implies dd(k, items[k]) == da(
        k,
        items[k],
    ) && (!dd(k, items[k]) ==> cc(items[k]) == ca(items[k])) by {
        let x = items[k];
        if x.a != g {
            renumbered_with(low, g, x.a);
        }
        if x.b != g {
            renumbered_with(low, g, x.b);
        }
    }
    kept_alike(items, dd, cc, da, ca, n);
}

proof fn stiff_left_remain(items: Seq<StiffJointItem>, low: spec_fn(usize) -> bool, g: usize)
    requires
        forall|i: usize| #[trigger] low(i) ==> i < g,
    ensures
        ({
            let all = |i: usize| low(i) || i == g;
            let once = stiff_left(items, g, items.len());
            kept(once, |k: int, s: StiffJointItem| low(s.point), |s: StiffJointItem| StiffJointItem { point: renumbered(low, s.point), ..s }, once.len()) == kept(
                items,
                |k: int, s: StiffJointItem| all(s.point),
                |s: StiffJointItem| StiffJointItem { point: renumbered(all, s.point), ..s },
                items.len(),
            )
        }),
{
    let all = |i: usize| low(i) || i == g;
    let d1 = |k: int, s: StiffJointItem| s.point == g;
    let c1 = |s: StiffJointItem| StiffJointItem { point: shifted(s.point, g), ..s };
    let d2 = |s: StiffJointItem| low(s.point);
    let c2 = |s: StiffJointItem| StiffJointItem { point: renumbered(low, s.point), ..s };
    let n = items.len();
    stiff_left_kept(items, g, n);
    kept_twice(items, d1, c1, d2, c2, n);
    let once = kept(items, d1, c1, n);
    kept_alike(
        once,
        |k: int, x: StiffJointItem| d2(x),
        c2,
        |k: int, s: StiffJointItem| low(s.point),
        |s: StiffJointItem| StiffJointItem { point: renumbered(low, s.point), ..s },
        once.len(),
    );
    let dd = |k: int, x: StiffJointItem| d1(k, x) || d2(c1(x));
    let cc = |x: StiffJointItem| c2(c1(x));
    let da = |k: int, s: StiffJointItem| all(s.point);
    let ca = |s: StiffJointItem| StiffJointItem { point: renumbered(all, s.point), ..s };
    assert forall|k: int| #![trigger items[k]] 0 <= k < n implies dd(k, items[k]) == da(
        k,
        items[k],
    ) && (!dd(k, items[k]) ==> cc(items[k]) == ca(items[k])) by {
        let x = items[k];
        if x.point != g {
            renumbered_with(low, g, x.point);
        }
    }
    kept_alike(items, dd, cc, da, ca, n);
}

proof fn lashings_left_remain(items: Seq<LashingItem>, low: spec_fn(usize) -> bool, g: usize)
    requires
        forall|i: usize| #[trigger] low(i) ==> i < g,
    ensures
        ({
            let all = |i: usize| low(i) || i == g;
            let once = lashings_left(items, g, items.len());
            kept(once, |k: int, l: LashingItem| low(l.point), |l: LashingItem| LashingItem { point: renumbered(low, l.point), ..l }, once.len()) == kept(
                items,
                |k: int, l: LashingItem| all(l.point),
                |l: LashingItem| LashingItem { point: renumbered(all, l.point), ..l },
                items.len(),
            )
        }),
{
    let all = |i: usize| low(i) || i == g;
    let d1 = |k: int, l: LashingItem| l.point == g;
    let c1 = |l: LashingItem| LashingItem { point: shifted(l.point, g), ..l };
    let d2 = |l: LashingItem| low(l.point);
    let c2 = |l: LashingItem| LashingItem { point: renumbered(low, l.point), ..l };
    let n = items.len();
    lashings_left_kept(items, g, n);
    kept_twice(items, d1, c1, d2, c2, n);
    let once = kept(items, d1, c1, n);
    kept_alike(
        once,
        |k: int, x: LashingItem| d2(x),
        c2,
        |k: int, l: LashingItem| low(l.point),
        |l: LashingItem| LashingItem { point: renumbered(low, l.point), ..l },
        once.len(),
    );
    let dd = |k: int, x: LashingItem| d1(k, x) || d2(c1(x));
    let cc = |x: LashingItem| c2(c1(x));
    let da = |k: int, l: LashingItem| all(l.point);
    let ca = |l: LashingItem| LashingItem { point: renumbered(all, l.point), ..l };
    assert forall|k: int| #![trigger items[k]] 0 <= k < n implies dd(k, items[k]) == da(
        k,
        items[k],
    ) && (!dd(k, items[k]) ==> cc(items[k]) == ca(items[k])) by {
        let x = items[k];
        if x.point != g {
            renumbered_with(low, g, x.point);
        }
    }
    kept_alike(items, dd, cc, da, ca, n);
}

/// Nothing is dropped but for its points.
pub open spec fn none_chosen() -> spec_fn(int) -> bool {
    |k: int| false
}

/// Deleting points one by one, the highest first, leaves what deleting all of
/// them does.
proof fn points_deleted_remain(before: EditorDoc, after: EditorDoc, gone: Seq<usize>)
    requires
        points_deleted(before, after, gone),
        ascending(gone),
        forall|k: int| 0 <= k < gone.len() ==> (#[trigger] gone[k]) < before.points@.len(),
    ensures
        remains(
            before,
            after,
            |i: usize| gone.contains(i),
            none_chosen(),
            none_chosen(),
            none_chosen(),
        ),
    decreases gone.len(),
{
    let dead = |i: usize| gone.contains(i);
    if gone.len() == 0 {
        nothing_gone(before, dead);
    } else {
        let g = gone.last();
        let rest = gone.drop_last();
        let mid = choose|mid: EditorDoc| #[trigger]
            point_deleted(before, mid, g) && points_deleted(mid, after, rest);
        drop_last_below(gone);
        assert(gone[gone.len() - 1] == g);
        assert forall|k: int| 0 <= k < rest.len() implies (#[trigger] rest[k])
            < mid.points@.len() by {
            assert(rest[k] < g);
        }
        points_deleted_remain(mid, after, rest);
        let low = |i: usize| rest.contains(i);
        assert forall|i: usize| #[trigger] low(i) implies i < g by {
            let k = choose|k: int| 0 <= k < rest.len() && rest[k] == i;
            assert(rest[k] < g);
        }
        let all = |i: usize| low(i) || i == g;
        assert forall|i: usize| #[trigger] dead(i) == all(i) by {
            last_or_rest(gone, i);
        }
        assert(dead =~= all);
        assert(before.points@.len() == before.points.len());
        points_left_remain(before.points@, low, g);
        spars_left_remain(before.spars@, low, g);
        panels_left_remain(before.panels@, low, g);
        bridles_left_remain(before.bridles@, low, g);
        stiff_left_remain(before.stiff_joints@, low, g);
        lashings_left_remain(before.lashings@, low, g);
        pins_left_remain(before.pinned@, mid.pinned@, after.pinned@, low, g);
        match before.junction {
            Some(j) => {
                if j != g {
                    renumbered_with(low, g, j);
                }
            },
            None => {},
        }
        assert(junction_left(before.junction, g) == mid.junction);
        same_drops(mid, low);
        same_drops(before, all);
    }
}

/// The points left by the highest point, and then by the others.
proof fn points_left_remain(points: Seq<Vec3>, low: spec_fn(usize) -> bool, g: usize)
    requires
        g < points.len() <= usize::MAX,
        forall|i: usize| #[trigger] low(i) ==> i < g,
    ensures
        ({
            let all = |i: usize| low(i) || i == g;
            kept(
                points.remove(g as int),
                |k: int, p: Vec3| low(k as usize),
                |p: Vec3| p,
                (points.len() - 1) as nat,
            ) == kept(points, |k: int, p: Vec3| all(k as usize), |p: Vec3| p, points.len())
        }),
{
    let all = |i: usize| low(i) || i == g;
    let id = |p: Vec3| p;
    let d2 = |k: int, p: Vec3| low(k as usize) || k as usize == g;
    let n = points.len();
    kept_without(points, g, low, (n - 1) as nat);
    if g == n - 1 {
        assert(d2(g as int, points[g as int]));
        assert(kept(points, d2, id, n) == kept(points, d2, id, (n - 1) as nat));
    }
    kept_alike(points, d2, id, |k: int, p: Vec3| all(k as usize), id, n);
}

/// Where nothing is gone, all remains.
proof fn nothing_gone(doc: EditorDoc, gone: spec_fn(usize) -> bool)
    requires
        forall|i: usize| !#[trigger] gone(i),
    ensures
        remains(doc, doc, gone, none_chosen(), none_chosen(), none_chosen()),
{
    let none = none_chosen();
    assert forall|i: usize| #[trigger] renumbered(gone, i) == i by {
        none_below(gone, i as nat);
    }
    all_kept(
        doc.points@,
        |k: int, p: Vec3| gone(k as usize),
        |p: Vec3| p,
    );
    all_kept(
        doc.spars@,
        |k: int, s: SparItem| none(k) || gone(s.a) || gone(s.b),
        |s: SparItem| spar_renumbered(gone, s),
    );
    all_kept(
        doc.panels@,
        |k: int, p: PanelItem| none(k) || gone(p.a) || gone(p.b) || gone(p.c),
        |p: PanelItem| panel_renumbered(gone, p),
    );
    all_kept(
        doc.bridles@,
        |k: int, b: BridleItem| none(k) || gone(b.a) || gone(b.b),
        |b: BridleItem| bridle_renumbered(gone, b),
    );
    all_kept(
        doc.stiff_joints@,
        |k: int, s: StiffJointItem| gone(s.point),
        |s: StiffJointItem| StiffJointItem { point: renumbered(gone, s.point), ..s },
    );
    all_kept(
        doc.lashings@,
        |k: int, l: LashingItem| gone(l.point),
        |l: LashingItem| LashingItem { point: renumbered(gone, l.point), ..l },
    );
}

proof fn none_below(gone: spec_fn(usize) -> bool, n: nat)
    requires
        forall|i: usize| !#[trigger] gone(i),
    ensures
        gone_below(gone, n) == 0,
    decreases n,
{
    if n > 0 {
        none_below(gone, (n - 1) as nat);
    }
}

proof fn all_kept<T>(s: Seq<T>, d: spec_fn(int, T) -> bool, c: spec_fn(T) -> T)
    requires
        forall|k: int| #![trigger s[k]] 0 <= k < s.len() ==> !d(k, s[k]) && c(s[k]) == s[k],
    ensures
        kept(s, d, c, s.len()) == s,
{
    kept_all(s, s.len());
    assert(s.take(s.len() as int) =~= s);
    kept_alike(s, |k: int, x: T| false, |x: T| x, d, c, s.len());
}

/// Dropping by the points alone.
proof fn same_drops(doc: EditorDoc, gone: spec_fn(usize) -> bool)
    ensures
        ({
            let none = none_chosen();
            &&& kept(
                doc.spars@,
                |k: int, s: SparItem| none(k) || gone(s.a) || gone(s.b),
                |s: SparItem| spar_renumbered(gone, s),
                doc.spars@.len(),
            ) == kept(
                doc.spars@,
                |k: int, s: SparItem| gone(s.a) || gone(s.b),
                |s: SparItem| spar_renumbered(gone, s),
                doc.spars@.len(),
            )
            &&& kept(
                doc.panels@,
                |k: int, p: PanelItem| none(k) || gone(p.a) || gone(p.b) || gone(p.c),
                |p: PanelItem| panel_renumbered(gone, p),
                doc.panels@.len(),
            ) == kept(
                doc.panels@,
                |k: int, p: PanelItem| gone(p.a) || gone(p.b) || gone(p.c),
                |p: PanelItem| panel_renumbered(gone, p),
                doc.panels@.len(),
            )
            &&& kept(
                doc.bridles@,
                |k: int, b: BridleItem| none(k) || gone(b.a) || gone(b.b),
                |b: BridleItem| bridle_renumbered(gone, b),
                doc.bridles@.len(),
            ) == kept(
                doc.bridles@,
                |k: int, b: BridleItem| gone(b.a) || gone(b.b),
                |b: BridleItem| bridle_renumbered(gone, b),
                doc.bridles@.len(),
            )
        }),
{
    let none = none_chosen();
    kept_alike(
        doc.spars@,
        |k: int, s: SparItem| none(k) || gone(s.a) || gone(s.b),
        |s: SparItem| spar_renumbered(gone, s),
        |k: int, s: SparItem| gone(s.a) || gone(s.b),
        |s: SparItem| spar_renumbered(gone, s),
        doc.spars@.len(),
    );
    kept_alike(
        doc.panels@,
        |k: int, p: PanelItem| none(k) || gone(p.a) || gone(p.b) || gone(p.c),
        |p: PanelItem| panel_renumbered(gone, p),
        |k: int, p: PanelItem| gone(p.a) || gone(p.b) || gone(p.c),
        |p: PanelItem| panel_renumbered(gone, p),
        doc.panels@.len(),
    );
    kept_alike(
        doc.bridles@,
        |k: int, b: BridleItem| none(k) || gone(b.a) || gone(b.b),
        |b: BridleItem| bridle_renumbered(gone, b),
        |k: int, b: BridleItem| gone(b.a) || gone(b.b),
        |b: BridleItem| bridle_renumbered(gone, b),
        doc.bridles@.len(),
    );
}

/// Deleting a selection leaves what is neither selected nor depends on a
/// selected point, in its order.
pub proof fn deletion_leaves_the_rest(
    before: EditorDoc,
    after: EditorDoc,
    sels: Seq<Selection>,
    spars: Seq<usize>,
    panels: Seq<usize>,
    bridles: Seq<usize>,
    points: Seq<usize>,
)
    requires
        selects_existing(before, sels),
        selected_deleted(before, after, sels, spars, panels, bridles, points),
    ensures
        selection_gone(before, after, sels),
{
    kind_is_within(before, sels, spars, panels, bridles, points);
    let mid = choose|mid: EditorDoc|
        {
            &&& mid.spars@ == without(before.spars@, spars)
            &&& mid.panels@ == without(before.panels@, panels)
            &&& mid.bridles@ == without(before.bridles@, bridles)
            &&& mid == (EditorDoc {
                spars: mid.spars,
                panels: mid.panels,
                bridles: mid.bridles,
                ..before
            })
            &&& #[trigger] points_deleted(mid, after, points)
        };
    points_deleted_remain(mid, after, points);
    let dead = |i: usize| points.contains(i);
    let chosen = points_chosen(sels);
    assert forall|i: usize| #[trigger] dead(i) == chosen(i) by {
        assert(points.contains(i) <==> sels.contains(Kind::Point.of(i)));
    }
    assert(dead =~= chosen);
    same_drops(mid, chosen);
    assert(before.spars@.len() == before.spars.len());
    assert(before.panels@.len() == before.panels.len());
    assert(before.bridles@.len() == before.bridles.len());
    without_keeps(before.spars@, spars);
    without_keeps(before.panels@, panels);
    without_keeps(before.bridles@, bridles);
    let spar_chosen = |k: int| sels.contains(Selection::Spar(k as usize));
    let panel_chosen = |k: int| sels.contains(Selection::Panel(k as usize));
    let bridle_chosen = |k: int| sels.contains(Selection::Bridle(k as usize));
    assert forall|k: int| 0 <= k <= usize::MAX implies #[trigger] spar_chosen(k) == spars.contains(
        k as usize,
    ) by {
        assert(spars.contains(k as usize) <==> sels.contains(Kind::Spar.of(k as usize)));
    }
    assert forall|k: int| 0 <= k <= usize::MAX implies #[trigger] panel_chosen(k)
        == panels.contains(k as usize) by {
        assert(panels.contains(k as usize) <==> sels.contains(Kind::Panel.of(k as usize)));
    }
    assert forall|k: int| 0 <= k <= usize::MAX implies #[trigger] bridle_chosen(k)
        == bridles.contains(k as usize) by {
        assert(bridles.contains(k as usize) <==> sels.contains(Kind::Bridle.of(k as usize)));
    }
    chosen_then_uses(
        before.spars@,
        |k: int, s: SparItem| spars.contains(k as usize),
        |s: SparItem| chosen(s.a) || chosen(s.b),
        |s: SparItem| spar_renumbered(chosen, s),
        |k: int, s: SparItem| spar_chosen(k) || chosen(s.a) || chosen(s.b),
    );
    chosen_then_uses(
        before.panels@,
        |k: int, p: PanelItem| panels.contains(k as usize),
        |p: PanelItem| chosen(p.a) || chosen(p.b) || chosen(p.c),
        |p: PanelItem| panel_renumbered(chosen, p),
        |k: int, p: PanelItem| panel_chosen(k) || chosen(p.a) || chosen(p.b) || chosen(p.c),
    );
    chosen_then_uses(
        before.bridles@,
        |k: int, b: BridleItem| bridles.contains(k as usize),
        |b: BridleItem| chosen(b.a) || chosen(b.b),
        |b: BridleItem| bridle_renumbered(chosen, b),
        |k: int, b: BridleItem| bridle_chosen(k) || chosen(b.a) || chosen(b.b),
    );
    kept_alike(
        mid.spars@,
        |k: int, s: SparItem| chosen(s.a) || chosen(s.b),
        |s: SparItem| spar_renumbered(chosen, s),
        by_element(|s: SparItem| chosen(s.a) || chosen(s.b)),
        |s: SparItem| spar_renumbered(chosen, s),
        mid.spars@.len(),
    );
    kept_alike(
        mid.panels@,
        |k: int, p: PanelItem| chosen(p.a) || chosen(p.b) || chosen(p.c),
        |p: PanelItem| panel_renumbered(chosen, p),
        by_element(|p: PanelItem| chosen(p.a) || chosen(p.b) || chosen(p.c)),
        |p: PanelItem| panel_renumbered(chosen, p),
        mid.panels@.len(),
    );
    kept_alike(
        mid.bridles@,
        |k: int, b: BridleItem| chosen(b.a) || chosen(b.b),
        |b: BridleItem| bridle_renumbered(chosen, b),
        by_element(|b: BridleItem| chosen(b.a) || chosen(b.b)),
        |b: BridleItem| bridle_renumbered(chosen, b),
        mid.bridles@.len(),
    );
}

/// Drops by what the elements are, wherever they stand.
pub open spec fn by_element<T>(d: spec_fn(T) -> bool) -> spec_fn(int, T) -> bool {
    |k: int, x: T| d(x)
}

/// First without the chosen, then without those that use a gone point.
proof fn chosen_then_uses<T>(
    s: Seq<T>,
    d1: spec_fn(int, T) -> bool,
    d2: spec_fn(T) -> bool,
    c2: spec_fn(T) -> T,
    d: spec_fn(int, T) -> bool,
)
    requires
        forall|k: int| #![trigger s[k]] 0 <= k < s.len() ==> d(k, s[k]) == (d1(k, s[k]) || d2(s[k])),
    ensures
        ({
            let once = kept(s, d1, |x: T| x, s.len());
            kept(once, by_element(d2), c2, once.len()) == kept(s, d, c2, s.len())
        }),
{
    let id = |x: T| x;
    kept_twice(s, d1, id, d2, c2, s.len());
    let once = kept(s, d1, id, s.len());
    kept_alike(once, |k: int, x: T| d2(x), c2, by_element(d2), c2, once.len());
    kept_alike(
        s,
        |k: int, x: T| d1(k, x) || d2(id(x)),
        |x: T| c2(id(x)),
        d,
        c2,
        s.len(),
    );
}

/// The order of the selected elements, and how often one is listed, do not
/// matter: deleting either list of the same elements leaves the same.
pub proof fn deletion_ignores_order(
    before: EditorDoc,
    a: EditorDoc,
    b: EditorDoc,
    first: Seq<Selection>,
    second: Seq<Selection>,
)
    requires
        forall|s: Selection| #[trigger] first.contains(s) <==> second.contains(s),
        selection_gone(before, a, first),
        selection_gone(before, b, second),
    ensures
        same_elements(a, b),
{
    assert(points_chosen(first) =~= points_chosen(second));
    let s1 = |k: int| first.contains(Selection::Spar(k as usize));
    let s2 = |k: int| second.contains(Selection::Spar(k as usize));
    assert(s1 =~= s2);
    let p1 = |k: int| first.contains(Selection::Panel(k as usize));
    let p2 = |k: int| second.contains(Selection::Panel(k as usize));
    assert(p1 =~= p2);
    let b1 = |k: int| first.contains(Selection::Bridle(k as usize));
    let b2 = |k: int| second.contains(Selection::Bridle(k as usize));
    assert(b1 =~= b2);
    assert(a.pinned@ =~= b.pinned@);
}

/// A point that is left keeps its place: what its new index names is where it
/// was.
pub proof fn points_left_stay(points: Seq<Vec3>, gone: spec_fn(usize) -> bool, i: usize, n: nat)
    requires
        i < n <= points.len() <= usize::MAX,
        !gone(i),
    ensures
        ({
            let left = kept(points, |k: int, p: Vec3| gone(k as usize), |p: Vec3| p, n);
            &&& renumbered(gone, i) < left.len()
            &&& left.len() == n - gone_below(gone, n)
            &&& left[renumbered(gone, i) as int] == points[i as int]
        }),
    decreases n,
{
    gone_below_bound(gone, i as nat);
    gone_below_bound(gone, (n - 1) as nat);
    kept_count(points, gone, (n - 1) as nat);
    if i < n - 1 {
        points_left_stay(points, gone, i, (n - 1) as nat);
    }
}

proof fn kept_count(points: Seq<Vec3>, gone: spec_fn(usize) -> bool, n: nat)
    requires
        n <= points.len() <= usize::MAX,
    ensures
        kept(points, |k: int, p: Vec3| gone(k as usize), |p: Vec3| p, n).len() == n - gone_below(
            gone,
            n,
        ),
    decreases n,
{
    if n > 0 {
        kept_count(points, gone, (n - 1) as nat);
    }
}

} // verus!
