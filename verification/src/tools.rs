//! Edit-mode tools: picking, and what a click or a deletion does.
//!
//! The distances of a ray from the document's elements are measured outside;
//! which element is picked, and what becomes of the document, is decided here.
use crate::delete_laws::{deletion_leaves_the_rest, selection_gone};
use crate::doc::{BridleItem, EditorDoc};
use crate::doc_delete::point_deleted;
use crate::scalar::{Scalar, Vec3, ONE_BITS};
use crate::selection::Selection;
use vstd::prelude::*;

verus! {

/// The translate gizmo's three world-space axes.
#[derive(Clone, Copy, PartialEq, Eq, Debug, Structural)]
pub enum GizmoAxis {
    X,
    Y,
    Z,
}

impl GizmoAxis {
    /// The unit vector along the axis.
    pub open spec fn unit(self) -> Vec3 {
        let one = Scalar { bits: ONE_BITS };
        let zero = Scalar { bits: 0 };
        match self {
            GizmoAxis::X => Vec3 { x: one, y: zero, z: zero },
            GizmoAxis::Y => Vec3 { x: zero, y: one, z: zero },
            GizmoAxis::Z => Vec3 { x: zero, y: zero, z: one },
        }
    }

    /// The axis that follows in a right-handed turn.
    pub open spec fn turned(self) -> GizmoAxis {
        match self {
            GizmoAxis::X => GizmoAxis::Y,
            GizmoAxis::Y => GizmoAxis::Z,
            GizmoAxis::Z => GizmoAxis::X,
        }
    }

    pub fn dir(self) -> (r: Vec3)
        ensures
            r == self.unit(),
    {
        let one = Scalar { bits: ONE_BITS };
        let zero = Scalar::zero();
        match self {
            GizmoAxis::X => Vec3 { x: one, y: zero, z: zero },
            GizmoAxis::Y => Vec3 { x: zero, y: one, z: zero },
            GizmoAxis::Z => Vec3 { x: zero, y: zero, z: one },
        }
    }
}

/// The two unit vectors spanning the plane perpendicular to an axis, ordered so
/// that a quarter turn about the axis takes the first to the second.
pub fn ring_basis(axis: GizmoAxis) -> (r: (Vec3, Vec3))
    ensures
        r.0 == axis.turned().unit(),
        r.1 == axis.turned().turned().unit(),
{
    match axis {
        GizmoAxis::X => (GizmoAxis::Y.dir(), GizmoAxis::Z.dir()),
        GizmoAxis::Y => (GizmoAxis::Z.dir(), GizmoAxis::X.dir()),
        GizmoAxis::Z => (GizmoAxis::X.dir(), GizmoAxis::Y.dir()),
    }
}

/// What a ray measures against a point or a line: where along the ray the
/// closest approach is, how close it is, and how close counts as a hit.
#[derive(Clone, Copy, Debug, PartialEq, Eq, Structural)]
pub struct Probe {
    pub t: Scalar,
    pub distance: Scalar,
    pub radius: Scalar,
}

impl Probe {
    /// Where along the ray it hits: the closest approach is not behind the eye,
    /// and is close enough.
    pub open spec fn hit(self) -> Option<Scalar> {
        if !self.t.less(Scalar { bits: 0 }) && self.distance.less(self.radius) {
            Some(self.t)
        } else {
            None
        }
    }

    pub fn hit_at(&self) -> (r: Option<Scalar>)
        ensures
            r == self.hit(),
    {
        if !self.t.lt(Scalar::zero()) && self.distance.lt(self.radius) {
            Some(self.t)
        } else {
            None
        }
    }
}

/// Where along the ray each probe hits.
pub open spec fn hits_of(probes: Seq<Probe>) -> Seq<Option<Scalar>> {
    probes.map_values(|p: Probe| p.hit())
}

/// The nearest among the first `n` hits, the first of them where several are
/// equally near.
pub open spec fn nearest_hit(hits: Seq<Option<Scalar>>, n: nat) -> Option<usize>
    decreases n,
{
    if n == 0 {
        None
    } else {
        let best = nearest_hit(hits, (n - 1) as nat);
        let h = hits[n - 1];
        if h is Some && (best is None || h->0.less(hits[best->0 as int]->0)) {
            Some((n - 1) as usize)
        } else {
            best
        }
    }
}

/// What is found is a hit, and where no distance along the ray is undefined no
/// hit is nearer; nothing is found only where nothing is hit.
pub proof fn nearest_hit_is_nearest(hits: Seq<Option<Scalar>>, n: nat)
    requires
        n <= hits.len() <= usize::MAX,
        forall|k: int| 0 <= k < n && (#[trigger] hits[k]) is Some ==> !hits[k]->0.nan(),
    ensures
        match nearest_hit(hits, n) {
            Some(b) => b < n && hits[b as int] is Some && forall|k: int|
                0 <= k < n && (#[trigger] hits[k]) is Some ==> !hits[k]->0.less(
                    hits[b as int]->0,
                ),
            None => forall|k: int| 0 <= k < n ==> (#[trigger] hits[k]) is None,
        },
    decreases n,
{
    if n > 0 {
        nearest_hit_is_nearest(hits, (n - 1) as nat);
    }
}

fn collect_hits(probes: &Vec<Probe>) -> (r: Vec<Option<Scalar>>)
    ensures
        r@ == hits_of(probes@),
{
    let mut out: Vec<Option<Scalar>> = Vec::new();
    let mut k: usize = 0;
    while k < probes.len()
        invariant
            k <= probes@.len(),
            out@.len() == k,
            forall|i: int| 0 <= i < k ==> #[trigger] out@[i] == probes@[i].hit(),
        decreases probes@.len() - k,
    {
        out.push(probes[k].hit_at());
        k += 1;
    }
    assert(out@ =~= hits_of(probes@));
    out
}

/// The nearest of all hits.
pub(crate) fn find_nearest(hits: &Vec<Option<Scalar>>) -> (r: Option<usize>)
    ensures
        r == nearest_hit(hits@, hits@.len()),
        r is Some ==> r->0 < hits@.len(),
{
    let mut best: Option<usize> = None;
    let mut k: usize = 0;
    while k < hits.len()
        invariant
            k <= hits@.len(),
            best == nearest_hit(hits@, k as nat),
            best is Some ==> best->0 < k && hits@[best->0 as int] is Some,
        decreases hits@.len() - k,
    {
        match hits[k] {
            Some(t) => {
                let nearer: bool = match best {
                    None => true,
                    Some(b) => match hits[b] {
                        Some(u) => t.lt(u),
                        None => true,
                    },
                };
                if nearer {
                    best = Some(k);
                }
            },
            None => {},
        }
        k += 1;
    }
    best
}

/// The nearest of the points that a ray hits.
pub fn pick_point(probes: &Vec<Probe>) -> (r: Option<usize>)
    ensures
        r == nearest_hit(hits_of(probes@), probes@.len()),
        r is Some ==> r->0 < probes@.len(),
{
    let hits: Vec<Option<Scalar>> = collect_hits(probes);
    find_nearest(&hits)
}

/// The axes in the order in which they are probed.
pub open spec fn axis_at(k: int) -> GizmoAxis {
    if k == 0 {
        GizmoAxis::X
    } else if k == 1 {
        GizmoAxis::Y
    } else {
        GizmoAxis::Z
    }
}

/// Where along the ray a handle is hit; a ring seen edge-on has no probe.
pub open spec fn handle_hit(probe: Option<Probe>) -> Option<Scalar> {
    match probe {
        Some(p) => p.hit(),
        None => None,
    }
}

/// The axis of the nearest of a gizmo's three handles that a ray hits. The
/// probes are those of the X, Y and Z handles: of the arrows for translation,
/// of the rings for rotation.
pub fn pick_gizmo(x: Option<Probe>, y: Option<Probe>, z: Option<Probe>) -> (r: Option<GizmoAxis>)
    ensures
        r == match nearest_hit(seq![handle_hit(x), handle_hit(y), handle_hit(z)], 3) {
            Some(k) => Some(axis_at(k as int)),
            None => None,
        },
{
    let hx: Option<Scalar> = match x {
        Some(p) => p.hit_at(),
        None => None,
    };
    let hy: Option<Scalar> = match y {
        Some(p) => p.hit_at(),
        None => None,
    };
    let hz: Option<Scalar> = match z {
        Some(p) => p.hit_at(),
        None => None,
    };
    let hits: Vec<Option<Scalar>> = vec![hx, hy, hz];
    assert(hits@ =~= seq![handle_hit(x), handle_hit(y), handle_hit(z)]);
    match find_nearest(&hits) {
        Some(k) => if k == 0 {
            Some(GizmoAxis::X)
        } else if k == 1 {
            Some(GizmoAxis::Y)
        } else {
            Some(GizmoAxis::Z)
        },
        None => None,
    }
}

/// What a ray picks: a point before anything else, then a spar or a line, then
/// a panel; of each the nearest, and a spar before a line that is equally near.
pub open spec fn picked(
    points: Seq<Option<Scalar>>,
    spars: Seq<Option<Scalar>>,
    bridles: Seq<Option<Scalar>>,
    panels: Seq<Option<Scalar>>,
) -> Selection {
    let lines = spars + bridles;
    if nearest_hit(points, points.len()) is Some {
        Selection::Point(nearest_hit(points, points.len())->0)
    } else if nearest_hit(lines, lines.len()) is Some {
        let k = nearest_hit(lines, lines.len())->0;
        if k < spars.len() {
            Selection::Spar(k)
        } else {
            Selection::Bridle((k - spars.len()) as usize)
        }
    } else if nearest_hit(panels, panels.len()) is Some {
        Selection::Panel(nearest_hit(panels, panels.len())->0)
    } else {
        Selection::Nothing
    }
}

/// What a ray picks in the document: points first, then spars and lines, then
/// panels. For a panel it is measured only where along the ray it is hit.
pub fn pick(
    points: &Vec<Probe>,
    spars: &Vec<Probe>,
    bridles: &Vec<Probe>,
    panels: &Vec<Option<Scalar>>,
) -> (r: Selection)
    ensures
        r == picked(hits_of(points@), hits_of(spars@), hits_of(bridles@), panels@),
        match r {
            Selection::Nothing => true,
            Selection::Point(i) => i < points@.len(),
            Selection::Spar(i) => i < spars@.len(),
            Selection::Bridle(i) => i < bridles@.len(),
            Selection::Panel(i) => i < panels@.len(),
        },
{
    match pick_point(points) {
        Some(i) => {
            return Selection::Point(i);
        },
        None => {},
    }
    let mut lines: Vec<Option<Scalar>> = collect_hits(spars);
    let mut more: Vec<Option<Scalar>> = collect_hits(bridles);
    lines.append(&mut more);
    assert(lines@ =~= hits_of(spars@) + hits_of(bridles@));
    match find_nearest(&lines) {
        Some(k) => {
            if k < spars.len() {
                return Selection::Spar(k);
            } else {
                return Selection::Bridle(k - spars.len());
            }
        },
        None => {},
    }
    match find_nearest(panels) {
        Some(i) => Selection::Panel(i),
        None => Selection::Nothing,
    }
}

/// The points that a selected element moves.
pub open spec fn moves(doc: EditorDoc, s: Selection, i: usize) -> bool {
    match s {
        Selection::Nothing => false,
        Selection::Point(p) => p == i,
        Selection::Spar(k) => k < doc.spars@.len() && (doc.spars@[k as int].a == i
            || doc.spars@[k as int].b == i),
        Selection::Panel(k) => k < doc.panels@.len() && (doc.panels@[k as int].a == i
            || doc.panels@[k as int].b == i || doc.panels@[k as int].c == i),
        Selection::Bridle(k) => k < doc.bridles@.len() && (doc.bridles@[k as int].a == i
            || doc.bridles@[k as int].b == i),
    }
}

/// Ascending, without duplicates.
pub open spec fn ascending(s: Seq<usize>) -> bool {
    forall|a: int, b: int| #![trigger s[a], s[b]] 0 <= a < b < s.len() ==> s[a] < s[b]
}

/// Puts a number into an ascending list at its place, unless it is there.
fn insert_ascending(list: &mut Vec<usize>, x: usize)
    requires
        ascending(old(list)@),
    ensures
        ascending(final(list)@),
        forall|i: usize| #[trigger] final(list)@.contains(i) <==> old(list)@.contains(i) || i == x,
{
    let ghost before = list@;
    let mut at: usize = 0;
    while at < list.len() && list[at] < x
        invariant
            at <= list@.len(),
            list@ == before,
            forall|k: int| 0 <= k < at ==> #[trigger] list@[k] < x,
        decreases list@.len() - at,
    {
        at += 1;
    }
    if at < list.len() && list[at] == x {
        assert(before[at as int] == x);
        return;
    }
    list.insert(at, x);
    proof {
        let after = list@;
        assert forall|k: int| at <= k < before.len() implies x < #[trigger] before[k] by {
            if k > at {
                assert(before[at as int] < before[k]);
            }
        }
        assert forall|a: int, b: int|
            #![trigger after[a], after[b]]
            0 <= a < b < after.len() implies after[a] < after[b] by {
            let a0: int = if a < at { a } else { a - 1 };
            let b0: int = if b < at { b } else { b - 1 };
            if a == at {
                assert(after[b] == before[b0]);
            } else if b == at {
                assert(after[a] == before[a0]);
            } else {
                assert(after[a] == before[a0] && after[b] == before[b0]);
            }
        }
        assert forall|i: usize| #[trigger] after.contains(i) <==> before.contains(i) || i == x by {
            if after.contains(i) {
                let a = choose|a: int| 0 <= a < after.len() && after[a] == i;
                let a0: int = if a < at { a } else { a - 1 };
                if a != at {
                    assert(before[a0] == i);
                }
            }
            if before.contains(i) {
                let a0 = choose|a: int| 0 <= a < before.len() && before[a] == i;
                let a: int = if a0 < at { a0 } else { a0 + 1 };
                assert(after[a] == i);
            }
            assert(after[at as int] == x);
        }
    }
}

/// Some of the first `n` selected elements moves the point.
pub open spec fn moved_by(doc: EditorDoc, sels: Seq<Selection>, n: int, i: usize) -> bool {
    exists|k: int| 0 <= k < n && moves(doc, #[trigger] sels[k], i)
}

/// The points that the gizmo translates, ascending: the selected points, and
/// the ends and corners of the selected spars, panels and lines.
pub fn gizmo_points(doc: &EditorDoc, sels: &[Selection]) -> (r: Vec<usize>)
    ensures
        ascending(r@),
        forall|i: usize| #[trigger] r@.contains(i) <==> moved_by(*doc, sels@, sels@.len() as int, i),
{
    let mut out: Vec<usize> = Vec::new();
    let mut k: usize = 0;
    while k < sels.len()
        invariant
            k <= sels@.len(),
            ascending(out@),
            forall|i: usize| #[trigger] out@.contains(i) <==> moved_by(*doc, sels@, k as int, i),
        decreases sels@.len() - k,
    {
        let ghost before = out@;
        let s: Selection = sels[k];
        match s {
            Selection::Nothing => {},
            Selection::Point(p) => {
                insert_ascending(&mut out, p);
            },
            Selection::Spar(j) => {
                if j < doc.spars.len() {
                    insert_ascending(&mut out, doc.spars[j].a);
                    insert_ascending(&mut out, doc.spars[j].b);
                }
            },
            Selection::Panel(j) => {
                if j < doc.panels.len() {
                    insert_ascending(&mut out, doc.panels[j].a);
                    insert_ascending(&mut out, doc.panels[j].b);
                    insert_ascending(&mut out, doc.panels[j].c);
                }
            },
            Selection::Bridle(j) => {
                if j < doc.bridles.len() {
                    insert_ascending(&mut out, doc.bridles[j].a);
                    insert_ascending(&mut out, doc.bridles[j].b);
                }
            },
        }
        proof {
            assert forall|i: usize| #[trigger]
                out@.contains(i) <==> moved_by(*doc, sels@, k as int + 1, i) by {
                assert(out@.contains(i) <==> before.contains(i) || moves(*doc, s, i));
                if moved_by(*doc, sels@, k as int, i) {
                    let m = choose|m: int| 0 <= m < k && moves(*doc, #[trigger] sels@[m], i);
                    assert(moves(*doc, sels@[m], i));
                }
                if moves(*doc, s, i) {
                    assert(moves(*doc, sels@[k as int], i));
                }
                if moved_by(*doc, sels@, k as int + 1, i) {
                    let m = choose|m: int| 0 <= m < k + 1 && moves(*doc, #[trigger] sels@[m], i);
                    if m < k {
                        assert(moved_by(*doc, sels@, k as int, i));
                    }
                }
            }
        }
        k += 1;
    }
    out
}

/// An inner node of a line: the `node`-th of its `segments` joints, counted
/// from the line's first end.
#[derive(Clone, Copy, Debug, PartialEq, Eq, Structural)]
pub struct LineNode {
    pub bridle: usize,
    pub node: usize,
    pub segments: usize,
}

/// The inner nodes of one line.
pub open spec fn nodes_of_line(bridles: Seq<BridleItem>, b: int) -> Seq<LineNode> {
    let n = bridles[b].num_segments;
    Seq::new(
        (if n < 2 {
            0
        } else {
            n - 1
        }) as nat,
        |k: int| LineNode { bridle: b as usize, node: (k + 1) as usize, segments: n },
    )
}

/// The inner nodes of the first `m` lines.
pub open spec fn line_nodes(bridles: Seq<BridleItem>, m: nat) -> Seq<LineNode>
    decreases m,
{
    if m == 0 {
        Seq::empty()
    } else {
        line_nodes(bridles, (m - 1) as nat) + nodes_of_line(bridles, m - 1)
    }
}

/// The inner nodes of all lines; a line of one segment has none.
#[verifier::loop_isolation(false)]
pub fn bridle_nodes(doc: &EditorDoc) -> (r: Vec<LineNode>)
    ensures
        r@ == line_nodes(doc.bridles@, doc.bridles@.len()),
{
    let mut out: Vec<LineNode> = Vec::new();
    let mut b: usize = 0;
    while b < doc.bridles.len()
        invariant
            b <= doc.bridles@.len(),
            out@ == line_nodes(doc.bridles@, b as nat),
        decreases doc.bridles@.len() - b,
    {
        let n: usize = doc.bridles[b].num_segments;
        let ghost before = out@;
        let ghost row = nodes_of_line(doc.bridles@, b as int);
        assert(before + row.take(0) =~= before);
        if n >= 2 {
            let mut k: usize = 1;
            while k < n
                invariant
                    1 <= k <= n,
                    out@ == before + row.take(k - 1),
                decreases n - k,
            {
                out.push(LineNode { bridle: b, node: k, segments: n });
                assert(out@ =~= before + row.take(k as int));
                k += 1;
            }
            assert(row.take(n - 1) =~= row);
        } else {
            assert(row =~= row.take(0));
        }
        b += 1;
    }
    out
}

/// The nearest of the lines' inner nodes that a ray hits; the probes are those
/// of the nodes in their order.
pub fn pick_bridle_node(doc: &EditorDoc, probes: &Vec<Probe>) -> (r: Option<LineNode>)
    requires
        probes@.len() == line_nodes(doc.bridles@, doc.bridles@.len()).len(),
    ensures
        r == match nearest_hit(hits_of(probes@), probes@.len()) {
            Some(i) => Some(line_nodes(doc.bridles@, doc.bridles@.len())[i as int]),
            None => None,
        },
{
    let nodes: Vec<LineNode> = bridle_nodes(doc);
    match pick_point(probes) {
        Some(i) => Some(nodes[i]),
        None => None,
    }
}

/// The points whose screen projection falls into a selection box: `inside`
/// tells for each point whether it does.
pub open spec fn marked(inside: Seq<bool>, n: nat) -> Seq<usize>
    decreases n,
{
    if n == 0 {
        Seq::empty()
    } else if inside[n - 1] {
        marked(inside, (n - 1) as nat).push((n - 1) as usize)
    } else {
        marked(inside, (n - 1) as nat)
    }
}

/// The points that a selection box holds, in ascending order.
pub fn points_in_rect(inside: &Vec<bool>) -> (r: Vec<usize>)
    ensures
        r@ == marked(inside@, inside@.len()),
{
    let mut out: Vec<usize> = Vec::new();
    let mut k: usize = 0;
    while k < inside.len()
        invariant
            k <= inside@.len(),
            out@ == marked(inside@, k as nat),
        decreases inside@.len() - k,
    {
        if inside[k] {
            out.push(k);
        }
        k += 1;
    }
    out
}

/// `s` without the elements at the places of `gone`, an ascending list: the
/// last of them goes first.
pub open spec fn without<T>(s: Seq<T>, gone: Seq<usize>) -> Seq<T>
    decreases gone.len(),
{
    if gone.len() == 0 {
        s
    } else {
        without(s.remove(gone.last() as int), gone.drop_last())
    }
}

/// The two documents hold the same points and elements.
pub open spec fn same_elements(a: EditorDoc, b: EditorDoc) -> bool {
    &&& a.points@ == b.points@
    &&& a.spars@ == b.spars@
    &&& a.panels@ == b.panels@
    &&& a.bridles@ == b.bridles@
    &&& a.junction == b.junction
    &&& a.pinned@ == b.pinned@
    &&& a.stiff_joints@ == b.stiff_joints@
    &&& a.lashings@ == b.lashings@
    &&& a.name == b.name
    &&& a.gravity == b.gravity
    &&& a.duration == b.duration
    &&& a.wind == b.wind
    &&& a.sim == b.sim
    &&& a.junction_pinned == b.junction_pinned
}

/// `after` is `before` with the points of `gone`, an ascending list, deleted:
/// the last of them first.
pub open spec fn points_deleted(before: EditorDoc, after: EditorDoc, gone: Seq<usize>) -> bool
    decreases gone.len(),
{
    if gone.len() == 0 {
        same_elements(before, after)
    } else {
        exists|mid: EditorDoc| #[trigger]
            point_deleted(before, mid, gone.last()) && points_deleted(mid, after, gone.drop_last())
    }
}

/// A kind of element that can be selected.
#[derive(Clone, Copy, Debug, PartialEq, Eq, Structural)]
pub enum Kind {
    Point,
    Spar,
    Panel,
    Bridle,
}

impl Kind {
    /// Element `i` of this kind.
    pub open spec fn of(self, i: usize) -> Selection {
        match self {
            Kind::Point => Selection::Point(i),
            Kind::Spar => Selection::Spar(i),
            Kind::Panel => Selection::Panel(i),
            Kind::Bridle => Selection::Bridle(i),
        }
    }

    /// The index of a selected element, if it is of this kind.
    fn index(self, s: Selection) -> (r: Option<usize>)
        ensures
            forall|i: usize| (r == Some(i)) == (s == #[trigger] self.of(i)),
    {
        match (self, s) {
            (Kind::Point, Selection::Point(i)) => Some(i),
            (Kind::Spar, Selection::Spar(i)) => Some(i),
            (Kind::Panel, Selection::Panel(i)) => Some(i),
            (Kind::Bridle, Selection::Bridle(i)) => Some(i),
            _ => None,
        }
    }
}

/// The list has, in ascending order, the indices of one kind of element among
/// the selected.
pub open spec fn lists_kind(list: Seq<usize>, sels: Seq<Selection>, kind: Kind) -> bool {
    &&& ascending(list)
    &&& forall|i: usize| #[trigger] list.contains(i) <==> sels.contains(kind.of(i))
}

/// `after` is `before` without the selected elements: first the spars, panels
/// and lines, then the points with all that depends on them.
pub open spec fn selected_deleted(
    before: EditorDoc,
    after: EditorDoc,
    sels: Seq<Selection>,
    spars: Seq<usize>,
    panels: Seq<usize>,
    bridles: Seq<usize>,
    points: Seq<usize>,
) -> bool {
    &&& lists_kind(spars, sels, Kind::Spar)
    &&& lists_kind(panels, sels, Kind::Panel)
    &&& lists_kind(bridles, sels, Kind::Bridle)
    &&& lists_kind(points, sels, Kind::Point)
    &&& exists|mid: EditorDoc|
        {
            &&& mid.spars@ == without(before.spars@, spars)
            &&& mid.panels@ == without(before.panels@, panels)
            &&& mid.bridles@ == without(before.bridles@, bridles)
            &&& mid == (EditorDoc {
                spars: mid.spars,
                panels: mid.panels,
                bridles: mid.bridles,
                ..before
            })
            &&& #[trigger] points_deleted(mid, after, points)
        }
}

/// Every selected element exists.
pub open spec fn selects_existing(doc: EditorDoc, sels: Seq<Selection>) -> bool {
    forall|k: int|
        0 <= k < sels.len() ==> match #[trigger] sels[k] {
            Selection::Nothing => true,
            Selection::Point(i) => i < doc.points@.len(),
            Selection::Spar(i) => i < doc.spars@.len(),
            Selection::Panel(i) => i < doc.panels@.len(),
            Selection::Bridle(i) => i < doc.bridles@.len(),
        }
}

/// Taking elements out at the places of an ascending list removes one for each.
pub proof fn without_len<T>(s: Seq<T>, gone: Seq<usize>)
    requires
        ascending(gone),
        forall|k: int| 0 <= k < gone.len() ==> (#[trigger] gone[k]) < s.len(),
    ensures
        without(s, gone).len() == s.len() - gone.len(),
    decreases gone.len(),
{
    if gone.len() > 0 {
        let rest = gone.drop_last();
        let n = gone.len() - 1;
        assert forall|k: int| 0 <= k < rest.len() implies (#[trigger] rest[k]) < s.len() - 1 by {
            assert(gone[k] < gone[n]);
        }
        assert(ascending(rest)) by {
            assert forall|a: int, b: int|
                #![trigger rest[a], rest[b]]
                0 <= a < b < rest.len() implies rest[a] < rest[b] by {
                assert(gone[a] < gone[b]);
            }
        }
        assert(gone[n] < s.len());
        without_len(s.remove(gone.last() as int), rest);
    }
}

/// An element whose place is not in the list is still there, before the ones
/// that came after it.
pub proof fn without_keeps_others<T>(s: Seq<T>, gone: Seq<usize>, i: int)
    requires
        ascending(gone),
        forall|k: int| 0 <= k < gone.len() ==> (#[trigger] gone[k]) < s.len(),
        0 <= i < s.len() <= usize::MAX,
        !gone.contains(i as usize),
    ensures
        without(s, gone).contains(s[i]),
    decreases gone.len(),
{
    if gone.len() == 0 {
        assert(s[i] == s[i]);
    } else {
        let rest = gone.drop_last();
        let n = gone.len() - 1;
        let x = gone.last() as int;
        assert(gone[n] == x);
        assert(i != x);
        let t = s.remove(x);
        assert forall|k: int| 0 <= k < rest.len() implies (#[trigger] rest[k]) < t.len() by {
            assert(gone[k] < gone[n]);
        }
        assert(ascending(rest)) by {
            assert forall|a: int, b: int|
                #![trigger rest[a], rest[b]]
                0 <= a < b < rest.len() implies rest[a] < rest[b] by {
                assert(gone[a] < gone[b]);
            }
        }
        let j: int = if i < x { i } else { i - 1 };
        assert(t[j] == s[i]);
        assert(!rest.contains(j as usize)) by {
            if rest.contains(j as usize) {
                let k = choose|k: int| 0 <= k < rest.len() && rest[k] == j as usize;
                assert(gone[k] < gone[n]);
                assert(gone[k] == j);
                if i < x {
                    assert(gone.contains(i as usize));
                }
            }
        }
        without_keeps_others(t, rest, j);
    }
}

/// The indices of one kind of element among the selected, ascending.
fn selected(sels: &[Selection], kind: Kind) -> (r: Vec<usize>)
    ensures
        lists_kind(r@, sels@, kind),
{
    let mut out: Vec<usize> = Vec::new();
    let mut k: usize = 0;
    while k < sels.len()
        invariant
            k <= sels@.len(),
            ascending(out@),
            forall|i: usize| #[trigger]
                out@.contains(i) <==> exists|m: int| 0 <= m < k && #[trigger] sels@[m] == kind.of(i),
        decreases sels@.len() - k,
    {
        let ghost before = out@;
        match kind.index(sels[k]) {
            Some(i) => {
                insert_ascending(&mut out, i);
            },
            None => {},
        }
        proof {
            assert forall|i: usize| #[trigger] out@.contains(i) <==> exists|m: int|
                0 <= m < k + 1 && #[trigger] sels@[m] == kind.of(i) by {
                if before.contains(i) {
                    let m = choose|m: int| 0 <= m < k && #[trigger] sels@[m] == kind.of(i);
                    assert(sels@[m] == kind.of(i));
                }
                if sels@[k as int] == kind.of(i) {
                    assert(out@.contains(i));
                }
            }
        }
        k += 1;
    }
    out
}

/// Deletes every selected element: spars, panels and lines first, then points
/// with all that depends on them, each kind from the highest index down, so
/// that no index goes stale.
#[verifier::loop_isolation(false)]
pub fn delete_selected(doc: &mut EditorDoc, sels: &[Selection])
    requires
        selects_existing(*old(doc), sels@),
    ensures
        exists|spars: Seq<usize>, panels: Seq<usize>, bridles: Seq<usize>, points: Seq<usize>|
            #[trigger] selected_deleted(
                *old(doc),
                *final(doc),
                sels@,
                spars,
                panels,
                bridles,
                points,
            ),
        selection_gone(*old(doc), *final(doc), sels@),
        old(doc).wf() ==> final(doc).wf(),
{
    let ghost before = *doc;
    let mut spars: Vec<usize> = selected(sels, Kind::Spar);
    let mut panels: Vec<usize> = selected(sels, Kind::Panel);
    let mut bridles: Vec<usize> = selected(sels, Kind::Bridle);
    let points: Vec<usize> = selected(sels, Kind::Point);
    let ghost all_spars = spars@;
    let ghost all_panels = panels@;
    let ghost all_bridles = bridles@;
    let ghost all_points = points@;
    proof {
        kind_is_within(before, sels@, all_spars, all_panels, all_bridles, all_points);
    }
    while spars.len() > 0
        invariant
            ascending(spars@),
            forall|k: int| 0 <= k < spars@.len() ==> (#[trigger] spars@[k]) < doc.spars@.len(),
            without(doc.spars@, spars@) == without(before.spars@, all_spars),
            *doc == (EditorDoc { spars: doc.spars, ..before }),
            before.wf() ==> doc.wf(),
        decreases spars@.len(),
    {
        let ghost list = spars@;
        let ghost prev = *doc;
        let i: usize = spars[spars.len() - 1];
        spars.pop();
        doc.delete_spar(i);
        proof {
            drop_last_below(list);
            assert(spars@ =~= list.drop_last());
            if before.wf() {
                assert forall|k: int| 0 <= k < doc.spars@.len() implies (
                #[trigger] doc.spars@[k]).a < before.points@.len() && doc.spars@[k].b
                    < before.points@.len() by {
                    let j: int = if k < i { k } else { k + 1 };
                    assert(doc.spars@[k] == prev.spars@[j]);
                }
            }
        }
    }
    while panels.len() > 0
        invariant
            ascending(panels@),
            forall|k: int| 0 <= k < panels@.len() ==> (#[trigger] panels@[k]) < doc.panels@.len(),
            doc.spars@ == without(before.spars@, all_spars),
            without(doc.panels@, panels@) == without(before.panels@, all_panels),
            *doc == (EditorDoc { spars: doc.spars, panels: doc.panels, ..before }),
            before.wf() ==> doc.wf(),
        decreases panels@.len(),
    {
        let ghost list = panels@;
        let ghost prev = *doc;
        let i: usize = panels[panels.len() - 1];
        panels.pop();
        doc.delete_panel(i);
        proof {
            drop_last_below(list);
            assert(panels@ =~= list.drop_last());
            if before.wf() {
                assert forall|k: int| 0 <= k < doc.panels@.len() implies (
                #[trigger] doc.panels@[k]).a < before.points@.len() && doc.panels@[k].b
                    < before.points@.len() && doc.panels@[k].c < before.points@.len() by {
                    let j: int = if k < i { k } else { k + 1 };
                    assert(doc.panels@[k] == prev.panels@[j]);
                }
            }
        }
    }
    while bridles.len() > 0
        invariant
            ascending(bridles@),
            forall|k: int| 0 <= k < bridles@.len() ==> (#[trigger] bridles@[k]) < doc.bridles@.len(),
            doc.spars@ == without(before.spars@, all_spars),
            doc.panels@ == without(before.panels@, all_panels),
            without(doc.bridles@, bridles@) == without(before.bridles@, all_bridles),
            *doc == (EditorDoc {
                spars: doc.spars,
                panels: doc.panels,
                bridles: doc.bridles,
                ..before
            }),
            before.wf() ==> doc.wf(),
        decreases bridles@.len(),
    {
        let ghost list = bridles@;
        let ghost prev = *doc;
        let i: usize = bridles[bridles.len() - 1];
        bridles.pop();
        doc.delete_bridle(i);
        proof {
            drop_last_below(list);
            assert(bridles@ =~= list.drop_last());
            if before.wf() {
                assert forall|k: int| 0 <= k < doc.bridles@.len() implies (
                #[trigger] doc.bridles@[k]).a < before.points@.len() && doc.bridles@[k].b
                    < before.points@.len() by {
                    let j: int = if k < i { k } else { k + 1 };
                    assert(doc.bridles@[k] == prev.bridles@[j]);
                }
            }
        }
    }
    let ghost mid = *doc;
    delete_points(doc, points);
    proof {
        assert(points_deleted(mid, *doc, all_points));
        assert(selected_deleted(
            before,
            *doc,
            sels@,
            all_spars,
            all_panels,
            all_bridles,
            all_points,
        ));
        deletion_leaves_the_rest(
            before,
            *doc,
            sels@,
            all_spars,
            all_panels,
            all_bridles,
            all_points,
        );
    }
}

/// Deletes the points of an ascending list, the last first.
fn delete_points(doc: &mut EditorDoc, gone: Vec<usize>)
    requires
        ascending(gone@),
        forall|k: int| 0 <= k < gone@.len() ==> (#[trigger] gone@[k]) < old(doc).points@.len(),
    ensures
        points_deleted(*old(doc), *final(doc), gone@),
        old(doc).wf() ==> final(doc).wf(),
    decreases gone@.len(),
{
    let mut rest: Vec<usize> = gone;
    if rest.len() > 0 {
        let ghost before = *doc;
        let ghost list = rest@;
        let i: usize = rest[rest.len() - 1];
        rest.pop();
        doc.delete_point(i);
        let ghost mid = *doc;
        proof {
            drop_last_below(list);
            assert(rest@ =~= list.drop_last());
        }
        delete_points(doc, rest);
        proof {
            assert(point_deleted(before, mid, list.last()));
        }
    }
}

/// Without its last member an ascending list is ascending, and below it.
pub proof fn drop_last_below(list: Seq<usize>)
    requires
        ascending(list),
        list.len() > 0,
    ensures
        ascending(list.drop_last()),
        forall|k: int| 0 <= k < list.len() - 1 ==> (#[trigger] list.drop_last()[k]) < list.last(),
{
    let rest = list.drop_last();
    let n = list.len() - 1;
    assert forall|a: int, b: int|
        #![trigger rest[a], rest[b]]
        0 <= a < b < rest.len() implies rest[a] < rest[b] by {
        assert(list[a] < list[b]);
    }
    assert forall|k: int| 0 <= k < n implies (#[trigger] rest[k]) < list.last() by {
        assert(list[k] < list[n]);
    }
}

/// The selected elements exist.
pub proof fn kind_is_within(
    doc: EditorDoc,
    sels: Seq<Selection>,
    spars: Seq<usize>,
    panels: Seq<usize>,
    bridles: Seq<usize>,
    points: Seq<usize>,
)
    requires
        selects_existing(doc, sels),
        lists_kind(spars, sels, Kind::Spar),
        lists_kind(panels, sels, Kind::Panel),
        lists_kind(bridles, sels, Kind::Bridle),
        lists_kind(points, sels, Kind::Point),
    ensures
        forall|k: int| 0 <= k < spars.len() ==> (#[trigger] spars[k]) < doc.spars@.len(),
        forall|k: int| 0 <= k < panels.len() ==> (#[trigger] panels[k]) < doc.panels@.len(),
        forall|k: int| 0 <= k < bridles.len() ==> (#[trigger] bridles[k]) < doc.bridles@.len(),
        forall|k: int| 0 <= k < points.len() ==> (#[trigger] points[k]) < doc.points@.len(),
{
    assert forall|k: int| 0 <= k < spars.len() implies (#[trigger] spars[k]) < doc.spars@.len() by {
        assert(spars.contains(spars[k]));
        assert(sels.contains(Kind::Spar.of(spars[k])));
        let m = choose|m: int| 0 <= m < sels.len() && sels[m] == Selection::Spar(spars[k]);
        assert(sels[m] == Selection::Spar(spars[k]));
    }
    assert forall|k: int| 0 <= k < panels.len() implies (#[trigger] panels[k])
        < doc.panels@.len() by {
        assert(panels.contains(panels[k]));
        assert(sels.contains(Kind::Panel.of(panels[k])));
        let m = choose|m: int| 0 <= m < sels.len() && sels[m] == Selection::Panel(panels[k]);
        assert(sels[m] == Selection::Panel(panels[k]));
    }
    assert forall|k: int| 0 <= k < bridles.len() implies (#[trigger] bridles[k])
        < doc.bridles@.len() by {
        assert(bridles.contains(bridles[k]));
        assert(sels.contains(Kind::Bridle.of(bridles[k])));
        let m = choose|m: int| 0 <= m < sels.len() && sels[m] == Selection::Bridle(bridles[k]);
        assert(sels[m] == Selection::Bridle(bridles[k]));
    }
    assert forall|k: int| 0 <= k < points.len() implies (#[trigger] points[k])
        < doc.points@.len() by {
        assert(points.contains(points[k]));
        assert(sels.contains(Kind::Point.of(points[k])));
        let m = choose|m: int| 0 <= m < sels.len() && sels[m] == Selection::Point(points[k]);
        assert(sels[m] == Selection::Point(points[k]));
    }
}

} // verus!
