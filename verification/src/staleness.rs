//! Telling whether a document's structure has changed since a world was built
//! from it.
//!
//! The structure is what the world is built from: points, spars, panels,
//! lines, joints, lashings, the junction and the pins. It is written as a list
//! of words, which is hashed. Names, the duration and the like are left out:
//! the running world does not use them.
use crate::doc::{
    BridleItem, EditorDoc, LashingItem, PanelItem, SparItem, StiffJointItem,
};
use crate::pins::{ascending_members, sorted_members};
use crate::scalar::Vec3;
use std::collections::hash_map::DefaultHasher;
use std::hash::Hasher;
use vstd::prelude::*;
use vstd::std_specs::hash::DefaultHasherAdditionalSpecFns;

verus! {

pub open spec fn point_words(p: Vec3) -> Seq<u64> {
    seq![p.x.bits, p.y.bits, p.z.bits]
}

pub open spec fn spar_words(s: SparItem) -> Seq<u64> {
    seq![
        s.a as u64,
        s.b as u64,
        s.num_segments as u64,
        s.radius.bits,
        s.youngs_modulus.bits,
        s.shear_modulus.bits,
        s.density.bits,
    ]
}

pub open spec fn panel_words(p: PanelItem) -> Seq<u64> {
    seq![
        p.a as u64,
        p.b as u64,
        p.c as u64,
        p.warp_compliance.bits,
        p.weft_compliance.bits,
        p.shear_compliance.bits,
        p.bending_compliance.bits,
        p.subdivisions as u64,
        p.areal_density.bits,
    ]
}

pub open spec fn bridle_words(b: BridleItem) -> Seq<u64> {
    seq![
        b.a as u64,
        b.b as u64,
        b.rest_length.bits,
        b.compliance.bits,
        b.diameter.bits,
        b.num_segments as u64,
        b.density.bits,
    ]
}

pub open spec fn stiff_words(j: StiffJointItem) -> Seq<u64> {
    seq![j.point as u64, j.compliance.bits]
}

pub open spec fn lashing_words(l: LashingItem) -> Seq<u64> {
    seq![l.point as u64, l.compliance.bits]
}

pub open spec fn index_words(i: usize) -> Seq<u64> {
    seq![i as u64]
}

/// The words of the first `n` items of a list.
pub open spec fn list_words<T>(items: Seq<T>, row: spec_fn(T) -> Seq<u64>, n: nat) -> Seq<u64>
    decreases n,
{
    if n == 0 {
        Seq::empty()
    } else {
        list_words(items, row, (n - 1) as nat) + row(items[n - 1])
    }
}

/// The words of a list.
pub open spec fn all_words<T>(items: Seq<T>, row: spec_fn(T) -> Seq<u64>) -> Seq<u64> {
    list_words(items, row, items.len())
}

pub open spec fn option_words(i: Option<usize>) -> Seq<u64> {
    match i {
        Some(v) => seq![1u64, v as u64],
        None => seq![0u64],
    }
}

pub open spec fn flag_words(b: bool) -> Seq<u64> {
    seq![if b { 1u64 } else { 0u64 }]
}

/// The words of a document's structure; `pins` lists the pinned points.
pub open spec fn structural_words(doc: EditorDoc, pins: Seq<usize>) -> Seq<u64> {
    all_words(doc.points@, |p: Vec3| point_words(p)) + (all_words(
        doc.spars@,
        |s: SparItem| spar_words(s),
    ) + (all_words(doc.panels@, |p: PanelItem| panel_words(p)) + (all_words(
        doc.bridles@,
        |b: BridleItem| bridle_words(b),
    ) + (all_words(doc.stiff_joints@, |j: StiffJointItem| stiff_words(j)) + (all_words(
        doc.lashings@,
        |l: LashingItem| lashing_words(l),
    ) + (option_words(doc.junction) + (flag_words(doc.junction_pinned) + (index_words(
        pins.len() as usize,
    ) + all_words(pins, |i: usize| index_words(i))))))))))
}

/// The pinned points in ascending order.
pub open spec fn pin_list(doc: EditorDoc) -> Seq<usize> {
    choose|pins: Seq<usize>| ascending_members(doc.pinned@, pins)
}

/// What is hashed: each word as eight bytes.
pub open spec fn written(words: Seq<u64>) -> Seq<Seq<u8>> {
    words.map_values(|w: u64| vstd::bytes::spec_u64_to_le_bytes(w))
}

/// The hash of a document's structure.
pub open spec fn structure_hash(doc: EditorDoc) -> u64 {
    DefaultHasher::spec_finish(written(structural_words(doc, pin_list(doc))))
}

/// A set has one ascending list.
proof fn ascending_is_unique(set: Set<usize>, a: Seq<usize>, b: Seq<usize>, k: nat)
    requires
        ascending_members(set, a),
        ascending_members(set, b),
        k <= a.len(),
    ensures
        k <= b.len(),
        a.take(k as int) == b.take(k as int),
    decreases k,
{
    if k > 0 {
        let m = k - 1;
        ascending_is_unique(set, a, b, m as nat);
        assert(forall|j: int| 0 <= j < m ==> a[j] == b[j]) by {
            assert forall|j: int| 0 <= j < m implies a[j] == b[j] by {
                assert(a.take(m)[j] == b.take(m)[j]);
            }
        }
        assert(a.contains(a[m]));
        assert(b.contains(a[m]));
        let i = choose|i: int| 0 <= i < b.len() && b[i] == a[m];
        if i < m {
            assert(a[i] < a[m]);
        }
        assert(m < b.len());
        assert(b.contains(b[m]));
        assert(a.contains(b[m]));
        let j = choose|j: int| 0 <= j < a.len() && a[j] == b[m];
        if j < m {
            assert(b[j] < b[m]);
        }
        if i > m {
            assert(b[m] < b[i]);
        }
        if j > m {
            assert(a[m] < a[j]);
        }
        assert(a[m] == b[m]);
        assert(a.take(k as int) =~= a.take(m).push(a[m]));
        assert(b.take(k as int) =~= b.take(m).push(b[m]));
    }
}

proof fn pin_list_is(doc: EditorDoc, pins: Seq<usize>)
    requires
        ascending_members(doc.pinned@, pins),
    ensures
        pin_list(doc) == pins,
        ascending_members(doc.pinned@, pin_list(doc)),
{
    let other = pin_list(doc);
    ascending_is_unique(doc.pinned@, pins, other, pins.len());
    ascending_is_unique(doc.pinned@, other, pins, other.len());
    assert(pins.take(pins.len() as int) =~= pins);
    assert(other.take(other.len() as int) =~= other);
}

fn push_words(out: &mut Vec<u64>, row: &[u64])
    ensures
        final(out)@ == old(out)@ + row@,
{
    let ghost before = out@;
    let mut k: usize = 0;
    while k < row.len()
        invariant
            k <= row@.len(),
            out@ == before + row@.take(k as int),
        decreases row@.len() - k,
    {
        out.push(row[k]);
        assert(row@.take(k + 1) =~= row@.take(k as int).push(row@[k as int]));
        k += 1;
    }
    assert(row@.take(k as int) =~= row@);
}

fn push_spars(out: &mut Vec<u64>, items: &Vec<SparItem>)
    ensures
        final(out)@ == old(out)@ + all_words(items@, |s: SparItem| spar_words(s)),
{
    let ghost before = out@;
    let ghost row = |s: SparItem| spar_words(s);
    let mut k: usize = 0;
    while k < items.len()
        invariant
            k <= items@.len(),
            row == (|s: SparItem| spar_words(s)),
            out@ == before + list_words(items@, row, k as nat),
        decreases items@.len() - k,
    {
        let s: &SparItem = &items[k];
        push_words(
            out,
            &[
                s.a as u64,
                s.b as u64,
                s.num_segments as u64,
                s.radius.bits,
                s.youngs_modulus.bits,
                s.shear_modulus.bits,
                s.density.bits,
            ],
        );
        assert(out@ =~= before + list_words(items@, row, (k + 1) as nat));
        k += 1;
    }
}

fn push_panels(out: &mut Vec<u64>, items: &Vec<PanelItem>)
    ensures
        final(out)@ == old(out)@ + all_words(items@, |p: PanelItem| panel_words(p)),
{
    let ghost before = out@;
    let ghost row = |p: PanelItem| panel_words(p);
    let mut k: usize = 0;
    while k < items.len()
        invariant
            k <= items@.len(),
            row == (|p: PanelItem| panel_words(p)),
            out@ == before + list_words(items@, row, k as nat),
        decreases items@.len() - k,
    {
        let p: &PanelItem = &items[k];
        push_words(
            out,
            &[
                p.a as u64,
                p.b as u64,
                p.c as u64,
                p.warp_compliance.bits,
                p.weft_compliance.bits,
                p.shear_compliance.bits,
                p.bending_compliance.bits,
                p.subdivisions as u64,
                p.areal_density.bits,
            ],
        );
        assert(out@ =~= before + list_words(items@, row, (k + 1) as nat));
        k += 1;
    }
}

fn push_bridles(out: &mut Vec<u64>, items: &Vec<BridleItem>)
    ensures
        final(out)@ == old(out)@ + all_words(items@, |b: BridleItem| bridle_words(b)),
{
    let ghost before = out@;
    let ghost row = |b: BridleItem| bridle_words(b);
    let mut k: usize = 0;
    while k < items.len()
        invariant
            k <= items@.len(),
            row == (|b: BridleItem| bridle_words(b)),
            out@ == before + list_words(items@, row, k as nat),
        decreases items@.len() - k,
    {
        let b: &BridleItem = &items[k];
        push_words(
            out,
            &[
                b.a as u64,
                b.b as u64,
                b.rest_length.bits,
                b.compliance.bits,
                b.diameter.bits,
                b.num_segments as u64,
                b.density.bits,
            ],
        );
        assert(out@ =~= before + list_words(items@, row, (k + 1) as nat));
        k += 1;
    }
}

fn push_points(out: &mut Vec<u64>, items: &Vec<Vec3>)
    ensures
        final(out)@ == old(out)@ + all_words(items@, |p: Vec3| point_words(p)),
{
    let ghost before = out@;
    let ghost row = |p: Vec3| point_words(p);
    let mut k: usize = 0;
    while k < items.len()
        invariant
            k <= items@.len(),
            row == (|p: Vec3| point_words(p)),
            out@ == before + list_words(items@, row, k as nat),
        decreases items@.len() - k,
    {
        let p: Vec3 = items[k];
        push_words(out, &[p.x.bits, p.y.bits, p.z.bits]);
        assert(out@ =~= before + list_words(items@, row, (k + 1) as nat));
        k += 1;
    }
}

fn push_stiff(out: &mut Vec<u64>, items: &Vec<StiffJointItem>)
    ensures
        final(out)@ == old(out)@ + all_words(items@, |j: StiffJointItem| stiff_words(j)),
{
    let ghost before = out@;
    let ghost row = |j: StiffJointItem| stiff_words(j);
    let mut k: usize = 0;
    while k < items.len()
        invariant
            k <= items@.len(),
            row == (|j: StiffJointItem| stiff_words(j)),
            out@ == before + list_words(items@, row, k as nat),
        decreases items@.len() - k,
    {
        push_words(out, &[items[k].point as u64, items[k].compliance.bits]);
        assert(out@ =~= before + list_words(items@, row, (k + 1) as nat));
        k += 1;
    }
}

fn push_lashings(out: &mut Vec<u64>, items: &Vec<LashingItem>)
    ensures
        final(out)@ == old(out)@ + all_words(items@, |l: LashingItem| lashing_words(l)),
{
    let ghost before = out@;
    let ghost row = |l: LashingItem| lashing_words(l);
    let mut k: usize = 0;
    while k < items.len()
        invariant
            k <= items@.len(),
            row == (|l: LashingItem| lashing_words(l)),
            out@ == before + list_words(items@, row, k as nat),
        decreases items@.len() - k,
    {
        push_words(out, &[items[k].point as u64, items[k].compliance.bits]);
        assert(out@ =~= before + list_words(items@, row, (k + 1) as nat));
        k += 1;
    }
}

fn push_indices(out: &mut Vec<u64>, items: &Vec<usize>)
    ensures
        final(out)@ == old(out)@ + all_words(items@, |i: usize| index_words(i)),
{
    let ghost before = out@;
    let ghost row = |i: usize| index_words(i);
    let mut k: usize = 0;
    while k < items.len()
        invariant
            k <= items@.len(),
            row == (|i: usize| index_words(i)),
            out@ == before + list_words(items@, row, k as nat),
        decreases items@.len() - k,
    {
        out.push(items[k] as u64);
        assert(out@ =~= before + list_words(items@, row, (k + 1) as nat));
        k += 1;
    }
}

proof fn regroup(x: Seq<u64>, y: Seq<u64>, z: Seq<u64>)
    ensures
        (x + y) + z == x + (y + z),
{
    assert((x + y) + z =~= x + (y + z));
}

/// The words of a document's structure.
fn collect_words(doc: &EditorDoc) -> (r: Vec<u64>)
    ensures
        r@ == structural_words(*doc, pin_list(*doc)),
{
    let mut out: Vec<u64> = Vec::new();
    push_points(&mut out, &doc.points);
    let ghost l1 = out@;
    push_spars(&mut out, &doc.spars);
    let ghost l2 = out@;
    push_panels(&mut out, &doc.panels);
    let ghost l3 = out@;
    push_bridles(&mut out, &doc.bridles);
    let ghost l4 = out@;
    push_stiff(&mut out, &doc.stiff_joints);
    let ghost l5 = out@;
    push_lashings(&mut out, &doc.lashings);
    let ghost l6 = out@;
    push_junction(&mut out, doc.junction);
    let ghost l7 = out@;
    let flag: u64 = if doc.junction_pinned {
        1
    } else {
        0
    };
    push_words(&mut out, &[flag]);
    let ghost l8 = out@;
    assert(l8 == l7 + flag_words(doc.junction_pinned));
    let pins: Vec<usize> = sorted_members(&doc.pinned);
    push_words(&mut out, &[pins.len() as u64]);
    let ghost l9 = out@;
    assert(l9 == l8 + index_words(pins@.len() as usize));
    push_indices(&mut out, &pins);
    proof {
        pin_list_is(*doc, pins@);
        let t9 = all_words(pins@, |i: usize| index_words(i));
        let w9 = index_words(pins@.len() as usize);
        regroup(l8, w9, t9);
        let t8 = w9 + t9;
        let w8 = flag_words(doc.junction_pinned);
        regroup(l7, w8, t8);
        let t7 = w8 + t8;
        let w7 = option_words(doc.junction);
        regroup(l6, w7, t7);
        let t6 = w7 + t7;
        let w6 = all_words(doc.lashings@, |l: LashingItem| lashing_words(l));
        regroup(l5, w6, t6);
        let t5 = w6 + t6;
        let w5 = all_words(doc.stiff_joints@, |j: StiffJointItem| stiff_words(j));
        regroup(l4, w5, t5);
        let t4 = w5 + t5;
        let w4 = all_words(doc.bridles@, |b: BridleItem| bridle_words(b));
        regroup(l3, w4, t4);
        let t3 = w4 + t4;
        let w3 = all_words(doc.panels@, |p: PanelItem| panel_words(p));
        regroup(l2, w3, t3);
        let t2 = w3 + t3;
        let w2 = all_words(doc.spars@, |s: SparItem| spar_words(s));
        regroup(l1, w2, t2);
        assert(l1 =~= all_words(doc.points@, |p: Vec3| point_words(p)));
    }
    out
}

fn push_junction(out: &mut Vec<u64>, junction: Option<usize>)
    ensures
        final(out)@ == old(out)@ + option_words(junction),
{
    match junction {
        Some(v) => {
            push_words(out, &[1, v as u64]);
        },
        None => {
            push_words(out, &[0]);
        },
    }
    assert(out@ =~= old(out)@ + option_words(junction));
}

/// Hashes exactly the fields that a world is built from, so that a change of
/// them can be told without keeping a copy of the document.
pub fn structural_hash(doc: &EditorDoc) -> (r: u64)
    ensures
        r == structure_hash(*doc),
{
    let words: Vec<u64> = collect_words(doc);
    let mut h: DefaultHasher = DefaultHasher::new();
    let mut k: usize = 0;
    while k < words.len()
        invariant
            k <= words@.len(),
            h@ == written(words@.take(k as int)),
        decreases words@.len() - k,
    {
        let bytes: Vec<u8> = vstd::bytes::u64_to_le_bytes(words[k]);
        h.write(bytes.as_slice());
        assert(h@ =~= written(words@.take(k + 1)));
        k += 1;
    }
    assert(words@.take(k as int) =~= words@);
    h.finish()
}

/// The same structure: all of two documents but names and settings.
pub open spec fn same_structure(a: EditorDoc, b: EditorDoc) -> bool {
    &&& a.points@ == b.points@
    &&& a.spars@.len() == b.spars@.len()
    &&& forall|k: int|
        0 <= k < a.spars@.len() ==> #[trigger] spar_words(a.spars@[k]) == spar_words(b.spars@[k])
    &&& a.panels@.len() == b.panels@.len()
    &&& forall|k: int|
        0 <= k < a.panels@.len() ==> #[trigger] panel_words(a.panels@[k]) == panel_words(
            b.panels@[k],
        )
    &&& a.bridles@.len() == b.bridles@.len()
    &&& forall|k: int|
        0 <= k < a.bridles@.len() ==> #[trigger] bridle_words(a.bridles@[k]) == bridle_words(
            b.bridles@[k],
        )
    &&& a.stiff_joints@ == b.stiff_joints@
    &&& a.lashings@ == b.lashings@
    &&& a.junction == b.junction
    &&& a.junction_pinned == b.junction_pinned
    &&& a.pinned@ == b.pinned@
}

proof fn same_rows_same_words<T>(a: Seq<T>, b: Seq<T>, row: spec_fn(T) -> Seq<u64>, n: nat)
    requires
        n <= a.len(),
        n <= b.len(),
        forall|k: int| 0 <= k < n ==> row(#[trigger] a[k]) == row(b[k]),
    ensures
        list_words(a, row, n) == list_words(b, row, n),
    decreases n,
{
    if n > 0 {
        same_rows_same_words(a, b, row, (n - 1) as nat);
        assert(row(a[n - 1]) == row(b[n - 1]));
    }
}

/// Documents that differ in names and settings alone have the same hash, so
/// that no such edit makes a world stale.
pub proof fn cosmetic_edits_keep_hash(a: EditorDoc, b: EditorDoc)
    requires
        same_structure(a, b),
    ensures
        structure_hash(a) == structure_hash(b),
{
    let spar = |s: SparItem| spar_words(s);
    assert forall|k: int| 0 <= k < a.spars@.len() implies spar(#[trigger] a.spars@[k]) == spar(
        b.spars@[k],
    ) by {
        assert(spar_words(a.spars@[k]) == spar_words(b.spars@[k]));
    }
    same_rows_same_words(a.spars@, b.spars@, spar, a.spars@.len());
    let panel = |p: PanelItem| panel_words(p);
    assert forall|k: int| 0 <= k < a.panels@.len() implies panel(#[trigger] a.panels@[k]) == panel(
        b.panels@[k],
    ) by {
        assert(panel_words(a.panels@[k]) == panel_words(b.panels@[k]));
    }
    same_rows_same_words(a.panels@, b.panels@, panel, a.panels@.len());
    let bridle = |l: BridleItem| bridle_words(l);
    assert forall|k: int| 0 <= k < a.bridles@.len() implies bridle(#[trigger] a.bridles@[k])
        == bridle(b.bridles@[k]) by {
        assert(bridle_words(a.bridles@[k]) == bridle_words(b.bridles@[k]));
    }
    same_rows_same_words(a.bridles@, b.bridles@, bridle, a.bridles@.len());
    assert(pin_list(a) == pin_list(b));
}

proof fn split_equal(a: Seq<u64>, a_rest: Seq<u64>, b: Seq<u64>, b_rest: Seq<u64>)
    requires
        a + a_rest == b + b_rest,
        a.len() == b.len(),
    ensures
        a == b,
        a_rest == b_rest,
{
    let n = a.len() as int;
    assert((a + a_rest).take(n) =~= a);
    assert((b + b_rest).take(n) =~= b);
    assert((a + a_rest).skip(n) =~= a_rest);
    assert((b + b_rest).skip(n) =~= b_rest);
}

proof fn same_len<T>(a: Seq<T>, b: Seq<T>, row: spec_fn(T) -> Seq<u64>, width: nat, n: nat)
    requires
        forall|t: T| (#[trigger] row(t)).len() == width,
    ensures
        list_words(a, row, n).len() == list_words(b, row, n).len(),
    decreases n,
{
    if n > 0 {
        same_len(a, b, row, width, (n - 1) as nat);
    }
}

proof fn same_words_same_rows<T>(
    a: Seq<T>,
    b: Seq<T>,
    row: spec_fn(T) -> Seq<u64>,
    width: nat,
    n: nat,
)
    requires
        n <= a.len(),
        n <= b.len(),
        forall|t: T| (#[trigger] row(t)).len() == width,
        list_words(a, row, n) == list_words(b, row, n),
    ensures
        forall|k: int| 0 <= k < n ==> row(#[trigger] a[k]) == row(b[k]),
    decreases n,
{
    if n > 0 {
        let m = (n - 1) as nat;
        same_len(a, b, row, width, m);
        split_equal(
            list_words(a, row, m),
            row(a[n - 1]),
            list_words(b, row, m),
            row(b[n - 1]),
        );
        same_words_same_rows(a, b, row, width, m);
    }
}

/// Of documents with as many points, spars, panels, lines, joints and lashings
/// each, equal words mean equal structure: every structural field is among the
/// words.
pub proof fn words_determine_structure(
    a: EditorDoc,
    b: EditorDoc,
    a_pins: Seq<usize>,
    b_pins: Seq<usize>,
)
    requires
        ascending_members(a.pinned@, a_pins),
        ascending_members(b.pinned@, b_pins),
        a_pins.len() <= usize::MAX,
        b_pins.len() <= usize::MAX,
        a.points@.len() == b.points@.len(),
        a.spars@.len() == b.spars@.len(),
        a.panels@.len() == b.panels@.len(),
        a.bridles@.len() == b.bridles@.len(),
        a.stiff_joints@.len() == b.stiff_joints@.len(),
        a.lashings@.len() == b.lashings@.len(),
        structural_words(a, a_pins) == structural_words(b, b_pins),
    ensures
        same_structure(a, b),
{
    let point = |p: Vec3| point_words(p);
    let spar = |s: SparItem| spar_words(s);
    let panel = |p: PanelItem| panel_words(p);
    let bridle = |l: BridleItem| bridle_words(l);
    let stiff = |j: StiffJointItem| stiff_words(j);
    let lashing = |l: LashingItem| lashing_words(l);
    let index = |i: usize| index_words(i);
    let a9 = index_words(a_pins.len() as usize) + all_words(a_pins, index);
    let b9 = index_words(b_pins.len() as usize) + all_words(b_pins, index);
    let a8 = flag_words(a.junction_pinned) + a9;
    let b8 = flag_words(b.junction_pinned) + b9;
    let a7 = option_words(a.junction) + a8;
    let b7 = option_words(b.junction) + b8;
    let a6 = all_words(a.lashings@, lashing) + a7;
    let b6 = all_words(b.lashings@, lashing) + b7;
    let a5 = all_words(a.stiff_joints@, stiff) + a6;
    let b5 = all_words(b.stiff_joints@, stiff) + b6;
    let a4 = all_words(a.bridles@, bridle) + a5;
    let b4 = all_words(b.bridles@, bridle) + b5;
    let a3 = all_words(a.panels@, panel) + a4;
    let b3 = all_words(b.panels@, panel) + b4;
    let a2 = all_words(a.spars@, spar) + a3;
    let b2 = all_words(b.spars@, spar) + b3;
    assert(all_words(a.points@, point) + a2 == all_words(b.points@, point) + b2);
    same_len(a.points@, b.points@, point, 3, a.points@.len());
    split_equal(all_words(a.points@, point), a2, all_words(b.points@, point), b2);
    same_words_same_rows(a.points@, b.points@, point, 3, a.points@.len());
    assert forall|k: int| 0 <= k < a.points@.len() implies a.points@[k] == b.points@[k] by {
        assert(point(a.points@[k]) == point(b.points@[k]));
        let p = point_words(a.points@[k]);
        let q = point_words(b.points@[k]);
        assert(p[0] == q[0] && p[1] == q[1] && p[2] == q[2]);
    }
    assert(a.points@ =~= b.points@);
    same_len(a.spars@, b.spars@, spar, 7, a.spars@.len());
    split_equal(all_words(a.spars@, spar), a3, all_words(b.spars@, spar), b3);
    same_words_same_rows(a.spars@, b.spars@, spar, 7, a.spars@.len());
    assert forall|k: int| 0 <= k < a.spars@.len() implies #[trigger] spar_words(a.spars@[k])
        == spar_words(b.spars@[k]) by {
        assert(spar(a.spars@[k]) == spar(b.spars@[k]));
    }
    same_len(a.panels@, b.panels@, panel, 9, a.panels@.len());
    split_equal(all_words(a.panels@, panel), a4, all_words(b.panels@, panel), b4);
    same_words_same_rows(a.panels@, b.panels@, panel, 9, a.panels@.len());
    assert forall|k: int| 0 <= k < a.panels@.len() implies #[trigger] panel_words(a.panels@[k])
        == panel_words(b.panels@[k]) by {
        assert(panel(a.panels@[k]) == panel(b.panels@[k]));
    }
    same_len(a.bridles@, b.bridles@, bridle, 7, a.bridles@.len());
    split_equal(all_words(a.bridles@, bridle), a5, all_words(b.bridles@, bridle), b5);
    same_words_same_rows(a.bridles@, b.bridles@, bridle, 7, a.bridles@.len());
    assert forall|k: int| 0 <= k < a.bridles@.len() implies #[trigger] bridle_words(a.bridles@[k])
        == bridle_words(b.bridles@[k]) by {
        assert(bridle(a.bridles@[k]) == bridle(b.bridles@[k]));
    }
    same_len(a.stiff_joints@, b.stiff_joints@, stiff, 2, a.stiff_joints@.len());
    split_equal(all_words(a.stiff_joints@, stiff), a6, all_words(b.stiff_joints@, stiff), b6);
    same_words_same_rows(a.stiff_joints@, b.stiff_joints@, stiff, 2, a.stiff_joints@.len());
    assert forall|k: int| 0 <= k < a.stiff_joints@.len() implies a.stiff_joints@[k]
        == b.stiff_joints@[k] by {
        assert(stiff(a.stiff_joints@[k]) == stiff(b.stiff_joints@[k]));
        let p = stiff_words(a.stiff_joints@[k]);
        let q = stiff_words(b.stiff_joints@[k]);
        assert(p[0] == q[0] && p[1] == q[1]);
    }
    assert(a.stiff_joints@ =~= b.stiff_joints@);
    same_len(a.lashings@, b.lashings@, lashing, 2, a.lashings@.len());
    split_equal(all_words(a.lashings@, lashing), a7, all_words(b.lashings@, lashing), b7);
    same_words_same_rows(a.lashings@, b.lashings@, lashing, 2, a.lashings@.len());
    assert forall|k: int| 0 <= k < a.lashings@.len() implies a.lashings@[k]
        == b.lashings@[k] by {
        assert(lashing(a.lashings@[k]) == lashing(b.lashings@[k]));
        let p = lashing_words(a.lashings@[k]);
        let q = lashing_words(b.lashings@[k]);
        assert(p[0] == q[0] && p[1] == q[1]);
    }
    assert(a.lashings@ =~= b.lashings@);
    let ja = option_words(a.junction);
    let jb = option_words(b.junction);
    assert(a7[0] == ja[0] && b7[0] == jb[0]);
    split_equal(ja, a8, jb, b8);
    assert(a.junction == b.junction) by {
        if a.junction is Some {
            assert(ja[1] == jb[1]);
        }
    }
    let fa = flag_words(a.junction_pinned);
    let fb = flag_words(b.junction_pinned);
    split_equal(fa, a9, fb, b9);
    assert(fa[0] == fb[0]);
    let na = index_words(a_pins.len() as usize);
    let nb = index_words(b_pins.len() as usize);
    split_equal(na, all_words(a_pins, index), nb, all_words(b_pins, index));
    assert(na[0] == nb[0]);
    same_words_same_rows(a_pins, b_pins, index, 1, a_pins.len());
    assert forall|k: int| 0 <= k < a_pins.len() implies a_pins[k] == b_pins[k] by {
        assert(index(a_pins[k]) == index(b_pins[k]));
        let p = index_words(a_pins[k]);
        let q = index_words(b_pins[k]);
        assert(p[0] == q[0]);
    }
    assert(a_pins =~= b_pins);
    assert(a.pinned@ =~= b.pinned@) by {
        assert forall|i: usize| a.pinned@.contains(i) <==> b.pinned@.contains(i) by {
            assert(a_pins.contains(i) <==> a.pinned@.contains(i));
            assert(b_pins.contains(i) <==> b.pinned@.contains(i));
        }
    }
}

} // verus!
