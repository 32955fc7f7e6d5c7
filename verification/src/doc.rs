//! The editor's document: the scenario that is being edited.
//!
//! A document is index-based: points are a flat list, and elements name
//! points by their indices, so that coordinates are shared. A scenario is
//! coordinate-based, which is what building a kite starts from.
use crate::geometry::KiteDefinition;
use crate::scalar::{Scalar, Vec3};
use crate::text::{decimal, numbered};
use crate::wind::{GustEvent, WindConfig};
use crate::world::{standard_gravity, Config};
use std::collections::HashSet;
use vstd::prelude::*;
use vstd::string::*;

verus! {

/// Solver settings that a scenario may override; `None` is the engine's
/// default.
#[derive(Clone, Copy, Debug, PartialEq, Eq, Structural)]
pub struct SimOverrides {
    pub substeps: Option<usize>,
    pub iterations_per_substep: Option<usize>,
    pub damping: Option<Scalar>,
    pub bladder_pressure: Option<Scalar>,
    pub k_pressure: Option<Scalar>,
    pub ground_collision_enabled: Option<bool>,
    pub self_collision_enabled: Option<bool>,
}

impl SimOverrides {
    /// Nothing is overridden.
    pub open spec fn none() -> SimOverrides {
        SimOverrides {
            substeps: None,
            iterations_per_substep: None,
            damping: None,
            bladder_pressure: None,
            k_pressure: None,
            ground_collision_enabled: None,
            self_collision_enabled: None,
        }
    }

    /// The configuration with the overrides in place of its values.
    pub open spec fn over(self, cfg: Config) -> Config {
        Config {
            substeps: self.substeps.unwrap_or(cfg.substeps),
            iterations_per_substep: self.iterations_per_substep.unwrap_or(
                cfg.iterations_per_substep,
            ),
            damping: self.damping.unwrap_or(cfg.damping),
            bladder_pressure: self.bladder_pressure.unwrap_or(cfg.bladder_pressure),
            k_pressure: self.k_pressure.unwrap_or(cfg.k_pressure),
            ground_collision_enabled: self.ground_collision_enabled.unwrap_or(
                cfg.ground_collision_enabled,
            ),
            self_collision_enabled: self.self_collision_enabled.unwrap_or(
                cfg.self_collision_enabled,
            ),
            ..cfg
        }
    }

    /// Whether anything is overridden.
    pub fn is_set(&self) -> (r: bool)
        ensures
            r == (*self != Self::none()),
    {
        self.substeps.is_some() || self.iterations_per_substep.is_some() || self.damping.is_some()
            || self.bladder_pressure.is_some() || self.k_pressure.is_some()
            || self.ground_collision_enabled.is_some() || self.self_collision_enabled.is_some()
    }

    /// Puts the overrides into a configuration.
    pub fn apply(&self, cfg: &mut Config)
        ensures
            *final(cfg) == self.over(*old(cfg)),
    {
        cfg.substeps = self.substeps.unwrap_or(cfg.substeps);
        cfg.iterations_per_substep = self.iterations_per_substep.unwrap_or(
            cfg.iterations_per_substep,
        );
        cfg.damping = self.damping.unwrap_or(cfg.damping);
        cfg.bladder_pressure = self.bladder_pressure.unwrap_or(cfg.bladder_pressure);
        cfg.k_pressure = self.k_pressure.unwrap_or(cfg.k_pressure);
        cfg.ground_collision_enabled = self.ground_collision_enabled.unwrap_or(
            cfg.ground_collision_enabled,
        );
        cfg.self_collision_enabled = self.self_collision_enabled.unwrap_or(
            cfg.self_collision_enabled,
        );
    }
}

impl Default for SimOverrides {
    fn default() -> (r: Self)
        ensures
            r == SimOverrides::none(),
    {
        SimOverrides {
            substeps: None,
            iterations_per_substep: None,
            damping: None,
            bladder_pressure: None,
            k_pressure: None,
            ground_collision_enabled: None,
            self_collision_enabled: None,
        }
    }
}

/// A scenario, as its file has it.
#[derive(Debug)]
pub struct Scenario {
    pub name: String,
    pub gravity: Vec3,
    pub duration: Scalar,
    pub wind: Option<WindConfig>,
    pub kite: Option<KiteDefinition>,
    pub sim: Option<SimOverrides>,
}

/// A spar between two points.
#[derive(Debug)]
pub struct SparItem {
    pub name: String,
    pub a: usize,
    pub b: usize,
    pub num_segments: usize,
    pub radius: Scalar,
    pub youngs_modulus: Scalar,
    pub shear_modulus: Scalar,
    pub density: Scalar,
}

/// A canopy panel with three corner points.
#[derive(Debug)]
pub struct PanelItem {
    pub name: String,
    pub a: usize,
    pub b: usize,
    pub c: usize,
    pub warp_compliance: Scalar,
    pub weft_compliance: Scalar,
    pub shear_compliance: Scalar,
    pub bending_compliance: Scalar,
    pub subdivisions: usize,
    pub areal_density: Scalar,
}

/// A bridle line between two points.
#[derive(Debug)]
pub struct BridleItem {
    pub name: String,
    pub a: usize,
    pub b: usize,
    pub rest_length: Scalar,
    pub compliance: Scalar,
    pub diameter: Scalar,
    pub num_segments: usize,
    pub density: Scalar,
}

/// A bend-twist lock at a point, freezing the as-built angle between the spars
/// that meet there.
#[derive(Clone, Copy, Debug, PartialEq, Eq, Structural)]
pub struct StiffJointItem {
    pub point: usize,
    pub compliance: Scalar,
}

/// A position-only tie, at a point, between the nearest nodes of two spars.
#[derive(Clone, Copy, Debug, PartialEq, Eq, Structural)]
pub struct LashingItem {
    pub point: usize,
    pub compliance: Scalar,
}

/// The document that is being edited.
pub struct EditorDoc {
    pub name: String,
    pub gravity: Vec3,
    pub duration: Scalar,
    pub wind: WindConfig,
    pub sim: SimOverrides,
    pub points: Vec<Vec3>,
    pub spars: Vec<SparItem>,
    pub panels: Vec<PanelItem>,
    pub bridles: Vec<BridleItem>,
    pub junction: Option<usize>,
    pub junction_pinned: bool,
    pub pinned: HashSet<usize>,
    pub stiff_joints: Vec<StiffJointItem>,
    pub lashings: Vec<LashingItem>,
}

pub open spec fn spars_within(items: Seq<SparItem>, n: nat) -> bool {
    forall|k: int| 0 <= k < items.len() ==> (#[trigger] items[k]).a < n && items[k].b < n
}

pub open spec fn panels_within(items: Seq<PanelItem>, n: nat) -> bool {
    forall|k: int|
        0 <= k < items.len() ==> (#[trigger] items[k]).a < n && items[k].b < n && items[k].c < n
}

pub open spec fn bridles_within(items: Seq<BridleItem>, n: nat) -> bool {
    forall|k: int| 0 <= k < items.len() ==> (#[trigger] items[k]).a < n && items[k].b < n
}

pub open spec fn stiff_within(items: Seq<StiffJointItem>, n: nat) -> bool {
    forall|k: int| 0 <= k < items.len() ==> (#[trigger] items[k]).point < n
}

pub open spec fn lashings_within(items: Seq<LashingItem>, n: nat) -> bool {
    forall|k: int| 0 <= k < items.len() ==> (#[trigger] items[k]).point < n
}

/// A new spar, the `n`-th, with the default properties.
pub open spec fn is_new_spar(s: SparItem, n: nat, a: usize, b: usize) -> bool {
    &&& s.name@ == "spar_"@ + decimal(n)
    &&& s.a == a
    &&& s.b == b
    &&& s.num_segments == 4
    &&& s.radius.bits == 0x3F74_7AE1_47AE_147B
    &&& s.youngs_modulus.bits == 0x4222_A05F_2000_0000
    &&& s.shear_modulus.bits == 0x41ED_CD65_0000_0000
    &&& s.density.bits == 0x409E_7800_0000_0000
}

/// A new panel, the `n`-th, with the default properties.
pub open spec fn is_new_panel(p: PanelItem, n: nat, a: usize, b: usize, c: usize) -> bool {
    &&& p.name@ == "panel_"@ + decimal(n)
    &&& p.a == a
    &&& p.b == b
    &&& p.c == c
    &&& p.warp_compliance.bits == 0x3F1A_36E2_EB1C_432D
    &&& p.weft_compliance.bits == 0x3F1A_36E2_EB1C_432D
    &&& p.shear_compliance.bits == 0x3F2A_36E2_EB1C_432D
    &&& p.bending_compliance.bits == 0x3FB9_9999_9999_999A
    &&& p.subdivisions == 1
    &&& p.areal_density.bits == 0x3FA9_9999_9999_999A
}

/// A new line, the `n`-th, with the default properties.
pub open spec fn is_new_bridle(
    l: BridleItem,
    n: nat,
    a: usize,
    b: usize,
    rest_length: Scalar,
) -> bool {
    &&& l.name@ == "bridle_"@ + decimal(n)
    &&& l.a == a
    &&& l.b == b
    &&& l.rest_length == rest_length
    &&& l.compliance.bits == 0x3EB0_C6F7_A0B5_ED8D
    &&& l.diameter.bits == 0x3F60_624D_D2F1_A9FC
    &&& l.num_segments == 1
    &&& l.density.bits == 0x408E_5000_0000_0000
}

impl EditorDoc {
    /// Every point that is named exists.
    pub open spec fn wf(self) -> bool {
        let n = self.points@.len();
        &&& spars_within(self.spars@, n)
        &&& panels_within(self.panels@, n)
        &&& bridles_within(self.bridles@, n)
        &&& self.junction is Some ==> self.junction->0 < n
        &&& forall|i: usize| #[trigger] self.pinned@.contains(i) ==> i < n
        &&& stiff_within(self.stiff_joints@, n)
        &&& lashings_within(self.lashings@, n)
    }

    /// The document has no points and no elements.
    pub open spec fn bare(self) -> bool {
        &&& self.points@.len() == 0
        &&& self.spars@.len() == 0
        &&& self.panels@.len() == 0
        &&& self.bridles@.len() == 0
        &&& self.junction is None
        &&& !self.junction_pinned
        &&& self.pinned@ == Set::<usize>::empty()
        &&& self.stiff_joints@.len() == 0
        &&& self.lashings@.len() == 0
    }

    /// The index that a point at `p` gets: that of the first point marked as
    /// coinciding with it, or that of a new one.
    pub open spec fn weld_index(near: Seq<bool>, k: nat) -> nat
        decreases near.len() - k,
    {
        if k >= near.len() {
            near.len()
        } else if near[k as int] {
            k
        } else {
            Self::weld_index(near, k + 1)
        }
    }

    /// Weld-or-add a point, returning its index. `near` tells, for each point
    /// there is, whether it coincides with `p`.
    pub fn weld_point(&mut self, p: Vec3, near: &Vec<bool>) -> (r: usize)
        requires
            near@.len() == old(self).points@.len(),
        ensures
            r == Self::weld_index(near@, 0),
            r < final(self).points@.len(),
            final(self).points@ == if r < old(self).points@.len() {
                old(self).points@
            } else {
                old(self).points@.push(p)
            },
            *final(self) == (EditorDoc { points: final(self).points, ..*old(self) }),
    {
        let mut k: usize = 0;
        while k < near.len()
            invariant
                k <= near@.len(),
                near@.len() == self.points@.len(),
                Self::weld_index(near@, 0) == Self::weld_index(near@, k as nat),
            decreases near@.len() - k,
        {
            if near[k] {
                return k;
            }
            k += 1;
        }
        self.points.push(p);
        self.points.len() - 1
    }

    /// Adds a spar with the default properties.
    pub fn add_spar(&mut self, a: usize, b: usize) -> (r: usize)
        requires
            old(self).spars@.len() < usize::MAX,
        ensures
            r == old(self).spars@.len(),
            final(self).spars@ == old(self).spars@.push(final(self).spars@.last()),
            is_new_spar(final(self).spars@.last(), old(self).spars@.len() + 1, a, b),
            *final(self) == (EditorDoc { spars: final(self).spars, ..*old(self) }),
    {
        let n: usize = self.spars.len() + 1;
        self.spars.push(
            SparItem {
                name: numbered("spar_", n),
                a,
                b,
                num_segments: 4,
                radius: Scalar::new(0x3F74_7AE1_47AE_147B),
                youngs_modulus: Scalar::new(0x4222_A05F_2000_0000),
                shear_modulus: Scalar::new(0x41ED_CD65_0000_0000),
                density: Scalar::new(0x409E_7800_0000_0000),
            },
        );
        self.spars.len() - 1
    }

    /// Adds a panel with the default properties.
    pub fn add_panel(&mut self, a: usize, b: usize, c: usize) -> (r: usize)
        requires
            old(self).panels@.len() < usize::MAX,
        ensures
            r == old(self).panels@.len(),
            final(self).panels@ == old(self).panels@.push(final(self).panels@.last()),
            is_new_panel(final(self).panels@.last(), old(self).panels@.len() + 1, a, b, c),
            *final(self) == (EditorDoc { panels: final(self).panels, ..*old(self) }),
    {
        let n: usize = self.panels.len() + 1;
        self.panels.push(
            PanelItem {
                name: numbered("panel_", n),
                a,
                b,
                c,
                warp_compliance: Scalar::new(0x3F1A_36E2_EB1C_432D),
                weft_compliance: Scalar::new(0x3F1A_36E2_EB1C_432D),
                shear_compliance: Scalar::new(0x3F2A_36E2_EB1C_432D),
                bending_compliance: Scalar::new(0x3FB9_9999_9999_999A),
                subdivisions: 1,
                areal_density: Scalar::new(0x3FA9_9999_9999_999A),
            },
        );
        self.panels.len() - 1
    }

    /// Adds a bridle line with the default properties; `rest_length` is the
    /// distance of its points.
    pub fn add_bridle(&mut self, a: usize, b: usize, rest_length: Scalar) -> (r: usize)
        requires
            old(self).bridles@.len() < usize::MAX,
        ensures
            r == old(self).bridles@.len(),
            final(self).bridles@ == old(self).bridles@.push(final(self).bridles@.last()),
            is_new_bridle(
                final(self).bridles@.last(),
                old(self).bridles@.len() + 1,
                a,
                b,
                rest_length,
            ),
            *final(self) == (EditorDoc { bridles: final(self).bridles, ..*old(self) }),
    {
        let n: usize = self.bridles.len() + 1;
        self.bridles.push(
            BridleItem {
                name: numbered("bridle_", n),
                a,
                b,
                rest_length,
                compliance: Scalar::new(0x3EB0_C6F7_A0B5_ED8D),
                diameter: Scalar::new(0x3F60_624D_D2F1_A9FC),
                num_segments: 1,
                density: Scalar::new(0x408E_5000_0000_0000),
            },
        );
        self.bridles.len() - 1
    }

    /// Where the first stiff joint at a point is in the list; the length of
    /// the list if there is none.
    pub open spec fn stiff_at(items: Seq<StiffJointItem>, idx: usize, k: nat) -> nat
        decreases items.len() - k,
    {
        if k >= items.len() {
            items.len()
        } else if items[k as int].point == idx {
            k
        } else {
            Self::stiff_at(items, idx, k + 1)
        }
    }

    /// The stiff joints after the one at `idx` is toggled.
    pub open spec fn stiff_toggled(items: Seq<StiffJointItem>, idx: usize) -> Seq<StiffJointItem> {
        let k = Self::stiff_at(items, idx, 0);
        if k < items.len() {
            items.remove(k as int)
        } else {
            items.push(
                StiffJointItem { point: idx, compliance: Scalar { bits: 0x3E11_2E0B_E826_D695 } },
            )
        }
    }

    /// Toggles a stiff joint at point `idx`: adds one with the default
    /// compliance if there is none, removes it if there is one.
    pub fn toggle_stiff_joint(&mut self, idx: usize)
        ensures
            final(self).stiff_joints@ == Self::stiff_toggled(old(self).stiff_joints@, idx),
            *final(self) == (EditorDoc { stiff_joints: final(self).stiff_joints, ..*old(self) }),
    {
        let mut k: usize = 0;
        while k < self.stiff_joints.len()
            invariant
                k <= self.stiff_joints@.len(),
                self.stiff_joints@ == old(self).stiff_joints@,
                *self == *old(self),
                Self::stiff_at(self.stiff_joints@, idx, 0) == Self::stiff_at(
                    self.stiff_joints@,
                    idx,
                    k as nat,
                ),
            decreases self.stiff_joints@.len() - k,
        {
            if self.stiff_joints[k].point == idx {
                self.stiff_joints.remove(k);
                return;
            }
            k += 1;
        }
        self.stiff_joints.push(
            StiffJointItem { point: idx, compliance: Scalar::new(0x3E11_2E0B_E826_D695) },
        );
    }

    /// Where the first lashing at a point is in the list; the length of the
    /// list if there is none.
    pub open spec fn lashing_at(items: Seq<LashingItem>, idx: usize, k: nat) -> nat
        decreases items.len() - k,
    {
        if k >= items.len() {
            items.len()
        } else if items[k as int].point == idx {
            k
        } else {
            Self::lashing_at(items, idx, k + 1)
        }
    }

    /// The lashings after the one at `idx` is toggled.
    pub open spec fn lashing_toggled(items: Seq<LashingItem>, idx: usize) -> Seq<LashingItem> {
        let k = Self::lashing_at(items, idx, 0);
        if k < items.len() {
            items.remove(k as int)
        } else {
            items.push(
                LashingItem { point: idx, compliance: Scalar { bits: 0x3EB0_C6F7_A0B5_ED8D } },
            )
        }
    }

    /// Toggles a lashing at point `idx`: adds one with the default compliance
    /// if there is none, removes it if there is one.
    pub fn toggle_lashing(&mut self, idx: usize)
        ensures
            final(self).lashings@ == Self::lashing_toggled(old(self).lashings@, idx),
            *final(self) == (EditorDoc { lashings: final(self).lashings, ..*old(self) }),
    {
        let mut k: usize = 0;
        while k < self.lashings.len()
            invariant
                k <= self.lashings@.len(),
                self.lashings@ == old(self).lashings@,
                *self == *old(self),
                Self::lashing_at(self.lashings@, idx, 0) == Self::lashing_at(
                    self.lashings@,
                    idx,
                    k as nat,
                ),
            decreases self.lashings@.len() - k,
        {
            if self.lashings[k].point == idx {
                self.lashings.remove(k);
                return;
            }
            k += 1;
        }
        self.lashings.push(
            LashingItem { point: idx, compliance: Scalar::new(0x3EB0_C6F7_A0B5_ED8D) },
        );
    }

    /// Removes a spar; its points stay.
    pub fn delete_spar(&mut self, idx: usize)
        requires
            idx < old(self).spars@.len(),
        ensures
            final(self).spars@ == old(self).spars@.remove(idx as int),
            *final(self) == (EditorDoc { spars: final(self).spars, ..*old(self) }),
    {
        self.spars.remove(idx);
    }

    /// Removes a panel; its points stay.
    pub fn delete_panel(&mut self, idx: usize)
        requires
            idx < old(self).panels@.len(),
        ensures
            final(self).panels@ == old(self).panels@.remove(idx as int),
            *final(self) == (EditorDoc { panels: final(self).panels, ..*old(self) }),
    {
        self.panels.remove(idx);
    }

    /// Removes a bridle line; its points stay.
    pub fn delete_bridle(&mut self, idx: usize)
        requires
            idx < old(self).bridles@.len(),
        ensures
            final(self).bridles@ == old(self).bridles@.remove(idx as int),
            *final(self) == (EditorDoc { bridles: final(self).bridles, ..*old(self) }),
    {
        self.bridles.remove(idx);
    }

    /// Pins a point that is not pinned, and frees one that is.
    pub fn toggle_pin(&mut self, idx: usize)
        ensures
            final(self).pinned@ == if old(self).pinned@.contains(idx) {
                old(self).pinned@.remove(idx)
            } else {
                old(self).pinned@.insert(idx)
            },
            *final(self) == (EditorDoc { pinned: final(self).pinned, ..*old(self) }),
    {
        broadcast use vstd::std_specs::hash::group_hash_axioms;

        if !self.pinned.insert(idx) {
            self.pinned.remove(&idx);
            assert(self.pinned@ =~= old(self).pinned@.remove(idx));
        }
    }

    /// Adds a gust with default properties. `heading` is the wind's direction as
    /// a unit vector, `heading_sq` the squared length of the wind's direction:
    /// where that is next to nothing, the gust blows along the first axis.
    pub fn add_gust(&mut self, heading: Vec3, heading_sq: Scalar)
        ensures
            final(self).wind.gusts@ == old(self).wind.gusts@.push(
                GustEvent {
                    start_time: Scalar { bits: 0 },
                    length: Scalar { bits: 0x4014_0000_0000_0000 },
                    amplitude: Scalar { bits: 0x4000_0000_0000_0000 },
                    direction: if (Scalar { bits: 0x3E11_2E0B_E826_D695 }).less(heading_sq) {
                        heading
                    } else {
                        Vec3 {
                            x: Scalar { bits: 0x3FF0_0000_0000_0000 },
                            y: Scalar { bits: 0 },
                            z: Scalar { bits: 0 },
                        }
                    },
                    propagation_velocity: old(self).wind.v_ref.larger(
                        Scalar { bits: 0x3FF0_0000_0000_0000 },
                    ),
                },
            ),
            final(self).wind == (WindConfig { gusts: final(self).wind.gusts, ..old(self).wind }),
            *final(self) == (EditorDoc { wind: final(self).wind, ..*old(self) }),
    {
        let one: Scalar = Scalar::new(0x3FF0_0000_0000_0000);
        let direction: Vec3 = if Scalar::new(0x3E11_2E0B_E826_D695).lt(heading_sq) {
            heading
        } else {
            Vec3::new(one, Scalar::zero(), Scalar::zero())
        };
        let speed: Scalar = self.wind.v_ref.max(one);
        self.wind.gusts.push(
            GustEvent::new(
                Scalar::zero(),
                Scalar::new(0x4014_0000_0000_0000),
                Scalar::new(0x4000_0000_0000_0000),
                direction,
                speed,
            ),
        );
    }
}

impl Default for EditorDoc {
    fn default() -> (r: Self)
        ensures
            r.name@ == "untitled"@,
            r.gravity == standard_gravity(),
            r.duration.bits == 0x4014_0000_0000_0000,
            r.wind.is_default(),
            r.sim == SimOverrides::none(),
            r.bare(),
            r.wf(),
    {
        broadcast use vstd::std_specs::hash::group_hash_axioms;

        EditorDoc {
            name: String::from_str("untitled"),
            gravity: Vec3::new(
                Scalar::zero(),
                Scalar::new(0xC023_9EB8_51EB_851F),
                Scalar::zero(),
            ),
            duration: Scalar::new(0x4014_0000_0000_0000),
            wind: WindConfig::default(),
            sim: SimOverrides::default(),
            points: Vec::new(),
            spars: Vec::new(),
            panels: Vec::new(),
            bridles: Vec::new(),
            junction: None,
            junction_pinned: false,
            pinned: HashSet::new(),
            stiff_joints: Vec::new(),
            lashings: Vec::new(),
        }
    }
}

/// Toggling a stiff joint on and off again leaves the list as it was.
pub proof fn stiff_toggle_undoes_itself(items: Seq<StiffJointItem>, idx: usize)
    requires
        forall|k: int| 0 <= k < items.len() ==> (#[trigger] items[k]).point != idx,
    ensures
        EditorDoc::stiff_toggled(EditorDoc::stiff_toggled(items, idx), idx) == items,
{
    stiff_absent(items, idx, 0);
    let on = EditorDoc::stiff_toggled(items, idx);
    stiff_last(items, on, idx, 0);
    assert(on.remove(items.len() as int) =~= items);
}

proof fn stiff_absent(items: Seq<StiffJointItem>, idx: usize, k: nat)
    requires
        k <= items.len(),
        forall|k: int| 0 <= k < items.len() ==> (#[trigger] items[k]).point != idx,
    ensures
        EditorDoc::stiff_at(items, idx, k) == items.len(),
    decreases items.len() - k,
{
    if k < items.len() {
        stiff_absent(items, idx, k + 1);
    }
}

proof fn stiff_last(items: Seq<StiffJointItem>, on: Seq<StiffJointItem>, idx: usize, k: nat)
    requires
        k <= items.len(),
        on.len() == items.len() + 1,
        on.last().point == idx,
        forall|k: int| 0 <= k < items.len() ==> (#[trigger] on[k]).point != idx,
    ensures
        EditorDoc::stiff_at(on, idx, k) == items.len(),
    decreases items.len() - k,
{
    if k < items.len() {
        stiff_last(items, on, idx, k + 1);
    }
}

/// Toggling a lashing on and off again leaves the list as it was.
pub proof fn lashing_toggle_undoes_itself(items: Seq<LashingItem>, idx: usize)
    requires
        forall|k: int| 0 <= k < items.len() ==> (#[trigger] items[k]).point != idx,
    ensures
        EditorDoc::lashing_toggled(EditorDoc::lashing_toggled(items, idx), idx) == items,
{
    lashing_absent(items, idx, 0);
    let on = EditorDoc::lashing_toggled(items, idx);
    lashing_last(items, on, idx, 0);
    assert(on.remove(items.len() as int) =~= items);
}

proof fn lashing_absent(items: Seq<LashingItem>, idx: usize, k: nat)
    requires
        k <= items.len(),
        forall|k: int| 0 <= k < items.len() ==> (#[trigger] items[k]).point != idx,
    ensures
        EditorDoc::lashing_at(items, idx, k) == items.len(),
    decreases items.len() - k,
{
    if k < items.len() {
        lashing_absent(items, idx, k + 1);
    }
}

proof fn lashing_last(items: Seq<LashingItem>, on: Seq<LashingItem>, idx: usize, k: nat)
    requires
        k <= items.len(),
        on.len() == items.len() + 1,
        on.last().point == idx,
        forall|k: int| 0 <= k < items.len() ==> (#[trigger] on[k]).point != idx,
    ensures
        EditorDoc::lashing_at(on, idx, k) == items.len(),
    decreases items.len() - k,
{
    if k < items.len() {
        lashing_last(items, on, idx, k + 1);
    }
}

} // verus!
