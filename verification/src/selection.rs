//! What is selected in the editor, and which tool is in hand.
use vstd::prelude::*;

verus! {

/// An edit-mode tool.
#[derive(Clone, Copy, PartialEq, Eq, Debug, Structural)]
pub enum Tool {
    Select,
    AddPoint,
    Spar,
    Panel,
    Bridle,
    Junction,
    Pin,
    StiffJoint,
    Lashing,
}

impl Default for Tool {
    fn default() -> (r: Self)
        ensures
            r == Tool::Select,
    {
        Tool::Select
    }
}

/// One element of the document, or nothing.
#[derive(Clone, Copy, PartialEq, Eq, Debug, Structural)]
pub enum Selection {
    Nothing,
    Point(usize),
    Spar(usize),
    Panel(usize),
    Bridle(usize),
}

impl Default for Selection {
    fn default() -> (r: Self)
        ensures
            r == Selection::Nothing,
    {
        Selection::Nothing
    }
}

/// Multi-click tool progress (e.g. two points picked so far for a spar).
pub struct ToolState {
    pub tool: Tool,
    pub pending: Vec<usize>,
}

impl ToolState {
    /// Takes another tool in hand; points picked so far are forgotten.
    pub fn set_tool(&mut self, tool: Tool)
        ensures
            final(self).tool == tool,
            final(self).pending@ == Seq::<usize>::empty(),
    {
        self.tool = tool;
        self.pending.clear();
    }
}

impl Default for ToolState {
    fn default() -> (r: Self)
        ensures
            r.tool == Tool::Select,
            r.pending@ == Seq::<usize>::empty(),
    {
        ToolState { tool: Tool::Select, pending: Vec::new() }
    }
}

/// Multi-selection: an ordered set of picked elements, without duplicates and
/// without `Selection::Nothing`. A plain click replaces the whole set, a click
/// with a modifier adds or removes one member, and clicking empty space clears
/// it.
pub struct SelectionSet {
    members: Vec<Selection>,
}

/// A sequence of distinct elements, none of them `Selection::Nothing`.
pub open spec fn is_selection(s: Seq<Selection>) -> bool {
    &&& s.no_duplicates()
    &&& !s.contains(Selection::Nothing)
}

/// Removing one member keeps the others distinct, and takes that member out.
proof fn removal_keeps_selection(s: Seq<Selection>, i: int)
    requires
        is_selection(s),
        0 <= i < s.len(),
    ensures
        is_selection(s.remove(i)),
        !s.remove(i).contains(s[i]),
        forall|x: Selection| x != s[i] ==> (#[trigger] s.remove(i).contains(x) <==> s.contains(x)),
{
    let t = s.remove(i);
    assert forall|j: int, k: int| 0 <= j < t.len() && 0 <= k < t.len() && j != k implies t[j]
        != t[k] by {
        let a: int = if j < i { j } else { j + 1 };
        let b: int = if k < i { k } else { k + 1 };
        assert(t[j] == s[a] && t[k] == s[b]);
    }
    assert forall|x: Selection| #[trigger] t.contains(x) implies s.contains(x) && x != s[i] by {
        let j = choose|j: int| 0 <= j < t.len() && t[j] == x;
        let a: int = if j < i { j } else { j + 1 };
        assert(s[a] == x);
    }
    assert forall|x: Selection| x != s[i] && s.contains(x) implies #[trigger] t.contains(x) by {
        let a = choose|a: int| 0 <= a < s.len() && s[a] == x;
        let j: int = if a < i { a } else { a - 1 };
        assert(t[j] == x);
    }
}

/// Appending an element that is neither present nor `Nothing` keeps a selection.
proof fn push_keeps_selection(s: Seq<Selection>, x: Selection)
    requires
        is_selection(s),
        !s.contains(x),
        x != Selection::Nothing,
    ensures
        is_selection(s.push(x)),
{
    let t = s.push(x);
    assert forall|j: int, k: int| 0 <= j < t.len() && 0 <= k < t.len() && j != k implies t[j]
        != t[k] by {
        if j < s.len() {
            assert(s.contains(s[j]));
        }
        if k < s.len() {
            assert(s.contains(s[k]));
        }
    }
    if t.contains(Selection::Nothing) {
        let j = choose|j: int| 0 <= j < t.len() && t[j] == Selection::Nothing;
        assert(s.contains(s[j]));
    }
}

/// Adding an element that was not selected and removing it again leaves the
/// selection as it was.
pub proof fn add_then_remove_restores(s: Seq<Selection>, x: Selection)
    requires
        !s.contains(x),
    ensures
        s.push(x).remove_value(x) == s,
{
    let t = s.push(x);
    t.index_of_first_ensures(x);
    assert(t[s.len() as int] == x);
    let i = t.index_of_first(x)->0;
    if i < s.len() {
        assert(s.contains(s[i]));
    }
    assert(t.remove(i) =~= s);
}

impl View for SelectionSet {
    type V = Seq<Selection>;

    closed spec fn view(&self) -> Seq<Selection> {
        self.members@
    }
}

impl SelectionSet {
    #[verifier::type_invariant]
    spec fn inv(self) -> bool {
        is_selection(self.members@)
    }

    /// An empty selection.
    pub fn new() -> (r: Self)
        ensures
            r@ == Seq::<Selection>::empty(),
    {
        SelectionSet { members: Vec::new() }
    }

    /// The members in the order they were picked.
    pub fn iter(&self) -> (r: std::slice::Iter<'_, Selection>)
        ensures
            vstd::std_specs::iter::IteratorSpec::remaining(&r) == self@.as_ref(),
    {
        self.members.iter()
    }

    /// The members in the order they were picked: distinct elements, none of
    /// them `Selection::Nothing`.
    pub fn as_slice(&self) -> (r: &[Selection])
        ensures
            r@ == self@,
            is_selection(r@),
    {
        proof {
            use_type_invariant(&*self);
        }
        self.members.as_slice()
    }

    pub fn is_empty(&self) -> (r: bool)
        ensures
            r == (self@.len() == 0),
    {
        self.members.len() == 0
    }

    pub fn len(&self) -> (r: usize)
        ensures
            r == self@.len(),
    {
        self.members.len()
    }

    /// Where `s` is in the set, if it is a member.
    fn position(&self, s: Selection) -> (r: Option<usize>)
        ensures
            match r {
                Some(i) => i < self@.len() && self@[i as int] == s && self@.index_of_first(s) == Some(
                    i as int,
                ),
                None => !self@.contains(s),
            },
    {
        let mut i: usize = 0;
        while i < self.members.len()
            invariant
                i <= self.members@.len(),
                forall|k: int| 0 <= k < i ==> self.members@[k] != s,
            decreases self.members@.len() - i,
        {
            if self.members[i] == s {
                proof {
                    self.members@.index_of_first_ensures(s);
                }
                return Some(i);
            }
            i += 1;
        }
        None
    }

    /// Whether `s` is a member; `Selection::Nothing` never is.
    pub fn contains(&self, s: Selection) -> (r: bool)
        ensures
            r == self@.contains(s),
            s == Selection::Nothing ==> !r,
    {
        proof {
            use_type_invariant(&*self);
        }
        self.position(s).is_some()
    }

    /// Deselects everything.
    pub fn clear(&mut self)
        ensures
            final(self)@ == Seq::<Selection>::empty(),
    {
        *self = SelectionSet::new();
    }

    /// Replaces the whole set with `s` (or clears it, for
    /// `Selection::Nothing`).
    pub fn set(&mut self, s: Selection)
        ensures
            final(self)@ == if s == Selection::Nothing {
                Seq::<Selection>::empty()
            } else {
                seq![s]
            },
    {
        let mut members: Vec<Selection> = Vec::new();
        if s != Selection::Nothing {
            members.push(s);
        }
        *self = SelectionSet { members };
    }

    /// Toggles `s` in or out of the set; does nothing for `Selection::Nothing`
    /// (so clicking empty space leaves the current selection alone).
    pub fn toggle(&mut self, s: Selection)
        ensures
            s == Selection::Nothing ==> final(self)@ == old(self)@,
            s != Selection::Nothing && !old(self)@.contains(s) ==> final(self)@ == old(self)@.push(s),
            old(self)@.contains(s) ==> final(self)@ == old(self)@.remove_value(s),
            s != Selection::Nothing ==> final(self)@.contains(s) == !old(self)@.contains(s),
    {
        proof {
            use_type_invariant(&*self);
        }
        if s == Selection::Nothing {
            return;
        }
        match self.position(s) {
            Some(pos) => self.take_out(pos),
            None => self.append(s),
        }
    }

    fn take_out(&mut self, pos: usize)
        requires
            pos < old(self)@.len(),
            old(self)@.index_of_first(old(self)@[pos as int]) == Some(pos as int),
        ensures
            final(self)@ == old(self)@.remove_value(old(self)@[pos as int]),
            !final(self)@.contains(old(self)@[pos as int]),
    {
        proof {
            use_type_invariant(&*self);
            removal_keeps_selection(self.members@, pos as int);
        }
        let mut members: Vec<Selection> = Vec::new();
        std::mem::swap(&mut members, &mut self.members);
        members.remove(pos);
        *self = SelectionSet { members };
    }

    fn append(&mut self, s: Selection)
        requires
            s != Selection::Nothing,
            !old(self)@.contains(s),
        ensures
            final(self)@ == old(self)@.push(s),
            final(self)@.contains(s),
    {
        proof {
            use_type_invariant(&*self);
            push_keeps_selection(self.members@, s);
        }
        let mut members: Vec<Selection> = Vec::new();
        std::mem::swap(&mut members, &mut self.members);
        members.push(s);
        proof {
            assert(members@.last() == s);
        }
        *self = SelectionSet { members };
    }

    /// Removes `s` from the set if present; does nothing if it is not a member
    /// (`Selection::Nothing` never is).
    pub fn remove(&mut self, s: Selection)
        ensures
            final(self)@ == old(self)@.remove_value(s),
            !final(self)@.contains(s),
    {
        match self.position(s) {
            Some(pos) => self.take_out(pos),
            None => {
                proof {
                    self.members@.index_of_first_ensures(s);
                }
            },
        }
    }

    /// Adds `s` to the set if it is not already present.
    pub fn add(&mut self, s: Selection)
        ensures
            final(self)@ == if s == Selection::Nothing || old(self)@.contains(s) {
                old(self)@
            } else {
                old(self)@.push(s)
            },
            s != Selection::Nothing ==> final(self)@.contains(s),
    {
        if s != Selection::Nothing && !self.contains(s) {
            self.append(s);
        }
    }

    /// `Some` only when exactly one element is selected.
    pub fn single(&self) -> (r: Option<Selection>)
        ensures
            r == if self@.len() == 1 {
                Some(self@[0])
            } else {
                None
            },
    {
        if self.members.len() == 1 {
            Some(self.members[0])
        } else {
            None
        }
    }
}

impl Default for SelectionSet {
    fn default() -> (r: Self)
        ensures
            r@ == Seq::<Selection>::empty(),
    {
        SelectionSet::new()
    }
}

impl Clone for SelectionSet {
    fn clone(&self) -> (r: Self)
        ensures
            r@ == self@,
    {
        proof {
            use_type_invariant(&*self);
        }
        let members: Vec<Selection> = self.members.clone();
        assert(members@ =~= self.members@);
        SelectionSet { members }
    }
}

} // verus!
