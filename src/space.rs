//! The window registry: windows with positions, kept in paint order (the
//! last entry is drawn on top).
use vstd::prelude::*;

use crate::geometry::{box_contains, box_contains_point, FixedPoint, Point};
use crate::window::{WindowData, WindowElement};

verus! {

/// A window together with where it is placed.
#[derive(Clone, Copy, Debug, PartialEq, Eq, Structural)]
pub struct MappedWindow {
    pub element: WindowElement,
    pub location: Point,
}

pub open spec fn id_of(m: MappedWindow) -> u64 {
    m.element.data().id
}

/// No two entries share an identity.
pub open spec fn ids_unique(s: Seq<MappedWindow>) -> bool {
    forall|i: int, j: int|
        0 <= i < s.len() && 0 <= j < s.len() && i != j ==> id_of(s[i]) != id_of(s[j])
}

/// Index of the last entry with identity `id`, or -1.
pub open spec fn find_index(s: Seq<MappedWindow>, id: u64) -> int
    decreases s.len(),
{
    if s.len() == 0 {
        -1
    } else if id_of(s.last()) == id {
        s.len() - 1
    } else {
        find_index(s.drop_last(), id)
    }
}

pub open spec fn deactivated(m: MappedWindow) -> MappedWindow {
    MappedWindow { element: m.element.activated_as(false), ..m }
}

/// The entries without the one whose identity is `id`.
pub open spec fn without(s: Seq<MappedWindow>, id: u64) -> Seq<MappedWindow> {
    let k = find_index(s, id);
    if k >= 0 {
        s.remove(k)
    } else {
        s
    }
}

/// Puts `m` on top of `rest`; with `activate`, `m` becomes the only active window.
pub open spec fn insert_spec(rest: Seq<MappedWindow>, m: MappedWindow, activate: bool) -> Seq<
    MappedWindow,
> {
    if activate {
        rest.map_values(|w: MappedWindow| deactivated(w)).push(
            MappedWindow { element: m.element.activated_as(true), ..m },
        )
    } else {
        rest.push(m)
    }
}

/// Registry after mapping `e` at `loc`. With `activate`, any earlier entry
/// of `e` goes and `e` is placed on top as the only active window. Without,
/// a window already mapped keeps its place in paint order, and a new one is
/// placed on top.
pub open spec fn map_spec(s: Seq<MappedWindow>, e: WindowElement, loc: Point, activate: bool) -> Seq<
    MappedWindow,
> {
    let m = MappedWindow { element: e, location: loc };
    let k = find_index(s, e.data().id);
    if activate {
        insert_spec(without(s, e.data().id), m, true)
    } else if k >= 0 {
        s.update(k, m)
    } else {
        s.push(m)
    }
}

/// Registry after raising the window `id`: unchanged when it is not mapped.
pub open spec fn raise_spec(s: Seq<MappedWindow>, id: u64, activate: bool) -> Seq<MappedWindow> {
    let k = find_index(s, id);
    if k >= 0 {
        insert_spec(s.remove(k), s[k], activate)
    } else {
        s
    }
}

/// Index of the topmost entry below `n` whose box contains `p`, or -1.
pub open spec fn top_index_under(s: Seq<MappedWindow>, p: FixedPoint, n: int) -> int
    decreases n,
{
    if n <= 0 {
        -1
    } else if box_contains(s[n - 1].location, s[n - 1].element.data().size, p) {
        n - 1
    } else {
        top_index_under(s, p, n - 1)
    }
}

/// The live entries, in their order.
pub open spec fn live_only(s: Seq<MappedWindow>) -> Seq<MappedWindow>
    decreases s.len(),
{
    if s.len() == 0 {
        s
    } else if s.last().element.data().alive {
        live_only(s.drop_last()).push(s.last())
    } else {
        live_only(s.drop_last())
    }
}

/// The entry at `k` carrying the window data `d`.
pub open spec fn with_window_data(s: Seq<MappedWindow>, k: int, d: WindowData) -> Seq<MappedWindow> {
    s.update(k, MappedWindow { element: s[k].element.with_data(d), ..s[k] })
}

pub proof fn lemma_find_index(s: Seq<MappedWindow>, id: u64)
    ensures
        -1 <= find_index(s, id) < s.len(),
        find_index(s, id) >= 0 ==> id_of(s[find_index(s, id)]) == id,
        find_index(s, id) == -1 ==> forall|i: int| 0 <= i < s.len() ==> id_of(s[i]) != id,
        ids_unique(s) ==> forall|i: int|
            0 <= i < s.len() && id_of(s[i]) == id ==> find_index(s, id) == i,
    decreases s.len(),
{
    if s.len() > 0 {
        let d = s.drop_last();
        lemma_find_index(d, id);
        assert forall|i: int| 0 <= i < d.len() implies #[trigger] d[i] == s[i] by {}
        if find_index(s, id) == -1 {
            assert forall|i: int| 0 <= i < s.len() implies id_of(s[i]) != id by {
                if i < s.len() - 1 {
                    assert(id_of(d[i]) != id);
                }
            }
        }
        if ids_unique(s) {
            assert(ids_unique(d));
            assert forall|i: int| 0 <= i < s.len() && id_of(s[i]) == id implies find_index(s, id)
                == i by {
                if i < s.len() - 1 {
                    assert(id_of(d[i]) == id);
                    assert(id_of(s.last()) != id);
                }
            }
        }
    }
}

proof fn lemma_insert_unique(rest: Seq<MappedWindow>, m: MappedWindow, activate: bool)
    requires
        ids_unique(rest),
        forall|i: int| 0 <= i < rest.len() ==> id_of(rest[i]) != id_of(m),
    ensures
        ids_unique(insert_spec(rest, m, activate)),
        insert_spec(rest, m, activate).len() == rest.len() + 1,
        forall|i: int|
            0 <= i < rest.len() ==> id_of(#[trigger] insert_spec(rest, m, activate)[i]) == id_of(
                rest[i],
            ),
        id_of(insert_spec(rest, m, activate)[rest.len() as int]) == id_of(m),
{
}

proof fn lemma_set_same_id_unique(s: Seq<MappedWindow>, k: int, m: MappedWindow)
    requires
        ids_unique(s),
        0 <= k < s.len(),
        id_of(m) == id_of(s[k]),
    ensures
        ids_unique(s.update(k, m)),
{
    let r = s.update(k, m);
    assert forall|i: int, j: int|
        0 <= i < r.len() && 0 <= j < r.len() && i != j implies id_of(r[i]) != id_of(r[j]) by {
        assert(id_of(r[i]) == id_of(s[i]));
        assert(id_of(r[j]) == id_of(s[j]));
    }
}

pub proof fn lemma_remove_unique(s: Seq<MappedWindow>, k: int)
    requires
        ids_unique(s),
        0 <= k < s.len(),
    ensures
        ids_unique(s.remove(k)),
        forall|i: int| 0 <= i < s.remove(k).len() ==> id_of(#[trigger] s.remove(k)[i]) != id_of(s[k]),
{
    let r = s.remove(k);
    assert forall|i: int, j: int|
        0 <= i < r.len() && 0 <= j < r.len() && i != j implies id_of(r[i]) != id_of(r[j]) by {
        let i2 = if i < k { i } else { i + 1 };
        let j2 = if j < k { j } else { j + 1 };
        assert(r[i] == s[i2]);
        assert(r[j] == s[j2]);
    }
    assert forall|i: int| 0 <= i < r.len() implies id_of(#[trigger] r[i]) != id_of(s[k]) by {
        let i2 = if i < k { i } else { i + 1 };
        assert(r[i] == s[i2]);
    }
}

/// A call that changes the paint order of the registry.
#[derive(Clone, Copy, Debug, PartialEq, Eq, Structural)]
pub enum SpaceOp {
    /// `map_element(element, location, activate)`.
    MapElement(WindowElement, Point, bool),
    /// `raise_element(id, activate)`.
    RaiseElement(u64, bool),
}

/// The window that a call names.
pub open spec fn op_id(op: SpaceOp) -> u64 {
    match op {
        SpaceOp::MapElement(e, _, _) => e.data().id,
        SpaceOp::RaiseElement(id, _) => id,
    }
}

pub open spec fn apply_op(s: Seq<MappedWindow>, op: SpaceOp) -> Seq<MappedWindow> {
    match op {
        SpaceOp::MapElement(e, loc, activate) => map_spec(s, e, loc, activate),
        SpaceOp::RaiseElement(id, activate) => raise_spec(s, id, activate),
    }
}

/// The registry after the calls `ops`, in order.
pub open spec fn apply_ops(s: Seq<MappedWindow>, ops: Seq<SpaceOp>) -> Seq<MappedWindow>
    decreases ops.len(),
{
    if ops.len() == 0 {
        s
    } else {
        apply_op(apply_ops(s, ops.drop_last()), ops.last())
    }
}

/// Whether the call `op`, made on registry `r`, puts the window `id` on
/// top: a raise of it, an activating map of it, or the map that first
/// places it.
pub open spec fn puts_on_top(r: Seq<MappedWindow>, op: SpaceOp, id: u64) -> bool {
    match op {
        SpaceOp::MapElement(e, _, activate) => e.data().id == id && (activate || find_index(r, id)
            < 0),
        SpaceOp::RaiseElement(x, _) => x == id,
    }
}

/// Where the window `id` stands after the calls `ops`: the index of the last
/// call that put it on top; for a window that no call put on top, its
/// initial place minus the initial length, which is below every call's index.
pub open spec fn paint_rank(s: Seq<MappedWindow>, ops: Seq<SpaceOp>, id: u64) -> int
    decreases ops.len(),
{
    if ops.len() == 0 {
        find_index(s, id) - s.len()
    } else if puts_on_top(apply_ops(s, ops.drop_last()), ops.last(), id) {
        ops.len() - 1
    } else {
        paint_rank(s, ops.drop_last(), id)
    }
}

/// Entries of `r` stand in increasing order of their rank after `ops`.
pub open spec fn ordered_by_rank(r: Seq<MappedWindow>, s: Seq<MappedWindow>, ops: Seq<SpaceOp>) -> bool {
    forall|i: int, j: int|
        0 <= i < j < r.len() ==> paint_rank(s, ops, id_of(r[i])) < paint_rank(
            s,
            ops,
            id_of(r[j]),
        )
}

proof fn lemma_rank_below(s: Seq<MappedWindow>, ops: Seq<SpaceOp>, id: u64)
    ensures
        paint_rank(s, ops, id) < ops.len(),
    decreases ops.len(),
{
    lemma_find_index(s, id);
    if ops.len() > 0 {
        lemma_rank_below(s, ops.drop_last(), id);
    }
}

/// Paint order follows the calls: after any sequence of `map_element` and
/// `raise_element` calls, the windows stand bottom to top in the order of the
/// most recent raise, activating map or first map of each (oldest first); a
/// map without activation of a window already mapped leaves its place as it
/// was. Windows that no such call named stay below, in their former order.
/// No identity appears twice.
pub proof fn lemma_paint_order(s: Seq<MappedWindow>, ops: Seq<SpaceOp>)
    requires
        ids_unique(s),
    ensures
        ids_unique(apply_ops(s, ops)),
        ordered_by_rank(apply_ops(s, ops), s, ops),
    decreases ops.len(),
{
    if ops.len() == 0 {
        assert forall|i: int, j: int| 0 <= i < j < s.len() implies paint_rank(s, ops, id_of(s[i]))
            < paint_rank(s, ops, id_of(s[j])) by {
            lemma_find_index(s, id_of(s[i]));
            lemma_find_index(s, id_of(s[j]));
        }
    } else {
        let prev = ops.drop_last();
        let op = ops.last();
        let x = op_id(op);
        let r1 = apply_ops(s, prev);
        lemma_paint_order(s, prev);
        lemma_find_index(r1, x);
        let k = find_index(r1, x);
        let r = apply_ops(s, ops);
        let keep = match op {
            SpaceOp::MapElement(_, _, a) => !a && k >= 0,
            SpaceOp::RaiseElement(_, _) => false,
        };
        assert forall|y: u64| y != x implies paint_rank(s, ops, y) == paint_rank(s, prev, y) by {}
        if keep {
            let m = match op {
                SpaceOp::MapElement(e, loc, _) => MappedWindow { element: e, location: loc },
                SpaceOp::RaiseElement(_, _) => r1[k],
            };
            assert(r == r1.update(k, m));
            assert(paint_rank(s, ops, x) == paint_rank(s, prev, x));
            lemma_set_same_id_unique(r1, k, m);
            assert forall|i: int, j: int| 0 <= i < j < r.len() implies paint_rank(s, ops, id_of(r[i]))
                < paint_rank(s, ops, id_of(r[j])) by {
                assert(id_of(r[i]) == id_of(r1[i]));
                assert(id_of(r[j]) == id_of(r1[j]));
            }
        } else if k < 0 && op is RaiseElement {
            assert(r == r1);
            assert forall|i: int, j: int| 0 <= i < j < r.len() implies paint_rank(s, ops, id_of(r[i]))
                < paint_rank(s, ops, id_of(r[j])) by {
                assert(id_of(r1[i]) != x);
                assert(id_of(r1[j]) != x);
            }
        } else {
            let rest = if k >= 0 { r1.remove(k) } else { r1 };
            let m = match op {
                SpaceOp::MapElement(e, loc, _) => MappedWindow { element: e, location: loc },
                SpaceOp::RaiseElement(_, _) => r1[k],
            };
            let a = match op {
                SpaceOp::MapElement(_, _, a) => a,
                SpaceOp::RaiseElement(_, a) => a,
            };
            if k >= 0 {
                lemma_remove_unique(r1, k);
            }
            assert(paint_rank(s, ops, x) == prev.len());
            assert(id_of(m) == x);
            assert(r == insert_spec(rest, m, a));
            lemma_insert_unique(rest, m, a);
            assert forall|i: int| 0 <= i < rest.len() implies paint_rank(s, ops, id_of(rest[i]))
                < prev.len() by {
                lemma_rank_below(s, prev, id_of(rest[i]));
            }
            assert forall|i: int, j: int| 0 <= i < j < r.len() implies paint_rank(s, ops, id_of(r[i]))
                < paint_rank(s, ops, id_of(r[j])) by {
                assert(id_of(r[i]) == id_of(rest[i]));
                if j < rest.len() {
                    assert(id_of(r[j]) == id_of(rest[j]));
                    if k >= 0 {
                        let i2 = if i < k { i } else { i + 1 };
                        let j2 = if j < k { j } else { j + 1 };
                        assert(rest[i] == r1[i2]);
                        assert(rest[j] == r1[j2]);
                    }
                } else {
                    assert(id_of(r[j]) == x);
                }
            }
        }
    }
}

/// The registry of mapped windows.
pub struct Space {
    elements: Vec<MappedWindow>,
}

impl View for Space {
    type V = Seq<MappedWindow>;

    closed spec fn view(&self) -> Seq<MappedWindow> {
        self.elements@
    }
}

impl Space {
    /// Well-formed: no two entries share an identity.
    pub open spec fn wf(&self) -> bool {
        ids_unique(self@)
    }

    pub fn new() -> (r: Space)
        ensures
            r@ == Seq::<MappedWindow>::empty(),
            r.wf(),
    {
        Space { elements: Vec::new() }
    }

    /// The entries in paint order, bottom first.
    pub fn elements(&self) -> (r: &Vec<MappedWindow>)
        ensures
            r@ == self@,
    {
        &self.elements
    }

    pub fn len(&self) -> (r: usize)
        ensures
            r == self@.len(),
    {
        self.elements.len()
    }

    /// Position of the window `id` in paint order.
    pub fn position_of(&self, id: u64) -> (r: Option<usize>)
        requires
            self.wf(),
        ensures
            r is None <==> find_index(self@, id) == -1,
            r is Some ==> r->0 == find_index(self@, id) && r->0 < self@.len(),
    {
        proof {
            lemma_find_index(self@, id);
        }
        let mut i: usize = 0;
        while i < self.elements.len()
            invariant
                self.wf(),
                i <= self.elements@.len(),
                forall|j: int| 0 <= j < i ==> id_of(self.elements@[j]) != id,
            decreases self.elements@.len() - i,
        {
            if self.elements[i].element.id() == id {
                proof {
                    lemma_find_index(self@, id);
                }
                return Some(i);
            }
            i = i + 1;
        }
        proof {
            lemma_find_index(self@, id);
        }
        None
    }

    /// The window `id`, if it is mapped.
    pub fn window(&self, id: u64) -> (r: Option<WindowElement>)
        requires
            self.wf(),
        ensures
            r == (if find_index(self@, id) >= 0 {
                Some(self@[find_index(self@, id)].element)
            } else {
                None
            }),
    {
        match self.position_of(id) {
            Some(k) => Some(self.elements[k].element),
            None => None,
        }
    }

    /// Where the window `id` is placed, if it is mapped.
    pub fn element_location(&self, id: u64) -> (r: Option<Point>)
        requires
            self.wf(),
        ensures
            r == (if find_index(self@, id) >= 0 {
                Some(self@[find_index(self@, id)].location)
            } else {
                None
            }),
    {
        match self.position_of(id) {
            Some(k) => Some(self.elements[k].location),
            None => None,
        }
    }

    fn insert_elem(&mut self, m: MappedWindow, activate: bool)
        ensures
            final(self)@ == insert_spec(old(self)@, m, activate),
    {
        if activate {
            let ghost rest = self@;
            let n = self.elements.len();
            let mut i: usize = 0;
            while i < n
                invariant
                    n == rest.len(),
                    self.elements@.len() == n,
                    i <= n,
                    forall|j: int| 0 <= j < i ==> self.elements@[j] == deactivated(rest[j]),
                    forall|j: int| i <= j < n ==> self.elements@[j] == rest[j],
                decreases n - i,
            {
                let mut e = self.elements[i];
                e.element.set_activate(false);
                self.elements.set(i, e);
                i = i + 1;
            }
            let mut top = m;
            top.element.set_activate(true);
            self.elements.push(top);
            assert(self@ =~= insert_spec(rest, m, activate));
        } else {
            self.elements.push(m);
        }
    }

    /// Maps `element` at `location`. With `activate`, it is raised on top of
    /// every other window and becomes the only active one; without, a window
    /// that was mapped already keeps its place, and a new one goes on top.
    pub fn map_element(&mut self, element: WindowElement, location: Point, activate: bool)
        requires
            old(self).wf(),
        ensures
            final(self).wf(),
            final(self)@ == map_spec(old(self)@, element, location, activate),
    {
        let ghost s = self@;
        let id = element.id();
        proof {
            lemma_find_index(s, id);
        }
        let m = MappedWindow { element, location };
        if !activate {
            match self.position_of(id) {
                Some(k) => {
                    self.elements.set(k, m);
                    proof {
                        lemma_set_same_id_unique(s, k as int, m);
                    }
                },
                None => {
                    self.elements.push(m);
                    proof {
                        lemma_insert_unique(s, m, false);
                    }
                },
            }
            return;
        }
        match self.position_of(id) {
            Some(k) => {
                self.elements.remove(k);
                proof {
                    lemma_remove_unique(s, k as int);
                }
            },
            None => {},
        }
        proof {
            lemma_insert_unique(without(s, id), m, activate);
        }
        self.insert_elem(m, activate);
    }

    /// Moves the window `id` to the top of the paint order; does nothing when
    /// it is not mapped. With `activate`, it becomes the only active window.
    pub fn raise_element(&mut self, id: u64, activate: bool)
        requires
            old(self).wf(),
        ensures
            final(self).wf(),
            final(self)@ == raise_spec(old(self)@, id, activate),
    {
        let ghost s = self@;
        proof {
            lemma_find_index(s, id);
        }
        match self.position_of(id) {
            Some(k) => {
                let m = self.elements.remove(k);
                proof {
                    lemma_remove_unique(s, k as int);
                    lemma_insert_unique(s.remove(k as int), m, activate);
                }
                self.insert_elem(m, activate);
            },
            None => {},
        }
    }

    /// The topmost window whose box contains `p`, with its location.
    pub fn element_under(&self, p: FixedPoint) -> (r: Option<(WindowElement, Point)>)
        ensures
            ({
                let k = top_index_under(self@, p, self@.len() as int);
                r == (if k >= 0 {
                    Some((self@[k].element, self@[k].location))
                } else {
                    None
                })
            }),
    {
        let mut n: usize = self.elements.len();
        while n > 0
            invariant
                n <= self.elements@.len(),
                top_index_under(self@, p, self@.len() as int) == top_index_under(self@, p, n as int),
            decreases n,
        {
            let m = self.elements[n - 1];
            if box_contains_point(m.location, m.element.geometry(), p) {
                return Some((m.element, m.location));
            }
            n = n - 1;
        }
        None
    }

    /// Replaces the data of the window `id`, keeping its variant and place.
    pub fn update_window(&mut self, id: u64, d: WindowData)
        requires
            old(self).wf(),
            d.id == id,
        ensures
            final(self).wf(),
            find_index(old(self)@, id) >= 0 ==> final(self)@ == with_window_data(
                old(self)@,
                find_index(old(self)@, id),
                d,
            ),
            find_index(old(self)@, id) < 0 ==> final(self)@ == old(self)@,
    {
        proof {
            lemma_find_index(self@, id);
        }
        match self.position_of(id) {
            Some(k) => {
                let mut m = self.elements[k];
                m.element = match m.element {
                    WindowElement::Xdg(_) => WindowElement::Xdg(d),
                    WindowElement::X11(_) => WindowElement::X11(d),
                };
                self.elements.set(k, m);
            },
            None => {},
        }
    }

    /// Places the window `id` at `location`, keeping its place in paint order.
    pub fn relocate(&mut self, id: u64, location: Point)
        requires
            old(self).wf(),
        ensures
            final(self).wf(),
            find_index(old(self)@, id) >= 0 ==> final(self)@ == old(self)@.update(
                find_index(old(self)@, id),
                MappedWindow { location, ..old(self)@[find_index(old(self)@, id)] },
            ),
            find_index(old(self)@, id) < 0 ==> final(self)@ == old(self)@,
    {
        proof {
            lemma_find_index(self@, id);
        }
        match self.position_of(id) {
            Some(k) => {
                let mut m = self.elements[k];
                m.location = location;
                self.elements.set(k, m);
            },
            None => {},
        }
    }

    /// Clears the activation flag of every window.
    pub fn deactivate_all(&mut self)
        requires
            old(self).wf(),
        ensures
            final(self).wf(),
            final(self)@ == old(self)@.map_values(|w: MappedWindow| deactivated(w)),
    {
        let ghost s = self@;
        let n = self.elements.len();
        let mut i: usize = 0;
        while i < n
            invariant
                n == s.len(),
                self.elements@.len() == n,
                i <= n,
                forall|j: int| 0 <= j < i ==> self.elements@[j] == deactivated(s[j]),
                forall|j: int| i <= j < n ==> self.elements@[j] == s[j],
            decreases n - i,
        {
            let mut e = self.elements[i];
            e.element.set_activate(false);
            self.elements.set(i, e);
            i = i + 1;
        }
        assert(self@ =~= s.map_values(|w: MappedWindow| deactivated(w)));
    }

    /// Drops the windows that are no longer live; the others keep their order.
    pub fn refresh(&mut self)
        requires
            old(self).wf(),
        ensures
            final(self).wf(),
            final(self)@ == live_only(old(self)@),
    {
        let ghost s = self@;
        let mut kept: Vec<MappedWindow> = Vec::new();
        let mut i: usize = 0;
        while i < self.elements.len()
            invariant
                s == self.elements@,
                ids_unique(s),
                i <= s.len(),
                kept@ == live_only(s.subrange(0, i as int)),
                ids_unique(kept@),
                forall|k: int|
                    0 <= k < kept@.len() ==> exists|j: int| 0 <= j < i && #[trigger] kept@[k] == s[j],
            decreases s.len() - i,
        {
            let m = self.elements[i];
            assert(s.subrange(0, i as int + 1).drop_last() =~= s.subrange(0, i as int));
            if m.element.alive() {
                assert forall|k: int| 0 <= k < kept@.len() implies id_of(kept@[k]) != id_of(m) by {
                    let j = choose|j: int| 0 <= j < i && kept@[k] == s[j];
                }
                kept.push(m);
                assert forall|k: int|
                    0 <= k < kept@.len() implies exists|j: int|
                        0 <= j < i + 1 && #[trigger] kept@[k] == s[j] by {
                    if k < kept@.len() - 1 {
                        let j = choose|j: int| 0 <= j < i && kept@[k] == s[j];
                        assert(0 <= j < i + 1 && kept@[k] == s[j]);
                    } else {
                        assert(kept@[k] == s[i as int]);
                    }
                }
            }
            i = i + 1;
        }
        assert(s.subrange(0, s.len() as int) =~= s);
        self.elements = kept;
    }
}

} // verus!
