//! A lookup grid for world entities. For every square it records, per side,
//! which entity occupies the adjacent square: slot 0 looks north, 1 east,
//! 2 south, 3 west. Entities are named by the plain identifier the world
//! layer assigns them.

use vstd::prelude::*;

verus! {

/// Number of sides a square has, and so of neighbour slots per square.
pub const SIDE_AMOUNT: usize = 4;

/// What an unrecorded square reads as: no neighbour on any side.
pub open spec fn all_vacant() -> Seq<Option<u64>> {
    seq![None, None, None, None]
}

/// One recorded square and its four neighbour slots.
#[derive(Debug, Copy, Clone)]
struct GridEntry {
    x: u64,
    y: u64,
    slots: [Option<u64>; 4],
}

/// The neighbour slots of the square at (x, y), read from the entry list;
/// the last entry for a key wins, and an absent key reads as vacant.
spec fn lookup(s: Seq<GridEntry>, x: u64, y: u64) -> Seq<Option<u64>>
    decreases s.len(),
{
    if s.len() == 0 {
        all_vacant()
    } else if s.last().x == x && s.last().y == y {
        s.last().slots@
    } else {
        lookup(s.drop_last(), x, y)
    }
}

spec fn keys_unique(s: Seq<GridEntry>) -> bool {
    forall|i: int, j: int|
        0 <= i < j < s.len() ==> !((#[trigger] s[i]).x == (#[trigger] s[j]).x && s[i].y == s[j].y)
}

/// Overwrite one neighbour slot of one square in the abstract grid.
pub open spec fn slot_set(
    m: Map<(u64, u64), Seq<Option<u64>>>,
    x: u64,
    y: u64,
    direction: int,
    v: Option<u64>,
) -> Map<(u64, u64), Seq<Option<u64>>> {
    m.insert((x, y), m[(x, y)].update(direction, v))
}

/// Record (or erase, for `None`) an entity at (x, y): each neighbouring
/// square that exists gains the entity in the slot of the side that faces
/// (x, y). Squares at the coordinate range's edge have fewer neighbours.
pub open spec fn neighbors_stamped(
    m: Map<(u64, u64), Seq<Option<u64>>>,
    v: Option<u64>,
    x: u64,
    y: u64,
) -> Map<(u64, u64), Seq<Option<u64>>> {
    let m = if y > 0 {
        slot_set(m, x, (y - 1) as u64, 2, v)
    } else {
        m
    };
    let m = if x < u64::MAX {
        slot_set(m, (x + 1) as u64, y, 3, v)
    } else {
        m
    };
    let m = if y < u64::MAX {
        slot_set(m, x, (y + 1) as u64, 0, v)
    } else {
        m
    };
    if x > 0 {
        slot_set(m, (x - 1) as u64, y, 1, v)
    } else {
        m
    }
}

/// The grid of recorded squares, abstractly a total map from coordinates to
/// the four neighbour slots of the square there.
pub struct PositionMap {
    entries: Vec<GridEntry>,
}

impl View for PositionMap {
    type V = Map<(u64, u64), Seq<Option<u64>>>;

    closed spec fn view(&self) -> Map<(u64, u64), Seq<Option<u64>>> {
        Map::new(|p: (u64, u64)| true, |p: (u64, u64)| lookup(self.entries@, p.0, p.1))
    }
}

proof fn lemma_lookup_absent(s: Seq<GridEntry>, x: u64, y: u64)
    requires
        forall|i: int| 0 <= i < s.len() ==> !((#[trigger] s[i]).x == x && s[i].y == y),
    ensures
        lookup(s, x, y) == all_vacant(),
    decreases s.len(),
{
    if s.len() > 0 {
        lemma_lookup_absent(s.drop_last(), x, y);
    }
}

proof fn lemma_lookup_found(s: Seq<GridEntry>, i: int)
    requires
        keys_unique(s),
        0 <= i < s.len(),
    ensures
        lookup(s, s[i].x, s[i].y) == s[i].slots@,
    decreases s.len(),
{
    if i < s.len() - 1 {
        assert(keys_unique(s.drop_last()));
        lemma_lookup_found(s.drop_last(), i);
    }
}

proof fn lemma_lookup_push(s: Seq<GridEntry>, e: GridEntry, x: u64, y: u64)
    ensures
        lookup(s.push(e), x, y) == (if e.x == x && e.y == y {
            e.slots@
        } else {
            lookup(s, x, y)
        }),
{
    assert(s.push(e).drop_last() =~= s);
}

proof fn lemma_lookup_update(s: Seq<GridEntry>, i: int, e: GridEntry, x: u64, y: u64)
    requires
        keys_unique(s),
        0 <= i < s.len(),
        s[i].x == e.x,
        s[i].y == e.y,
    ensures
        lookup(s.update(i, e), x, y) == (if e.x == x && e.y == y {
            e.slots@
        } else {
            lookup(s, x, y)
        }),
    decreases s.len(),
{
    let s2 = s.update(i, e);
    if i == s.len() - 1 {
        assert(s2.last() == e);
        if !(e.x == x && e.y == y) {
            assert(s2.drop_last() =~= s.drop_last());
        }
    } else {
        assert(s2.last() == s.last());
        assert(s2.drop_last() =~= s.drop_last().update(i, e));
        assert(keys_unique(s.drop_last()));
        lemma_lookup_update(s.drop_last(), i, e, x, y);
        if s.last().x == x && s.last().y == y {
            // the updated key sits below the last entry, so it is a
            // different key and the last entry still answers
            assert(!(e.x == x && e.y == y));
        }
    }
}

impl PositionMap {
    /// Every key occurs at most once in the entry list.
    pub closed spec fn wf(&self) -> bool {
        keys_unique(self.entries@)
    }

    /// An empty grid: every square reads as vacant on all sides.
    pub fn new() -> (r: PositionMap)
        ensures
            r.wf(),
            forall|x: u64, y: u64| r@[(x, y)] == all_vacant(),
    {
        let r = PositionMap { entries: Vec::new() };
        proof {
            assert forall|x: u64, y: u64| r@[(x, y)] == all_vacant() by {
                assert(lookup(r.entries@, x, y) == all_vacant());
            }
        }
        r
    }

    /// Overwrite one neighbour slot of the square at (x, y), creating the
    /// square's record if it has none yet.
    #[verifier::loop_isolation(false)]
    fn stamp(&mut self, x: u64, y: u64, direction: usize, value: Option<u64>)
        requires
            old(self).wf(),
            direction < SIDE_AMOUNT,
        ensures
            final(self).wf(),
            final(self)@ == slot_set(old(self)@, x, y, direction as int, value),
    {
        let ghost olds = self.entries@;
        let mut i: usize = 0;
        while i < self.entries.len()
            invariant
                i <= self.entries.len(),
                self.entries@ == olds,
                forall|j: int| 0 <= j < i ==> !((#[trigger] olds[j]).x == x && olds[j].y == y),
            decreases self.entries.len() - i,
        {
            if self.entries[i].x == x && self.entries[i].y == y {
                let mut slots = self.entries[i].slots;
                slots[direction] = value;
                let e = GridEntry { x, y, slots };
                self.entries[i] = e;
                proof {
                    lemma_lookup_found(olds, i as int);
                    assert forall|u: u64, v: u64|
                        lookup(self.entries@, u, v) == slot_set(
                            old(self)@,
                            x,
                            y,
                            direction as int,
                            value,
                        )[(u, v)] by {
                        lemma_lookup_update(olds, i as int, e, u, v);
                    }
                    assert(self@ =~~= slot_set(old(self)@, x, y, direction as int, value));
                }
                return ;
            }
            i = i + 1;
        }
        let mut slots: [Option<u64>; 4] = [None, None, None, None];
        slots[direction] = value;
        let e = GridEntry { x, y, slots };
        self.entries.push(e);
        proof {
            lemma_lookup_absent(olds, x, y);
            assert(e.slots@ =~= all_vacant().update(direction as int, value));
            assert forall|u: u64, v: u64|
                lookup(self.entries@, u, v) == slot_set(
                    old(self)@,
                    x,
                    y,
                    direction as int,
                    value,
                )[(u, v)] by {
                lemma_lookup_push(olds, e, u, v);
            }
            assert(self@ =~~= slot_set(old(self)@, x, y, direction as int, value));
        }
    }

    /// Record the entity at the given position: each neighbouring square
    /// gains it in the slot of the side facing the position.
    pub fn add(&mut self, entity: u64, position: (u64, u64))
        requires
            old(self).wf(),
        ensures
            final(self).wf(),
            final(self)@ == neighbors_stamped(old(self)@, Some(entity), position.0, position.1),
    {
        let (x, y) = position;
        if y > 0 {
            self.stamp(x, y - 1, 2, Some(entity));
        }
        if x < u64::MAX {
            self.stamp(x + 1, y, 3, Some(entity));
        }
        if y < u64::MAX {
            self.stamp(x, y + 1, 0, Some(entity));
        }
        if x > 0 {
            self.stamp(x - 1, y, 1, Some(entity));
        }
    }

    /// Erase whatever entity the neighbouring squares record at the given
    /// position.
    pub fn remove(&mut self, position: (u64, u64))
        requires
            old(self).wf(),
        ensures
            final(self).wf(),
            final(self)@ == neighbors_stamped(old(self)@, None, position.0, position.1),
    {
        let (x, y) = position;
        if y > 0 {
            self.stamp(x, y - 1, 2, None);
        }
        if x < u64::MAX {
            self.stamp(x + 1, y, 3, None);
        }
        if y < u64::MAX {
            self.stamp(x, y + 1, 0, None);
        }
        if x > 0 {
            self.stamp(x - 1, y, 1, None);
        }
    }

    /// All four neighbour slots of the square at the given position.
    #[verifier::loop_isolation(false)]
    pub fn get_neighbors(&self, position: (u64, u64)) -> (r: [Option<u64>; 4])
        requires
            self.wf(),
        ensures
            r@ == self@[(position.0, position.1)],
    {
        let (x, y) = position;
        let mut i: usize = 0;
        while i < self.entries.len()
            invariant
                i <= self.entries.len(),
                forall|j: int|
                    0 <= j < i ==> !((#[trigger] self.entries@[j]).x == x && self.entries@[j].y
                        == y),
                self.wf(),
            decreases self.entries.len() - i,
        {
            if self.entries[i].x == x && self.entries[i].y == y {
                proof {
                    lemma_lookup_found(self.entries@, i as int);
                }
                return self.entries[i].slots;
            }
            i = i + 1;
        }
        proof {
            lemma_lookup_absent(self.entries@, x, y);
        }
        let vacant: [Option<u64>; 4] = [None, None, None, None];
        proof {
            assert(vacant@ =~= all_vacant());
        }
        vacant
    }

    /// The neighbour on one side of the square at the given position.
    pub fn get_neighbor(&self, position: (u64, u64), direction: usize) -> (r: Option<u64>)
        requires
            self.wf(),
            direction < SIDE_AMOUNT,
        ensures
            r == self@[(position.0, position.1)][direction as int],
    {
        let slots = self.get_neighbors(position);
        slots[direction]
    }
}

} // verus!
