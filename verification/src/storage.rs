//! Entity identifiers and the sparse per-type tables that hold components.

use vstd::prelude::*;

verus! {

/// A handle to an entity: the slot it lives in and the generation of that slot
/// at the time the entity was made.
#[derive(Clone, Copy, Debug, PartialEq, Eq, Structural)]
pub struct Entity {
    pub index: usize,
    pub generation: u64,
}

/// What a slot of the entity table currently is.
#[derive(Clone, Copy, Debug, PartialEq, Eq, Structural)]
pub enum Life {
    /// No entity lives here and no component is stored for the slot.
    Free,
    /// An entity lives here.
    Alive,
    /// The entity was deleted; its components await the next sync point.
    Killed,
}

/// One slot of the entity table.
#[derive(Clone, Copy, Debug, PartialEq, Eq, Structural)]
pub struct Slot {
    pub generation: u64,
    pub life: Life,
}

/// The error of deleting through a handle whose entity is no longer alive.
#[derive(Clone, Copy, Debug, PartialEq, Eq, Structural)]
pub struct WrongGeneration;

/// A slot that `create` may hand out again.
pub open spec fn reusable(slot: Slot) -> bool {
    slot.life == Life::Free && slot.generation < u64::MAX
}

/// The first slot of `s` from slot `k` on that `create` may hand out again,
/// and the length of `s` where there is none.
pub open spec fn first_reusable_from(s: Seq<Slot>, k: int) -> int
    decreases s.len() - k,
{
    if k >= s.len() {
        s.len() as int
    } else if k >= 0 && reusable(s[k]) {
        k
    } else {
        first_reusable_from(s, k + 1)
    }
}

/// The slot that the next entity gets: the first one that may be handed out
/// again, and a new one at the end where there is none.
pub open spec fn first_reusable(s: Seq<Slot>) -> int {
    first_reusable_from(s, 0)
}

/// The table after an entity was made: it lives in the slot that
/// `first_reusable` names, with the generation of that slot raised by one,
/// or with generation zero in a new slot.
pub open spec fn created(s: Seq<Slot>) -> Seq<Slot> {
    let i = first_reusable(s);
    if i < s.len() {
        s.update(i, Slot { generation: (s[i].generation + 1) as u64, life: Life::Alive })
    } else {
        s.push(Slot { generation: 0, life: Life::Alive })
    }
}

/// The slot that `first_reusable_from` names lies between the start of the
/// search and the end of the table, is reusable unless it is the end, and no
/// slot of the search before it is.
pub proof fn lemma_first_reusable_from(s: Seq<Slot>, k: int)
    requires
        0 <= k <= s.len(),
    ensures
        k <= first_reusable_from(s, k) <= s.len(),
        first_reusable_from(s, k) < s.len() ==> reusable(s[first_reusable_from(s, k)]),
        forall|j: int| k <= j < first_reusable_from(s, k) ==> !reusable(#[trigger] s[j]),
    decreases s.len() - k,
{
    if k < s.len() && !reusable(s[k]) {
        lemma_first_reusable_from(s, k + 1);
    }
}

/// Every killed slot of `s` made free, the others kept.
pub open spec fn swept(s: Seq<Slot>) -> Seq<Slot> {
    Seq::new(
        s.len(),
        |i: int|
            if s[i].life == Life::Killed {
                Slot { generation: s[i].generation, life: Life::Free }
            } else {
                s[i]
            },
    )
}

/// Every living slot of `s` killed, the others kept.
pub open spec fn all_killed(s: Seq<Slot>) -> Seq<Slot> {
    Seq::new(
        s.len(),
        |i: int|
            if s[i].life == Life::Alive {
                Slot { generation: s[i].generation, life: Life::Killed }
            } else {
                s[i]
            },
    )
}

/// Whether slot `i` of `s` holds a living entity.
pub open spec fn alive_in(s: Seq<Slot>, i: int) -> bool {
    0 <= i < s.len() && s[i].life == Life::Alive
}

/// The slots of `s` whose entity was deleted and not yet swept.
pub open spec fn killed_slots(s: Seq<Slot>) -> Set<int> {
    Set::new(|i: int| 0 <= i < s.len() && s[i].life == Life::Killed)
}

/// The entity table: allocates identifiers, recycles the slots of entities
/// that were deleted, and answers whether a handle is still good.
pub struct Entities {
    slots: Vec<Slot>,
}

impl View for Entities {
    type V = Seq<Slot>;

    closed spec fn view(&self) -> Seq<Slot> {
        self.slots@
    }
}

impl Entities {
    /// Whether `e` names a living entity of this table.
    pub open spec fn alive(&self, e: Entity) -> bool {
        alive_in(self@, e.index as int) && self@[e.index as int].generation == e.generation
    }

    /// An empty table.
    pub fn new() -> (r: Entities)
        ensures
            r@ == Seq::<Slot>::empty(),
    {
        Entities { slots: Vec::new() }
    }

    /// The number of slots, free ones included.
    pub fn len(&self) -> (n: usize)
        ensures
            n == self@.len(),
    {
        self.slots.len()
    }

    /// Whether slot `i` holds a living entity.
    pub fn alive_at(&self, i: usize) -> (b: bool)
        ensures
            b == alive_in(self@, i as int),
    {
        i < self.slots.len() && self.slots[i].life == Life::Alive
    }

    /// Whether the entity of slot `i` was deleted since the last sync point.
    pub fn killed_at(&self, i: usize) -> (b: bool)
        ensures
            b == killed_slots(self@).contains(i as int),
    {
        i < self.slots.len() && self.slots[i].life == Life::Killed
    }

    /// The handle of the entity living in slot `i`, if one does.
    pub fn entity_at(&self, i: usize) -> (r: Option<Entity>)
        ensures
            r == if alive_in(self@, i as int) {
                Some(Entity { index: i, generation: self@[i as int].generation })
            } else {
                None
            },
    {
        if i < self.slots.len() && self.slots[i].life == Life::Alive {
            Some(Entity { index: i, generation: self.slots[i].generation })
        } else {
            None
        }
    }

    /// Whether `e` names a living entity.
    pub fn is_alive(&self, e: Entity) -> (b: bool)
        ensures
            b == self.alive(e),
    {
        e.index < self.slots.len() && self.slots[e.index].life == Life::Alive
            && self.slots[e.index].generation == e.generation
    }

    /// The number of living entities.
    pub fn count_alive(&self) -> (n: usize)
        ensures
            n == count_living(self@, self@.len() as int),
    {
        let mut n: usize = 0;
        let mut i: usize = 0;
        while i < self.slots.len()
            invariant
                i <= self.slots.len(),
                n == count_living(self@, i as int),
                n <= i,
            decreases self.slots.len() - i,
        {
            if self.slots[i].life == Life::Alive {
                n = n + 1;
            }
            i = i + 1;
        }
        n
    }

    /// Makes a new entity. The first reusable slot is taken, with its
    /// generation raised by one; where there is none the table grows by a slot
    /// of generation zero.
    pub fn create(&mut self) -> (e: Entity)
        ensures
            e.index == first_reusable(old(self)@),
            final(self)@ == created(old(self)@),
            final(self).alive(e),
            e.generation == final(self)@[e.index as int].generation,
    {
        let mut i: usize = 0;
        proof {
            lemma_first_reusable_from(self.slots@, 0);
        }
        while i < self.slots.len()
            invariant
                i <= self.slots.len(),
                self.slots@ == old(self).slots@,
                first_reusable_from(self.slots@, i as int) == first_reusable(self.slots@),
            decreases self.slots.len() - i,
        {
            let slot = self.slots[i];
            if slot.life == Life::Free && slot.generation < u64::MAX {
                let generation: u64 = slot.generation + 1;
                self.slots[i] = Slot { generation, life: Life::Alive };
                return Entity { index: i, generation };
            }
            i = i + 1;
        }
        self.slots.push(Slot { generation: 0, life: Life::Alive });
        Entity { index: i, generation: 0 }
    }

    /// Deletes `e` at once: from here on it is not alive. A handle that names
    /// no living entity is refused and changes nothing.
    pub fn delete(&mut self, e: Entity) -> (r: Result<(), WrongGeneration>)
        ensures
            r is Ok <==> old(self).alive(e),
            final(self)@ == if old(self).alive(e) {
                old(self)@.update(
                    e.index as int,
                    Slot { generation: e.generation, life: Life::Killed },
                )
            } else {
                old(self)@
            },
    {
        if self.is_alive(e) {
            self.slots[e.index] = Slot { generation: e.generation, life: Life::Killed };
            Ok(())
        } else {
            Err(WrongGeneration)
        }
    }

    /// Deletes every living entity.
    pub fn delete_all(&mut self)
        ensures
            final(self)@ == all_killed(old(self)@),
    {
        let mut i: usize = 0;
        while i < self.slots.len()
            invariant
                i <= self.slots.len(),
                self.slots@.len() == old(self).slots@.len(),
                forall|j: int|
                    0 <= j < i ==> #[trigger] self.slots@[j] == all_killed(old(self).slots@)[j],
                forall|j: int|
                    i <= j < self.slots@.len() ==> #[trigger] self.slots@[j] == old(self).slots@[j],
            decreases self.slots.len() - i,
        {
            let slot = self.slots[i];
            if slot.life == Life::Alive {
                self.slots[i] = Slot { generation: slot.generation, life: Life::Killed };
            }
            i = i + 1;
        }
        assert(self.slots@ =~= all_killed(old(self).slots@));
    }

    /// Frees the slots of the entities that were deleted. This belongs to the
    /// sync point, after their components have been dropped.
    pub fn sweep(&mut self)
        ensures
            final(self)@ == swept(old(self)@),
    {
        let mut i: usize = 0;
        while i < self.slots.len()
            invariant
                i <= self.slots.len(),
                self.slots@.len() == old(self).slots@.len(),
                forall|j: int|
                    0 <= j < i ==> #[trigger] self.slots@[j] == swept(old(self).slots@)[j],
                forall|j: int|
                    i <= j < self.slots@.len() ==> #[trigger] self.slots@[j] == old(self).slots@[j],
            decreases self.slots.len() - i,
        {
            let slot = self.slots[i];
            if slot.life == Life::Killed {
                self.slots[i] = Slot { generation: slot.generation, life: Life::Free };
            }
            i = i + 1;
        }
        assert(self.slots@ =~= swept(old(self).slots@));
    }
}

/// The number of living slots among the first `n` of `s`.
pub open spec fn count_living(s: Seq<Slot>, n: int) -> nat
    decreases n,
{
    if n <= 0 {
        0
    } else {
        count_living(s, n - 1) + if alive_in(s, n - 1) {
            1nat
        } else {
            0nat
        }
    }
}

/// A sparse table from slot index to the component of one type that the
/// entity in that slot owns.
pub struct Storage<T> {
    slots: Vec<Option<T>>,
}

impl<T> View for Storage<T> {
    type V = Map<int, T>;

    closed spec fn view(&self) -> Map<int, T> {
        Map::new(
            |i: int| 0 <= i < self.slots@.len() && self.slots@[i] is Some,
            |i: int| self.slots@[i]->0,
        )
    }
}

impl<T> Storage<T> {
    /// The component stored for slot `i`, if there is one.
    pub open spec fn at(&self, i: int) -> Option<T> {
        if self@.dom().contains(i) {
            Some(self@[i])
        } else {
            None
        }
    }

    /// A table that holds nothing.
    pub fn new() -> (r: Storage<T>)
        ensures
            r@ == Map::<int, T>::empty(),
    {
        let r = Storage { slots: Vec::new() };
        assert(r@ =~= Map::<int, T>::empty());
        r
    }

    /// Whether a component is stored for slot `i`.
    pub fn contains(&self, i: usize) -> (b: bool)
        ensures
            b == self@.dom().contains(i as int),
    {
        i < self.slots.len() && self.slots[i].is_some()
    }

    /// The component stored for slot `i`.
    pub fn get(&self, i: usize) -> (r: Option<&T>)
        ensures
            r == match self.at(i as int) {
                Some(c) => Some(&c),
                None => None,
            },
    {
        if i < self.slots.len() {
            self.slots[i].as_ref()
        } else {
            None
        }
    }

    /// The component stored for slot `i`, to be changed in place.
    pub fn get_mut(&mut self, i: usize) -> (r: Option<&mut T>)
        ensures
            match r {
                Some(c) => old(self).at(i as int) == Some(*c) && final(self)@ == old(self)@.insert(
                    i as int,
                    *final(c),
                ),
                None => old(self).at(i as int) is None && final(self)@ == old(self)@,
            },
    {
        if i < self.slots.len() {
            self.slots[i].as_mut()
        } else {
            None
        }
    }

    /// Stores `value` for slot `i` and hands back what was stored before.
    pub fn insert(&mut self, i: usize, value: T) -> (r: Option<T>)
        ensures
            final(self)@ == old(self)@.insert(i as int, value),
            r == old(self).at(i as int),
    {
        while self.slots.len() <= i
            invariant
                self@ == old(self)@,
            decreases i + 1 - self.slots.len(),
        {
            let ghost before = self@;
            self.slots.push(None);
            assert(self@ =~= before);
        }
        let ghost before = self@;
        let mut cell: Option<T> = Some(value);
        core::mem::swap(&mut self.slots[i], &mut cell);
        assert(self@ =~= before.insert(i as int, value));
        cell
    }

    /// Drops the component of slot `i` and hands it back.
    pub fn remove(&mut self, i: usize) -> (r: Option<T>)
        ensures
            final(self)@ == old(self)@.remove(i as int),
            r == old(self).at(i as int),
    {
        if i < self.slots.len() {
            let ghost before = self@;
            let r = self.slots[i].take();
            assert(self@ =~= before.remove(i as int));
            r
        } else {
            assert(self@ =~= self@.remove(i as int));
            None
        }
    }

    /// Drops the components of every slot whose entity was deleted.
    pub fn purge(&mut self, entities: &Entities)
        ensures
            final(self)@ == old(self)@.remove_keys(killed_slots(entities@)),
    {
        let n: usize = if self.slots.len() < entities.len() {
            self.slots.len()
        } else {
            entities.len()
        };
        let mut i: usize = 0;
        while i < n
            invariant
                i <= n,
                n <= self.slots@.len(),
                n <= entities@.len(),
                self.slots@.len() == old(self).slots@.len(),
                forall|j: int|
                    0 <= j < i ==> #[trigger] self.slots@[j] == if entities@[j].life
                        == Life::Killed {
                        None
                    } else {
                        old(self).slots@[j]
                    },
                forall|j: int|
                    i <= j < self.slots@.len() ==> #[trigger] self.slots@[j] == old(self).slots@[j],
            decreases n - i,
        {
            if entities.killed_at(i) {
                self.slots[i] = None;
            }
            i = i + 1;
        }
        assert(self@ =~= old(self)@.remove_keys(killed_slots(entities@)));
    }

    /// Drops every component.
    pub fn clear(&mut self)
        ensures
            final(self)@ == Map::<int, T>::empty(),
    {
        self.slots.clear();
        assert(self@ =~= Map::<int, T>::empty());
    }
}

/// Whether the handle `e` is spent in the table `s`: its slot has moved on
/// to a later generation, or holds no living entity of its own.
pub open spec fn spent(s: Seq<Slot>, e: Entity) -> bool {
    e.index < s.len() && (s[e.index as int].generation > e.generation || (s[e.index as int].generation
        == e.generation && s[e.index as int].life != Life::Alive))
}

/// The table after the entity of the handle `e` was deleted, if it was
/// alive.
pub open spec fn deleted(s: Seq<Slot>, e: Entity) -> Seq<Slot> {
    if alive_in(s, e.index as int) && s[e.index as int].generation == e.generation {
        s.update(e.index as int, Slot { generation: e.generation, life: Life::Killed })
    } else {
        s
    }
}

/// No handle dangles. The handle of a deleted entity is spent and names no
/// living entity; and a spent handle stays spent whatever is made, deleted
/// or swept after, so that it never comes to name the entity that takes over
/// its slot.
pub proof fn law_spent_handles_stay_spent(s: Seq<Slot>, e: Entity, other: Entity)
    ensures
        alive_in(s, e.index as int) && s[e.index as int].generation == e.generation ==> spent(
            deleted(s, e),
            e,
        ),
        spent(s, e) ==> !(alive_in(s, e.index as int) && s[e.index as int].generation
            == e.generation),
        spent(s, e) ==> spent(created(s), e),
        spent(s, e) ==> spent(swept(s), e),
        spent(s, e) ==> spent(deleted(s, other), e),
        spent(s, e) ==> spent(all_killed(s), e),
{
    lemma_first_reusable_from(s, 0);
}

} // verus!
