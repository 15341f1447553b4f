use vstd::prelude::*;
use crate::attributes::{Attributes, Entity, Health, Regeneration, Required};

verus! {

/// The entities of a world, in the order in which they were created.
///
/// An entity is identified by its position in that order, and nothing is ever
/// removed, so an identifier stays valid once it has been handed out.
pub struct Store<T> {
    rows: Vec<Attributes<T>>,
}

impl<T> View for Store<T> {
    type V = Seq<Attributes<T>>;

    closed spec fn view(&self) -> Seq<Attributes<T>> {
        self.rows@
    }
}

/// The positions of the rows that hold every attribute in `required`, ascending.
pub open spec fn matching<T>(rows: Seq<Attributes<T>>, required: Required) -> Seq<int>
    decreases rows.len(),
{
    if rows.len() == 0 {
        Seq::empty()
    } else {
        let earlier = matching(rows.drop_last(), required);
        if rows.last().has_all(required) {
            earlier.push(rows.len() - 1)
        } else {
            earlier
        }
    }
}

/// The health values of the rows that hold one, in the order of the rows.
pub open spec fn healths<T>(rows: Seq<Attributes<T>>) -> Seq<T>
    decreases rows.len(),
{
    if rows.len() == 0 {
        Seq::empty()
    } else {
        let earlier = healths(rows.drop_last());
        match rows.last().health {
            Some(h) => earlier.push(h.current),
            None => earlier,
        }
    }
}

impl<T: Copy> Store<T> {
    /// Whether `entity` was handed out by this store.
    pub open spec fn contains(self, entity: Entity) -> bool {
        entity.index < self@.len()
    }

    /// A store without entities.
    pub fn new() -> (s: Store<T>)
        ensures
            s@ == Seq::<Attributes<T>>::empty(),
    {
        Store { rows: Vec::new() }
    }

    /// The number of entities created so far.
    pub fn len(&self) -> (n: usize)
        ensures
            n == self@.len(),
    {
        self.rows.len()
    }

    /// Creates an entity with the given attributes, after all existing ones,
    /// and returns its identifier.
    pub fn spawn(&mut self, attributes: Attributes<T>) -> (entity: Entity)
        ensures
            final(self)@ == old(self)@.push(attributes),
            entity.index == old(self)@.len(),
    {
        let index: usize = self.rows.len();
        self.rows.push(attributes);
        Entity { index }
    }

    /// The attributes of `entity`, or `None` for an identifier that this store
    /// has not handed out.
    pub fn attributes(&self, entity: Entity) -> (a: Option<Attributes<T>>)
        ensures
            a == if self.contains(entity) {
                Some(self@[entity.index as int])
            } else {
                None
            },
    {
        if entity.index < self.rows.len() {
            Some(self.rows[entity.index])
        } else {
            None
        }
    }

    /// The health of `entity`, if it is known to the store and holds one.
    pub fn health(&self, entity: Entity) -> (h: Option<Health<T>>)
        ensures
            h == if self.contains(entity) {
                self@[entity.index as int].health
            } else {
                None
            },
    {
        if entity.index < self.rows.len() {
            self.rows[entity.index].health
        } else {
            None
        }
    }

    /// The regeneration of `entity`, if it is known to the store and holds one.
    pub fn regeneration(&self, entity: Entity) -> (r: Option<Regeneration<T>>)
        ensures
            r == if self.contains(entity) {
                self@[entity.index as int].regeneration
            } else {
                None
            },
    {
        if entity.index < self.rows.len() {
            self.rows[entity.index].regeneration
        } else {
            None
        }
    }

    /// Replaces the health value of `entity`. Returns whether anything was
    /// replaced: the entity must be known and already hold a health.
    pub fn set_health(&mut self, entity: Entity, current: T) -> (done: bool)
        ensures
            done == (old(self).contains(entity) && old(self)@[entity.index as int].health is Some),
            done ==> final(self)@ == old(self)@.update(
                entity.index as int,
                (Attributes {
                    health: Some(Health { current }),
                    regeneration: old(self)@[entity.index as int].regeneration,
                }),
            ),
            !done ==> final(self)@ == old(self)@,
    {
        if entity.index < self.rows.len() {
            let row = self.rows[entity.index];
            if row.health.is_some() {
                self.rows.set(
                    entity.index,
                    Attributes { health: Some(Health { current }), regeneration: row.regeneration },
                );
                return true;
            }
        }
        false
    }

    /// The entities that hold every attribute in `required`, in the order of
    /// their creation.
    pub fn query(&self, required: Required) -> (found: Vec<Entity>)
        ensures
            found@.len() == matching(self@, required).len(),
            forall|k: int|
                0 <= k < found@.len() ==> (#[trigger] found@[k]).index == matching(
                    self@,
                    required,
                )[k],
    {
        let mut found: Vec<Entity> = Vec::new();
        let mut i: usize = 0;
        while i < self.rows.len()
            invariant
                i <= self.rows@.len(),
                found@.len() == matching(self.rows@.take(i as int), required).len(),
                forall|k: int|
                    0 <= k < found@.len() ==> (#[trigger] found@[k]).index == matching(
                        self.rows@.take(i as int),
                        required,
                    )[k],
            decreases self.rows@.len() - i,
        {
            proof {
                let next = self.rows@.take(i + 1);
                assert(next.drop_last() =~= self.rows@.take(i as int));
                assert(next.last() == self.rows@[i as int]);
            }
            if self.rows[i].holds(required) {
                found.push(Entity { index: i });
            }
            i += 1;
        }
        proof {
            assert(self.rows@.take(i as int) =~= self.rows@);
        }
        found
    }
}

} // verus!
