use vstd::prelude::*;

verus! {

/// Identifier of an entity: its position in the order of creation.
#[derive(Clone, Copy, Debug, PartialEq, Eq, Structural)]
pub struct Entity {
    pub index: usize,
}

/// The health of an entity.
#[derive(Debug, PartialEq)]
pub struct Health<T> {
    pub current: T,
}

/// The rate at which an entity's health grows per unit of elapsed time.
#[derive(Debug, PartialEq)]
pub struct Regeneration<T> {
    pub rate: T,
}

/// The attributes of one entity. Each of them is held at most once.
#[derive(Debug, PartialEq)]
pub struct Attributes<T> {
    pub health: Option<Health<T>>,
    pub regeneration: Option<Regeneration<T>>,
}

/// The attributes that a query asks an entity to hold.
#[derive(Clone, Copy, Debug, PartialEq, Eq, Structural)]
pub struct Required {
    pub health: bool,
    pub regeneration: bool,
}

impl<T: Copy> Clone for Health<T> {
    fn clone(&self) -> (copy: Self)
        ensures
            copy == *self,
    {
        *self
    }
}

impl<T: Copy> Copy for Health<T> {
}

impl<T: Copy> Clone for Regeneration<T> {
    fn clone(&self) -> (copy: Self)
        ensures
            copy == *self,
    {
        *self
    }
}

impl<T: Copy> Copy for Regeneration<T> {
}

impl<T: Copy> Clone for Attributes<T> {
    fn clone(&self) -> (copy: Self)
        ensures
            copy == *self,
    {
        *self
    }
}

impl<T: Copy> Copy for Attributes<T> {
}

impl<T> Attributes<T> {
    /// Whether every attribute named in `required` is held.
    pub open spec fn has_all(self, required: Required) -> bool {
        &&& required.health ==> self.health is Some
        &&& required.regeneration ==> self.regeneration is Some
    }

    /// Whether the regeneration step applies: both attributes are held.
    pub open spec fn regenerates(self) -> bool {
        self.health is Some && self.regeneration is Some
    }

    /// The attribute set that holds a health of `current` and nothing else.
    pub open spec fn with_health_spec(current: T) -> Attributes<T> {
        Attributes { health: Some(Health { current }), regeneration: None }
    }

    /// The attribute set that holds a health of `current` and a regeneration
    /// of `rate`.
    pub open spec fn with_health_and_regeneration_spec(current: T, rate: T) -> Attributes<T> {
        Attributes { health: Some(Health { current }), regeneration: Some(Regeneration { rate }) }
    }
}

impl<T: Copy> Attributes<T> {
    /// No attribute at all.
    pub fn none() -> (a: Attributes<T>)
        ensures
            a.health is None,
            a.regeneration is None,
    {
        Attributes { health: None, regeneration: None }
    }

    /// Health only.
    pub fn with_health(current: T) -> (a: Attributes<T>)
        ensures
            a == Self::with_health_spec(current),
    {
        Attributes { health: Some(Health { current }), regeneration: None }
    }

    /// Health together with a regeneration rate.
    pub fn with_health_and_regeneration(current: T, rate: T) -> (a: Attributes<T>)
        ensures
            a == Self::with_health_and_regeneration_spec(current, rate),
    {
        Attributes { health: Some(Health { current }), regeneration: Some(Regeneration { rate }) }
    }

    /// Decides `has_all` for this attribute set.
    pub fn holds(&self, required: Required) -> (b: bool)
        ensures
            b == self.has_all(required),
    {
        (!required.health || self.health.is_some())
            && (!required.regeneration || self.regeneration.is_some())
    }
}

} // verus!
