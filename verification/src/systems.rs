use vstd::prelude::*;
use vstd::string::StringExecFns;
use crate::attributes::{Attributes, Entity};
use crate::store::{healths, Store};

verus! {

/// What the regeneration step may make of one row: a row that holds both
/// attributes gets a health that `step` can return for its current health, its
/// rate and `delta`; every other row stays as it is. The rate never changes.
pub open spec fn regenerated_row<T, F: Fn(T, T, T) -> T>(
    before: Attributes<T>,
    after: Attributes<T>,
    delta: T,
    step: F,
) -> bool {
    &&& after.regeneration == before.regeneration
    &&& match (before.health, before.regeneration) {
        (Some(h), Some(r)) => after.health is Some && step.ensures(
            (h.current, r.rate, delta),
            after.health->0.current,
        ),
        _ => after.health == before.health,
    }
}

/// What the regeneration step may make of a whole store: the same entities,
/// each row changed as `regenerated_row` says.
pub open spec fn regenerated<T, F: Fn(T, T, T) -> T>(
    before: Seq<Attributes<T>>,
    after: Seq<Attributes<T>>,
    delta: T,
    step: F,
) -> bool {
    &&& after.len() == before.len()
    &&& forall|i: int|
        0 <= i < before.len() ==> regenerated_row(before[i], #[trigger] after[i], delta, step)
}

/// Whether `step` may be called on every row that regenerates.
pub open spec fn step_applies<T, F: Fn(T, T, T) -> T>(
    rows: Seq<Attributes<T>>,
    delta: T,
    step: F,
) -> bool {
    forall|i: int|
        0 <= i < rows.len() && (#[trigger] rows[i]).regenerates() ==> step.requires(
            (rows[i].health->0.current, rows[i].regeneration->0.rate, delta),
        )
}

/// The first line of every report.
pub open spec fn header() -> Seq<char> {
    "Healths:"@
}

/// The line that reports a health whose text is `text`.
pub open spec fn line_of(text: Seq<char>) -> Seq<char> {
    "- "@ + text
}

/// Whether `line` reports `value`, with a text that `show` can return for it.
pub open spec fn reports<T, G: Fn(T) -> String>(show: G, value: T, line: String) -> bool {
    exists|text: String| #[trigger] show.ensures((value,), text) && line@ == line_of(text@)
}

/// Whether `lines` is a report of `rows`: the header, then one line for each
/// health in the order of the rows.
pub open spec fn is_report<T, G: Fn(T) -> String>(
    rows: Seq<Attributes<T>>,
    show: G,
    lines: Seq<String>,
) -> bool {
    let values = healths(rows);
    &&& lines.len() == values.len() + 1
    &&& lines[0]@ == header()
    &&& forall|k: int|
        0 <= k < values.len() ==> reports(show, #[trigger] values[k], lines[k + 1])
}

/// Whether `show` may be called on every health in `rows`.
pub open spec fn show_applies<T, G: Fn(T) -> String>(rows: Seq<Attributes<T>>, show: G) -> bool {
    forall|i: int|
        0 <= i < rows.len() && (#[trigger] rows[i]).health is Some ==> show.requires(
            (rows[i].health->0.current,),
        )
}

/// Whether `show` may be called on every health of every store that the
/// regeneration step may leave behind.
pub open spec fn show_applies_after<T, F: Fn(T, T, T) -> T, G: Fn(T) -> String>(
    rows: Seq<Attributes<T>>,
    delta: T,
    step: F,
    show: G,
) -> bool {
    forall|after: Seq<Attributes<T>>| #[trigger]
        regenerated(rows, after, delta, step) ==> show_applies(after, show)
}

impl<T: Copy> Store<T> {
    /// Creates the two entities that a world starts with: the first holds a
    /// health of `first` and nothing else, the second a health of `second` and a
    /// regeneration of `rate`.
    pub fn spawn_entities(&mut self, first: T, second: T, rate: T) -> (created: (Entity, Entity))
        ensures
            final(self)@ == old(self)@.push(Attributes::with_health_spec(first)).push(
                Attributes::with_health_and_regeneration_spec(second, rate),
            ),
            created.0.index == old(self)@.len(),
            created.1.index == old(self)@.len() + 1,
    {
        let plain = self.spawn(Attributes::with_health(first));
        let growing = self.spawn(Attributes::with_health_and_regeneration(second, rate));
        (plain, growing)
    }

    /// The regeneration step: every entity that holds both a health and a
    /// regeneration gets the health that `step` returns for its current health,
    /// its rate and `delta`. Nothing else changes.
    pub fn regenerate_healths<F: Fn(T, T, T) -> T>(&mut self, delta: T, step: F)
        requires
            step_applies(old(self)@, delta, step),
        ensures
            regenerated(old(self)@, final(self)@, delta, step),
    {
        let n: usize = self.len();
        let mut i: usize = 0;
        while i < n
            invariant
                i <= n,
                n == old(self)@.len(),
                self@.len() == n,
                step_applies(old(self)@, delta, step),
                forall|k: int|
                    0 <= k < i ==> regenerated_row(old(self)@[k], #[trigger] self@[k], delta, step),
                forall|k: int| i <= k < n ==> #[trigger] self@[k] == old(self)@[k],
            decreases n - i,
        {
            let entity = Entity { index: i };
            if let Some(row) = self.attributes(entity) {
                if let (Some(h), Some(r)) = (row.health, row.regeneration) {
                    assert(old(self)@[i as int].regenerates());
                    let next = step(h.current, r.rate, delta);
                    self.set_health(entity, next);
                }
            }
            i += 1;
        }
    }

    /// The reporting step: the header, then for each health in the store one
    /// line with the text that `show` returns for it, in the order of the
    /// entities. The store is only read.
    pub fn health_report<G: Fn(T) -> String>(&self, show: G) -> (lines: Vec<String>)
        requires
            show_applies(self@, show),
        ensures
            is_report(self@, show, lines@),
    {
        let mut lines: Vec<String> = Vec::new();
        lines.push(String::from_str("Healths:"));
        let n: usize = self.len();
        let mut i: usize = 0;
        while i < n
            invariant
                i <= n,
                n == self@.len(),
                show_applies(self@, show),
                is_report(self@.take(i as int), show, lines@),
            decreases n - i,
        {
            proof {
                let next = self@.take(i + 1);
                assert(next.drop_last() =~= self@.take(i as int));
                assert(next.last() == self@[i as int]);
            }
            if let Some(h) = self.health(Entity { index: i }) {
                let text = show(h.current);
                let line = String::from_str("- ").concat(text.as_str());
                assert(reports(show, h.current, line));
                lines.push(line);
            }
            i += 1;
        }
        proof {
            assert(self@.take(i as int) =~= self@);
        }
        lines
    }

    /// One tick: the regeneration step, then the reporting step on its result.
    pub fn tick<F: Fn(T, T, T) -> T, G: Fn(T) -> String>(
        &mut self,
        delta: T,
        step: F,
        show: G,
    ) -> (lines: Vec<String>)
        requires
            step_applies(old(self)@, delta, step),
            show_applies_after(old(self)@, delta, step, show),
        ensures
            regenerated(old(self)@, final(self)@, delta, step),
            is_report(final(self)@, show, lines@),
    {
        self.regenerate_healths(delta, step);
        self.health_report(show)
    }
}

} // verus!
