use vstd::prelude::*;
use crate::attributes::{Attributes, Health, Required};
use crate::store::{healths, matching};
use crate::systems::{is_report, line_of, regenerated, reports};

verus! {

/// A query returns exactly the rows that hold every required attribute, each
/// once, in ascending order of their positions.
pub proof fn lemma_matching_characterised<T>(rows: Seq<Attributes<T>>, required: Required)
    ensures
        forall|k: int|
            0 <= k < matching(rows, required).len() ==> {
                let at = #[trigger] matching(rows, required)[k];
                0 <= at < rows.len() && rows[at].has_all(required)
            },
        forall|j: int, k: int|
            0 <= j < k < matching(rows, required).len() ==> matching(rows, required)[j] < matching(
                rows,
                required,
            )[k],
        forall|i: int|
            0 <= i < rows.len() && (#[trigger] rows[i]).has_all(required) ==> matching(
                rows,
                required,
            ).contains(i),
    decreases rows.len(),
{
    if rows.len() > 0 {
        let shorter = rows.drop_last();
        let earlier = matching(shorter, required);
        let all = matching(rows, required);
        lemma_matching_characterised(shorter, required);
        assert forall|i: int| 0 <= i < rows.len() && (#[trigger] rows[i]).has_all(
            required,
        ) implies all.contains(i) by {
            if i < rows.len() - 1 {
                assert(shorter[i].has_all(required));
                let k = choose|k: int| 0 <= k < earlier.len() && earlier[k] == i;
                assert(all[k] == i);
            } else {
                assert(all[all.len() - 1] == i);
            }
        }
    }
}

/// The positions of the rows that hold a health, ascending: what a query for
/// health alone finds.
pub open spec fn with_health<T>(rows: Seq<Attributes<T>>) -> Seq<int> {
    matching(rows, Required { health: true, regeneration: false })
}

/// The healths that a report lists are those of the entities that a query for
/// health finds, in the same order.
pub proof fn lemma_healths_follow_query<T>(rows: Seq<Attributes<T>>)
    ensures
        healths(rows).len() == with_health(rows).len(),
        forall|k: int|
            0 <= k < healths(rows).len() ==> 0 <= #[trigger] with_health(rows)[k] < rows.len(),
        forall|k: int|
            0 <= k < healths(rows).len() ==> rows[with_health(rows)[k]].health == Some(
                Health { current: #[trigger] healths(rows)[k] },
            ),
    decreases rows.len(),
{
    if rows.len() > 0 {
        let shorter = rows.drop_last();
        lemma_healths_follow_query(shorter);
        assert forall|k: int| 0 <= k < healths(rows).len() implies rows[with_health(
            rows,
        )[k]].health == Some(Health { current: #[trigger] healths(rows)[k] }) by {
            if k < healths(shorter).len() {
                let at = with_health(shorter)[k];
                assert(shorter[at].health == Some(Health { current: healths(shorter)[k] }));
                assert(shorter[at] == rows[at]);
            }
        }
    }
}

/// A run of ticks: `trace` holds the store before the first tick and after
/// each one, and tick number `t` took `trace[t]` to `trace[t + 1]` with an
/// elapsed time of `deltas[t]`.
pub open spec fn is_run<T, F: Fn(T, T, T) -> T>(
    trace: Seq<Seq<Attributes<T>>>,
    deltas: Seq<T>,
    step: F,
) -> bool {
    &&& trace.len() == deltas.len() + 1
    &&& forall|t: int|
        0 <= t < deltas.len() ==> regenerated(trace[t], trace[t + 1], #[trigger] deltas[t], step)
}

/// Over any number of ticks, whatever time elapsed in each, an entity without
/// regeneration keeps the attributes it started with, its health among them,
/// and no entity appears or disappears.
pub proof fn lemma_idle_entity_unchanged<T, F: Fn(T, T, T) -> T>(
    trace: Seq<Seq<Attributes<T>>>,
    deltas: Seq<T>,
    step: F,
    t: int,
    i: int,
)
    requires
        is_run(trace, deltas, step),
        0 <= t < trace.len(),
        0 <= i < trace[0].len(),
        trace[0][i].regeneration is None,
    ensures
        trace[t].len() == trace[0].len(),
        trace[t][i] == trace[0][i],
    decreases t,
{
    if t > 0 {
        lemma_idle_entity_unchanged(trace, deltas, step, t - 1, i);
        let d = deltas[t - 1];
        assert(regenerated(trace[t - 1], trace[t - 1 + 1], d, step));
    }
}

/// Over any number of ticks, every entity keeps the regeneration it started
/// with, and one that started with a health still has a health.
pub proof fn lemma_attributes_stay<T, F: Fn(T, T, T) -> T>(
    trace: Seq<Seq<Attributes<T>>>,
    deltas: Seq<T>,
    step: F,
    t: int,
    i: int,
)
    requires
        is_run(trace, deltas, step),
        0 <= t < trace.len(),
        0 <= i < trace[0].len(),
    ensures
        trace[t].len() == trace[0].len(),
        trace[t][i].regeneration == trace[0][i].regeneration,
        trace[t][i].health is Some <==> trace[0][i].health is Some,
    decreases t,
{
    if t > 0 {
        lemma_attributes_stay(trace, deltas, step, t - 1, i);
        let d = deltas[t - 1];
        assert(regenerated(trace[t - 1], trace[t - 1 + 1], d, step));
    }
}

/// Whatever `step` promises of its result for an elapsed time of `delta` holds,
/// after the regeneration step, of the new health of every entity that holds
/// both attributes.
pub proof fn lemma_step_promise_carries<T, F: Fn(T, T, T) -> T>(
    before: Seq<Attributes<T>>,
    after: Seq<Attributes<T>>,
    delta: T,
    step: F,
    promise: spec_fn(T, T, T) -> bool,
    i: int,
)
    requires
        regenerated(before, after, delta, step),
        forall|current: T, rate: T, next: T| #[trigger]
            step.ensures((current, rate, delta), next) ==> promise(current, rate, next),
        0 <= i < before.len(),
        before[i].regenerates(),
    ensures
        after[i].health is Some,
        promise(before[i].health->0.current, before[i].regeneration->0.rate, after[i].health->0.current),
{
    assert(crate::systems::regenerated_row(before[i], after[i], delta, step));
}

/// A regeneration step in which `step` adds nothing leaves the whole store as
/// it was.
pub proof fn lemma_idle_step_changes_nothing<T, F: Fn(T, T, T) -> T>(
    before: Seq<Attributes<T>>,
    after: Seq<Attributes<T>>,
    delta: T,
    step: F,
)
    requires
        regenerated(before, after, delta, step),
        adds_nothing(step, delta),
    ensures
        after == before,
{
    assert forall|i: int| 0 <= i < before.len() implies after[i] == before[i] by {
        assert(crate::systems::regenerated_row(before[i], after[i], delta, step));
    }
    assert(after =~= before);
}

/// Whether `step` hands every health back as it got it when the elapsed time
/// is `delta`, as adding nothing does.
pub open spec fn adds_nothing<T, F: Fn(T, T, T) -> T>(step: F, delta: T) -> bool {
    forall|current: T, rate: T, next: T| #[trigger]
        step.ensures((current, rate, delta), next) ==> next == current
}

/// Over any number of ticks in each of which `step` adds nothing, the store
/// stays as it started.
pub proof fn lemma_idle_run_changes_nothing<T, F: Fn(T, T, T) -> T>(
    trace: Seq<Seq<Attributes<T>>>,
    deltas: Seq<T>,
    step: F,
    t: int,
)
    requires
        is_run(trace, deltas, step),
        forall|k: int| 0 <= k < deltas.len() ==> adds_nothing(step, #[trigger] deltas[k]),
        0 <= t < trace.len(),
    ensures
        trace[t] == trace[0],
    decreases t,
{
    if t > 0 {
        lemma_idle_run_changes_nothing(trace, deltas, step, t - 1);
        let d = deltas[t - 1];
        assert(regenerated(trace[t - 1], trace[t - 1 + 1], d, step));
        lemma_idle_step_changes_nothing(trace[t - 1], trace[t], d, step);
    }
}

/// Two reports of the same store, with nothing changed in between, read the
/// same line for line, provided that `show` gives one text for one value.
pub proof fn lemma_report_repeatable<T, G: Fn(T) -> String>(
    rows: Seq<Attributes<T>>,
    show: G,
    first: Seq<String>,
    second: Seq<String>,
)
    requires
        is_report(rows, show, first),
        is_report(rows, show, second),
        forall|value: T, a: String, b: String|
            #[trigger] show.ensures((value,), a) && #[trigger] show.ensures((value,), b) ==> a@
                == b@,
    ensures
        first.len() == second.len(),
        forall|k: int| 0 <= k < first.len() ==> (#[trigger] first[k])@ == second[k]@,
{
    let values = healths(rows);
    assert forall|k: int| 0 <= k < first.len() implies (#[trigger] first[k])@ == second[k]@ by {
        if k > 0 {
            let value = values[k - 1];
            assert(reports(show, value, first[k - 1 + 1]));
            assert(reports(show, value, second[k - 1 + 1]));
            let a = choose|text: String| #[trigger]
                show.ensures((value,), text) && first[k]@ == line_of(text@);
            let b = choose|text: String| #[trigger]
                show.ensures((value,), text) && second[k]@ == line_of(text@);
            assert(a@ == b@);
        }
    }
}

} // verus!
