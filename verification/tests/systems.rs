use health_regen::attributes::{Attributes, Entity, Health, Regeneration, Required};
use health_regen::store::Store;

fn grow(current: f32, rate: f32, delta: f32) -> f32 {
    current + rate * delta
}

fn text(value: f32) -> String {
    format!("{}", value)
}

fn world() -> (Store<f32>, Entity, Entity) {
    let mut store: Store<f32> = Store::new();
    let (plain, growing) = store.spawn_entities(100.0, 50.0, 1.0);
    (store, plain, growing)
}

fn current(store: &Store<f32>, entity: Entity) -> f32 {
    match store.health(entity) {
        Some(h) => h.current,
        None => panic!("entity {} has no health", entity.index),
    }
}

#[test]
fn startup_creates_exactly_two_entities() {
    let (store, plain, growing) = world();
    assert_eq!(store.len(), 2);
    assert_eq!((plain.index, growing.index), (0, 1));
    assert_eq!(store.attributes(plain), Some(Attributes { health: Some(Health { current: 100.0 }), regeneration: None }));
    assert_eq!(
        store.attributes(growing),
        Some(Attributes { health: Some(Health { current: 50.0 }), regeneration: Some(Regeneration { rate: 1.0 }) })
    );
    let everyone = store.query(Required { health: false, regeneration: false });
    assert_eq!(everyone.len(), 2);
}

#[test]
fn report_before_any_tick_reads_100_and_50() {
    let (store, _, _) = world();
    let lines = store.health_report(text);
    assert_eq!(lines, vec!["Healths:".to_string(), "- 100".to_string(), "- 50".to_string()]);
}

#[test]
fn spawn_entities_appends_to_what_is_there() {
    let mut store: Store<f32> = Store::new();
    store.spawn(Attributes::none());
    let (plain, growing) = store.spawn_entities(3.0, 4.0, 5.0);
    assert_eq!((plain.index, growing.index), (1, 2));
    assert_eq!(store.len(), 3);
    assert_eq!(store.attributes(Entity { index: 0 }), Some(Attributes { health: None, regeneration: None }));
    assert_eq!(store.health(plain), Some(Health { current: 3.0 }));
    assert_eq!(store.regeneration(plain), None);
    assert_eq!(store.health(growing), Some(Health { current: 4.0 }));
    assert_eq!(store.regeneration(growing), Some(Regeneration { rate: 5.0 }));
}

#[test]
fn one_tick_of_one_second() {
    let (mut store, plain, growing) = world();
    store.regenerate_healths(1.0, grow);
    assert_eq!(current(&store, growing), 51.0);
    assert_eq!(current(&store, plain), 100.0);
}

#[test]
fn ticks_of_no_time_change_nothing() {
    let (mut store, plain, growing) = world();
    for _ in 0..25 {
        store.regenerate_healths(0.0, grow);
        assert_eq!(current(&store, plain), 100.0);
        assert_eq!(current(&store, growing), 50.0);
    }
    assert_eq!(store.len(), 2);
    assert_eq!(store.regeneration(growing), Some(Regeneration { rate: 1.0 }));
}

#[test]
fn entity_without_regeneration_keeps_its_health() {
    let (mut store, plain, _) = world();
    let deltas = [0.016_f32, 0.5, 0.0, 3.25, 1.0, 0.001, 120.0];
    for delta in deltas {
        store.regenerate_healths(delta, grow);
        assert_eq!(current(&store, plain), 100.0);
        assert_eq!(store.regeneration(plain), None);
    }
}

#[test]
fn entity_with_regeneration_grows_with_every_tick() {
    let (mut store, _, growing) = world();
    let deltas = [0.016_f32, 0.5, 3.25, 1.0, 0.001, 120.0];
    let mut last = current(&store, growing);
    for delta in deltas {
        store.regenerate_healths(delta, grow);
        let now = current(&store, growing);
        assert!(now > last, "{} is not above {}", now, last);
        last = now;
    }
}

#[test]
fn regeneration_adds_rate_times_elapsed_time() {
    let mut store: Store<f32> = Store::new();
    let e = store.spawn(Attributes::with_health_and_regeneration(50.0, 2.5));
    store.regenerate_healths(0.5, grow);
    assert_eq!(current(&store, e), 51.25);
    store.regenerate_healths(2.0, grow);
    assert_eq!(current(&store, e), 56.25);
    assert_eq!(store.regeneration(e), Some(Regeneration { rate: 2.5 }));
}

#[test]
fn regeneration_is_not_clamped() {
    let mut store: Store<f32> = Store::new();
    let e = store.spawn(Attributes::with_health_and_regeneration(50.0, 1000.0));
    for _ in 0..10 {
        store.regenerate_healths(100.0, grow);
    }
    assert_eq!(current(&store, e), 1_000_050.0);
}

#[test]
fn regeneration_without_health_is_left_alone() {
    let mut store: Store<f32> = Store::new();
    let lonely = store.spawn(Attributes { health: None, regeneration: Some(Regeneration { rate: 4.0 }) });
    let bare = store.spawn(Attributes::none());
    store.regenerate_healths(1.0, grow);
    assert_eq!(store.attributes(lonely), Some(Attributes { health: None, regeneration: Some(Regeneration { rate: 4.0 }) }));
    assert_eq!(store.attributes(bare), Some(Attributes { health: None, regeneration: None }));
    assert_eq!(store.health_report(text), vec!["Healths:".to_string()]);
}

#[test]
fn regeneration_on_an_empty_store() {
    let mut store: Store<f32> = Store::new();
    store.regenerate_healths(1.0, grow);
    assert_eq!(store.len(), 0);
}

#[test]
fn every_regenerating_entity_is_stepped_once() {
    let mut store: Store<u64> = Store::new();
    store.spawn(Attributes::with_health_and_regeneration(10, 1));
    store.spawn(Attributes::with_health(20));
    store.spawn(Attributes::with_health_and_regeneration(30, 2));
    store.spawn(Attributes::with_health_and_regeneration(40, 3));
    store.regenerate_healths(5, |current: u64, rate: u64, delta: u64| current + rate * delta);
    let healths: Vec<u64> = (0..4)
        .map(|index| match store.health(Entity { index }) {
            Some(h) => h.current,
            None => unreachable!(),
        })
        .collect();
    assert_eq!(healths, vec![15, 20, 40, 55]);
}

#[test]
fn report_of_an_empty_store_is_the_header() {
    let store: Store<f32> = Store::new();
    assert_eq!(store.health_report(text), vec!["Healths:".to_string()]);
}

#[test]
fn report_lists_healths_in_creation_order() {
    let mut store: Store<f32> = Store::new();
    store.spawn(Attributes::with_health(3.5));
    store.spawn(Attributes::none());
    store.spawn(Attributes::with_health_and_regeneration(1.0, 9.0));
    store.spawn(Attributes::with_health(-2.0));
    let lines = store.health_report(text);
    assert_eq!(
        lines,
        vec!["Healths:".to_string(), "- 3.5".to_string(), "- 1".to_string(), "- -2".to_string()]
    );
}

#[test]
fn report_uses_the_given_text_of_a_value() {
    let (store, _, _) = world();
    let lines = store.health_report(|value: f32| format!("<{:.1}>", value));
    assert_eq!(lines, vec!["Healths:".to_string(), "- <100.0>".to_string(), "- <50.0>".to_string()]);
}

#[test]
fn report_twice_reads_the_same() {
    let (mut store, _, _) = world();
    store.regenerate_healths(0.25, grow);
    let first = store.health_report(text);
    let second = store.health_report(text);
    assert_eq!(first, second);
    assert_eq!(first, vec!["Healths:".to_string(), "- 100".to_string(), "- 50.25".to_string()]);
}

#[test]
fn report_does_not_change_the_store() {
    let (store, plain, growing) = world();
    let _ = store.health_report(text);
    assert_eq!(store.len(), 2);
    assert_eq!(current(&store, plain), 100.0);
    assert_eq!(current(&store, growing), 50.0);
}

#[test]
fn tick_regenerates_and_then_reports() {
    let (mut store, plain, growing) = world();
    let lines = store.tick(1.0, grow, text);
    assert_eq!(lines, vec!["Healths:".to_string(), "- 100".to_string(), "- 51".to_string()]);
    assert_eq!(current(&store, plain), 100.0);
    assert_eq!(current(&store, growing), 51.0);
    let lines = store.tick(0.5, grow, text);
    assert_eq!(lines, vec!["Healths:".to_string(), "- 100".to_string(), "- 51.5".to_string()]);
}

#[test]
fn tick_of_no_time_reports_the_same_again() {
    let (mut store, _, _) = world();
    let first = store.tick(0.0, grow, text);
    let second = store.tick(0.0, grow, text);
    assert_eq!(first, second);
    assert_eq!(first, vec!["Healths:".to_string(), "- 100".to_string(), "- 50".to_string()]);
}
