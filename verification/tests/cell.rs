use baremetal_rt::cell::{on_edge_event, toggled, EventSource, Observation, Observer, StateCell};

#[test]
fn one_edge_event_is_seen_as_one_transition() {
    let mut cell = StateCell::new(false);
    let mut source = EventSource::new();
    let mut observer = Observer::new(false);
    let mut reactions = 0;

    source.fire();
    on_edge_event(&mut cell, &mut source);
    assert_eq!(cell.load(), true);

    let seen = observer.observe(&cell);
    assert_eq!(seen, Observation { value: true, changed: true });
    if seen.changed {
        reactions += 1;
    }
    let seen = observer.observe(&cell);
    assert_eq!(seen, Observation { value: true, changed: false });
    if seen.changed {
        reactions += 1;
    }
    assert_eq!(reactions, 1);
}

#[test]
fn two_edge_events_between_two_looks_coalesce() {
    let mut cell = StateCell::new(false);
    let mut source = EventSource::new();
    let mut observer = Observer::new(false);

    source.fire();
    on_edge_event(&mut cell, &mut source);
    source.fire();
    on_edge_event(&mut cell, &mut source);
    assert_eq!(cell.load(), false);

    let seen = observer.observe(&cell);
    assert_eq!(seen, Observation { value: false, changed: false });
}

#[test]
fn two_edge_events_after_a_look_coalesce_too() {
    let mut cell = StateCell::new(false);
    let mut source = EventSource::new();
    let mut observer = Observer::new(false);

    on_edge_event(&mut cell, &mut source);
    assert_eq!(observer.observe(&cell), Observation { value: true, changed: true });
    on_edge_event(&mut cell, &mut source);
    on_edge_event(&mut cell, &mut source);
    assert_eq!(cell.load(), true);
    assert_eq!(observer.observe(&cell), Observation { value: true, changed: false });
    on_edge_event(&mut cell, &mut source);
    assert_eq!(observer.observe(&cell), Observation { value: false, changed: true });
}

#[test]
fn every_observation_reads_the_value_written_last() {
    // true: an edge event; false: a look at the cell.
    let interleaving = [
        true, false, true, true, false, false, true, false, true, true, true, false, true, false,
    ];
    let mut cell = StateCell::new(false);
    let mut source = EventSource::new();
    let mut observer = Observer::new(false);
    let mut written: Vec<bool> = Vec::new();
    let mut expected = false;
    for edge in interleaving {
        if edge {
            expected = !expected;
            on_edge_event(&mut cell, &mut source);
            written.push(cell.load());
            assert_eq!(cell.load(), expected);
        } else {
            let seen = observer.observe(&cell);
            assert!(written.contains(&seen.value));
            assert_eq!(Some(&seen.value), written.last());
        }
    }
}

#[test]
fn a_cell_never_written_holds_its_initial_value() {
    let cell = StateCell::new(true);
    let mut observer = Observer::new(true);
    assert_eq!(cell.load(), true);
    assert_eq!(observer.observe(&cell), Observation { value: true, changed: false });

    let cell = StateCell::new(false);
    let mut observer = Observer::new(true);
    assert_eq!(observer.observe(&cell), Observation { value: false, changed: true });
}

#[test]
fn the_handler_acknowledges_the_event() {
    let mut cell = StateCell::new(false);
    let mut source = EventSource::new();
    assert!(!source.is_pending());
    source.fire();
    assert!(source.is_pending());
    on_edge_event(&mut cell, &mut source);
    assert!(!source.is_pending());
    source.fire();
    source.acknowledge();
    assert!(!source.is_pending());
}

#[test]
fn signal_negates_the_value() {
    let mut cell = StateCell::new(false);
    cell.signal();
    assert_eq!(cell.load(), true);
    cell.signal();
    assert_eq!(cell.load(), false);
    assert_eq!(toggled(false), true);
    assert_eq!(toggled(true), false);
}

#[test]
fn detect_compares_with_the_value_seen_last() {
    let mut observer = Observer::new(false);
    assert_eq!(observer.detect(false), Observation { value: false, changed: false });
    assert_eq!(observer.detect(true), Observation { value: true, changed: true });
    assert_eq!(observer.detect(true), Observation { value: true, changed: false });
    assert_eq!(observer.detect(false), Observation { value: false, changed: true });
}
