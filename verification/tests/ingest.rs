use activity_tracker::errors::ErrorKind;
use activity_tracker::ingest::{
    handle_event, Dimension, EventInput, EventRow, IngestError, Store, UtcInstant,
};
use activity_tracker::resolver::{DimensionTable, NaturalKey};

fn text(s: &str) -> String {
    s.to_string()
}

fn submission() -> EventInput {
    EventInput {
        timestamp: None,
        duration: None,
        activity_type: text("save"),
        app_name: text("editorX"),
        entity_name: text("main.rs"),
        entity_type: text("file"),
        project_name: text("demo"),
        project_path: text("/tmp/demo"),
        branch_name: text("main"),
        language_name: text("rust"),
        end_timestamp: None,
    }
}

fn at(secs: i64) -> UtcInstant {
    UtcInstant { secs, nanos: 0 }
}

fn store_with(capacities: [usize; 5], event_capacity: usize) -> Store {
    Store {
        apps: DimensionTable::new(capacities[0]),
        projects: DimensionTable::new(capacities[1]),
        branches: DimensionTable::new(capacities[2]),
        entities: DimensionTable::new(capacities[3]),
        languages: DimensionTable::new(capacities[4]),
        events: Vec::new(),
        event_capacity,
    }
}

fn counts(store: &Store) -> [usize; 6] {
    [
        store.apps.len(),
        store.projects.len(),
        store.branches.len(),
        store.entities.len(),
        store.languages.len(),
        store.events.len(),
    ]
}

#[test]
fn new_store_is_empty() {
    let store = Store::new(4, 9);
    assert_eq!(counts(&store), [0, 0, 0, 0, 0, 0]);
    assert_eq!(store.event_capacity, 9);
}

#[test]
fn one_submission_records_one_event() {
    let mut store = Store::new(16, 16);
    assert_eq!(handle_event(&mut store, submission(), at(1_700_000_000)), Ok(text("Event recorded")));
    assert_eq!(counts(&store), [1, 1, 1, 1, 1, 1]);
    assert_eq!(
        store.events[0],
        EventRow {
            timestamp: at(1_700_000_000),
            duration: None,
            activity_type: text("save"),
            app_id: 1,
            entity_id: Some(1),
            project_id: Some(1),
            branch_id: Some(1),
            language_id: Some(1),
            end_timestamp: None,
        }
    );
}

#[test]
fn end_to_end_same_submission_twice() {
    let mut store = Store::new(16, 16);
    assert!(handle_event(&mut store, submission(), at(10)).is_ok());
    assert!(handle_event(&mut store, submission(), at(11)).is_ok());
    assert_eq!(counts(&store), [1, 1, 1, 1, 1, 2]);
    assert_eq!(store.events[0].app_id, store.events[1].app_id);
    assert_eq!(store.events[0].project_id, store.events[1].project_id);
    assert_eq!(store.events[0].branch_id, store.events[1].branch_id);
    assert_eq!(store.events[0].entity_id, store.events[1].entity_id);
    assert_eq!(store.events[0].language_id, store.events[1].language_id);
    assert_eq!(store.events[0].timestamp, at(10));
    assert_eq!(store.events[1].timestamp, at(11));
}

#[test]
fn branch_and_entity_are_scoped_by_project() {
    let mut store = Store::new(16, 16);
    handle_event(&mut store, submission(), at(1)).unwrap();
    let mut other = submission();
    other.project_name = text("other");
    other.project_path = text("/tmp/other");
    handle_event(&mut store, other, at(2)).unwrap();
    assert_eq!(counts(&store), [1, 2, 2, 2, 1, 2]);
    assert_eq!(store.events[0].branch_id, Some(1));
    assert_eq!(store.events[1].branch_id, Some(2));
    assert_eq!(store.events[1].project_id, Some(2));
    assert_eq!(store.events[1].entity_id, Some(2));
    assert_eq!(store.branches.lookup(&NaturalKey::branch(1, text("main"))), Some(1));
    assert_eq!(store.branches.lookup(&NaturalKey::branch(2, text("main"))), Some(2));
    assert_eq!(
        store.entities.lookup(&NaturalKey::entity(2, text("main.rs"), text("file"))),
        Some(2)
    );
}

#[test]
fn supplied_timestamps_are_stored_as_given() {
    let mut store = Store::new(16, 16);
    let mut input = submission();
    input.timestamp = Some(UtcInstant { secs: 500, nanos: 7 });
    input.end_timestamp = Some(at(100));
    input.duration = Some(-3);
    handle_event(&mut store, input, at(900)).unwrap();
    assert_eq!(store.events[0].timestamp, UtcInstant { secs: 500, nanos: 7 });
    assert_eq!(store.events[0].end_timestamp, Some(at(100)));
    assert_eq!(store.events[0].duration, Some(-3));
}

#[test]
fn atomic_record_when_entity_fails() {
    let mut store = store_with([4, 4, 4, 0, 4], 4);
    assert_eq!(
        handle_event(&mut store, submission(), at(1)),
        Err(IngestError::Resolution { dimension: Dimension::Entity })
    );
    assert_eq!(counts(&store), [0, 0, 0, 0, 0, 0]);
}

#[test]
fn each_dimension_reports_its_own_failure() {
    let dimensions = [
        Dimension::App,
        Dimension::Project,
        Dimension::Branch,
        Dimension::Entity,
        Dimension::Language,
    ];
    for (i, dimension) in dimensions.iter().enumerate() {
        let mut capacities = [4usize; 5];
        capacities[i] = 0;
        let mut store = store_with(capacities, 4);
        assert_eq!(
            handle_event(&mut store, submission(), at(1)),
            Err(IngestError::Resolution { dimension: *dimension })
        );
        assert_eq!(counts(&store), [0, 0, 0, 0, 0, 0]);
    }
}

#[test]
fn first_failing_dimension_is_reported() {
    let mut store = store_with([4, 0, 0, 4, 0], 0);
    assert_eq!(
        handle_event(&mut store, submission(), at(1)),
        Err(IngestError::Resolution { dimension: Dimension::Project })
    );
}

#[test]
fn full_event_log_is_a_record_failure() {
    let mut store = Store::new(4, 1);
    handle_event(&mut store, submission(), at(1)).unwrap();
    let mut second = submission();
    second.app_name = text("editorY");
    second.language_name = text("python");
    assert_eq!(handle_event(&mut store, second, at(2)), Err(IngestError::Record));
    assert_eq!(counts(&store), [1, 1, 1, 1, 1, 1]);
    assert_eq!(store.apps.lookup(&NaturalKey::named(text("editorY"))), None);
    assert_eq!(store.languages.lookup(&NaturalKey::named(text("python"))), None);
}

#[test]
fn failed_request_keeps_earlier_rows() {
    let mut store = store_with([4, 4, 4, 1, 4], 4);
    handle_event(&mut store, submission(), at(1)).unwrap();
    let mut second = submission();
    second.app_name = text("editorY");
    second.entity_name = text("lib.rs");
    assert_eq!(
        handle_event(&mut store, second, at(2)),
        Err(IngestError::Resolution { dimension: Dimension::Entity })
    );
    assert_eq!(counts(&store), [1, 1, 1, 1, 1, 1]);
    assert_eq!(store.apps.lookup(&NaturalKey::named(text("editorX"))), Some(1));
    assert!(handle_event(&mut store, submission(), at(3)).is_ok());
    assert_eq!(counts(&store), [1, 1, 1, 1, 1, 2]);
}

#[test]
fn record_event_appends_or_refuses() {
    let mut store = Store::new(1, 1);
    let row = EventRow {
        timestamp: at(5),
        duration: Some(4),
        activity_type: text("typing"),
        app_id: 1,
        entity_id: None,
        project_id: None,
        branch_id: None,
        language_id: None,
        end_timestamp: None,
    };
    assert_eq!(store.record_event(row.clone()), Ok(()));
    assert_eq!(store.events, vec![row.clone()]);
    assert_eq!(store.record_event(row.clone()), Err(IngestError::Record));
    assert_eq!(store.events.len(), 1);
}

#[test]
fn ingest_failures_are_persistence_failures() {
    assert_eq!(IngestError::Record.kind(), ErrorKind::PersistenceFailure);
    assert_eq!(
        IngestError::Resolution { dimension: Dimension::Branch }.kind(),
        ErrorKind::PersistenceFailure
    );
    assert_ne!(IngestError::Record, IngestError::Resolution { dimension: Dimension::App });
    assert_eq!(IngestError::Record.kind().status_code(), Some(500));
}
