use activity_tracker::errors::ErrorKind;
use activity_tracker::resolver::{DimensionTable, NaturalKey};

fn text(s: &str) -> String {
    s.to_string()
}

#[test]
fn new_table_is_empty() {
    let table = DimensionTable::new(8);
    assert_eq!(table.len(), 0);
    assert_eq!(table.lookup(&NaturalKey::named(text("rust"))), None);
}

#[test]
fn ids_are_assigned_in_order_from_one() {
    let mut table = DimensionTable::new(8);
    assert_eq!(table.find_or_insert(NaturalKey::named(text("rust"))), Ok(1));
    assert_eq!(table.find_or_insert(NaturalKey::named(text("python"))), Ok(2));
    assert_eq!(table.find_or_insert(NaturalKey::named(text("go"))), Ok(3));
    assert_eq!(table.len(), 3);
    assert_eq!(table.lookup(&NaturalKey::named(text("python"))), Some(2));
    assert_eq!(table.lookup(&NaturalKey::named(text("zig"))), None);
}

#[test]
fn idempotent_resolution() {
    let mut table = DimensionTable::new(8);
    table.find_or_insert(NaturalKey::project(text("other"), text("/tmp/other"))).unwrap();
    let mut ids: Vec<u64> = Vec::new();
    for _ in 0..5 {
        ids.push(table.find_or_insert(NaturalKey::project(text("foo"), text("/tmp/foo"))).unwrap());
    }
    assert_eq!(ids, vec![2, 2, 2, 2, 2]);
    assert_eq!(table.len(), 2);
}

#[test]
fn resolution_is_stable_across_other_inserts() {
    let mut table = DimensionTable::new(8);
    let first = table.find_or_insert(NaturalKey::named(text("editorX"))).unwrap();
    table.find_or_insert(NaturalKey::named(text("editorY"))).unwrap();
    table.find_or_insert(NaturalKey::named(text("editorZ"))).unwrap();
    let again = table.find_or_insert(NaturalKey::named(text("editorX"))).unwrap();
    assert_eq!(first, again);
    assert_eq!(table.len(), 3);
}

#[test]
fn scoped_uniqueness() {
    let mut table = DimensionTable::new(8);
    let in_first = table.find_or_insert(NaturalKey::branch(1, text("main"))).unwrap();
    let in_second = table.find_or_insert(NaturalKey::branch(2, text("main"))).unwrap();
    assert_ne!(in_first, in_second);
    assert_eq!(table.len(), 2);
    assert_eq!(table.find_or_insert(NaturalKey::branch(1, text("main"))), Ok(in_first));
    assert_eq!(table.find_or_insert(NaturalKey::branch(2, text("main"))), Ok(in_second));
    assert_eq!(table.len(), 2);
}

#[test]
fn entity_type_and_project_path_are_part_of_the_key() {
    let mut table = DimensionTable::new(8);
    let file = table.find_or_insert(NaturalKey::entity(1, text("main.rs"), text("file"))).unwrap();
    let symbol =
        table.find_or_insert(NaturalKey::entity(1, text("main.rs"), text("symbol"))).unwrap();
    let elsewhere =
        table.find_or_insert(NaturalKey::entity(2, text("main.rs"), text("file"))).unwrap();
    assert_eq!((file, symbol, elsewhere), (1, 2, 3));
    let mut projects = DimensionTable::new(8);
    let a = projects.find_or_insert(NaturalKey::project(text("demo"), text("/tmp/demo"))).unwrap();
    let b = projects.find_or_insert(NaturalKey::project(text("demo"), text("/srv/demo"))).unwrap();
    assert_ne!(a, b);
}

#[test]
fn key_shapes_do_not_collide() {
    let named = NaturalKey::named(text("main"));
    let branch = NaturalKey::branch(1, text("main"));
    let project = NaturalKey::project(text("main"), text(""));
    let entity = NaturalKey::entity(1, text("main"), text(""));
    assert!(named.same_as(&NaturalKey::named(text("main"))));
    assert!(!named.same_as(&branch));
    assert!(!named.same_as(&project));
    assert!(!branch.same_as(&entity));
    assert!(!branch.same_as(&NaturalKey::branch(2, text("main"))));
    assert!(!branch.same_as(&NaturalKey::branch(1, text("dev"))));
    assert!(entity.same_as(&NaturalKey::entity(1, text("main"), text(""))));
    assert_eq!(named.parent, None);
    assert_eq!(branch.parent, Some(1));
    assert_eq!(project.qualifier, Some(text("")));
}

#[test]
fn full_table_refuses_a_new_key_only() {
    let mut table = DimensionTable::new(2);
    assert_eq!(table.find_or_insert(NaturalKey::named(text("a"))), Ok(1));
    assert_eq!(table.find_or_insert(NaturalKey::named(text("b"))), Ok(2));
    assert_eq!(
        table.find_or_insert(NaturalKey::named(text("c"))),
        Err(ErrorKind::PersistenceFailure)
    );
    assert_eq!(table.len(), 2);
    assert_eq!(table.find_or_insert(NaturalKey::named(text("a"))), Ok(1));
    assert_eq!(table.find_or_insert(NaturalKey::named(text("b"))), Ok(2));
    assert_eq!(table.lookup(&NaturalKey::named(text("c"))), None);
}

#[test]
fn table_without_room_refuses_everything() {
    let mut table = DimensionTable::new(0);
    assert_eq!(
        table.find_or_insert(NaturalKey::named(text("a"))),
        Err(ErrorKind::PersistenceFailure)
    );
    assert_eq!(table.len(), 0);
}
