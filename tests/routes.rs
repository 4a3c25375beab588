use crate_api::{
    create_crate, delete_crate, get_crates, update_crate, view_crate, Body, Crate, CrateTable,
    NewCrate, Reply, StoreError, LIST_LIMIT, STATUS_CREATED, STATUS_INTERNAL_SERVER_ERROR,
    STATUS_NO_CONTENT, STATUS_OK,
};

fn new_crate(name: &str, version: &str) -> NewCrate {
    NewCrate { name: name.to_string(), version: version.to_string(), description: None }
}

fn record(id: i32, name: &str, version: &str, description: Option<&str>) -> Crate {
    Crate {
        id,
        name: name.to_string(),
        version: version.to_string(),
        description: description.map(|d| d.to_string()),
    }
}

fn error_reply() -> Reply {
    Reply { status: STATUS_INTERNAL_SERVER_ERROR, body: Body::Message("Error".to_string()) }
}

#[test]
fn create_returns_created_record_with_assigned_id() {
    let mut table = CrateTable::new();
    let reply = create_crate(&mut table, new_crate("foo", "1.0.0"));
    assert_eq!(reply.status, 201);
    assert_eq!(reply.status, STATUS_CREATED);
    assert_eq!(reply.body, Body::Record(record(1, "foo", "1.0.0", None)));
}

#[test]
fn get_of_missing_id_is_an_error() {
    let table = CrateTable::new();
    let reply = view_crate(&table, 999999);
    assert_eq!(reply.status, 500);
    assert_eq!(reply, error_reply());
}

#[test]
fn list_of_empty_table_is_empty_array() {
    let table = CrateTable::new();
    let reply = get_crates(&table);
    assert_eq!(reply.status, 200);
    assert_eq!(reply.body, Body::Records(Vec::new()));
}

#[test]
fn list_holds_at_most_one_hundred_records() {
    let mut table = CrateTable::new();
    for i in 0..150 {
        let reply = create_crate(&mut table, new_crate(&format!("c{}", i), "0.1.0"));
        assert_eq!(reply.status, STATUS_CREATED);
    }
    assert_eq!(LIST_LIMIT, 100);
    let reply = get_crates(&table);
    assert_eq!(reply.status, STATUS_OK);
    match reply.body {
        Body::Records(v) => {
            assert_eq!(v.len(), 100);
            assert_eq!(v[0], record(1, "c0", "0.1.0", None));
            assert_eq!(v[99], record(100, "c99", "0.1.0", None));
        }
        other => panic!("unexpected body {:?}", other),
    }
}

#[test]
fn list_returns_all_records_in_creation_order() {
    let mut table = CrateTable::new();
    create_crate(&mut table, new_crate("a", "1.0.0"));
    create_crate(&mut table, new_crate("b", "2.0.0"));
    let reply = get_crates(&table);
    assert_eq!(
        reply,
        Reply {
            status: STATUS_OK,
            body: Body::Records(vec![record(1, "a", "1.0.0", None), record(2, "b", "2.0.0", None)]),
        }
    );
}

#[test]
fn get_after_create_returns_created_attributes() {
    let mut table = CrateTable::new();
    create_crate(&mut table, new_crate("first", "0.0.1"));
    let payload = NewCrate {
        name: "serde".to_string(),
        version: "1.0.200".to_string(),
        description: Some("a framework".to_string()),
    };
    let reply = create_crate(&mut table, payload);
    assert_eq!(reply.body, Body::Record(record(2, "serde", "1.0.200", Some("a framework"))));
    let got = view_crate(&table, 2);
    assert_eq!(
        got,
        Reply { status: STATUS_OK, body: Body::Record(record(2, "serde", "1.0.200", Some("a framework"))) }
    );
}

#[test]
fn update_keeps_path_id_and_takes_body_attributes() {
    let mut table = CrateTable::new();
    create_crate(&mut table, new_crate("foo", "1.0.0"));
    create_crate(&mut table, new_crate("bar", "1.0.0"));
    let reply = update_crate(&mut table, 1, record(2, "foo", "2.0.0", Some("updated")));
    assert_eq!(reply, Reply { status: STATUS_OK, body: Body::Record(record(1, "foo", "2.0.0", Some("updated"))) });
    assert_eq!(view_crate(&table, 1).body, Body::Record(record(1, "foo", "2.0.0", Some("updated"))));
    assert_eq!(view_crate(&table, 2).body, Body::Record(record(2, "bar", "1.0.0", None)));
}

#[test]
fn update_of_missing_id_is_an_error() {
    let mut table = CrateTable::new();
    create_crate(&mut table, new_crate("foo", "1.0.0"));
    let reply = update_crate(&mut table, 7, record(7, "x", "1.0.0", None));
    assert_eq!(reply, error_reply());
    assert_eq!(view_crate(&table, 1).body, Body::Record(record(1, "foo", "1.0.0", None)));
}

#[test]
fn get_after_delete_fails() {
    let mut table = CrateTable::new();
    create_crate(&mut table, new_crate("foo", "1.0.0"));
    let reply = delete_crate(&mut table, 1);
    assert_eq!(reply, Reply { status: STATUS_NO_CONTENT, body: Body::Empty });
    assert_eq!(view_crate(&table, 1), error_reply());
    assert_eq!(get_crates(&table).body, Body::Records(Vec::new()));
}

#[test]
fn repeated_delete_fails_and_keeps_other_records() {
    let mut table = CrateTable::new();
    create_crate(&mut table, new_crate("a", "1.0.0"));
    create_crate(&mut table, new_crate("b", "1.0.0"));
    create_crate(&mut table, new_crate("c", "1.0.0"));
    assert_eq!(delete_crate(&mut table, 2).status, STATUS_NO_CONTENT);
    assert_eq!(delete_crate(&mut table, 2), error_reply());
    assert_eq!(delete_crate(&mut table, 2), error_reply());
    assert_eq!(
        get_crates(&table).body,
        Body::Records(vec![record(1, "a", "1.0.0", None), record(3, "c", "1.0.0", None)])
    );
}

#[test]
fn deleted_ids_are_not_handed_out_again() {
    let mut table = CrateTable::new();
    create_crate(&mut table, new_crate("a", "1.0.0"));
    delete_crate(&mut table, 1);
    let reply = create_crate(&mut table, new_crate("b", "1.0.0"));
    assert_eq!(reply.body, Body::Record(record(2, "b", "1.0.0", None)));
    assert_eq!(view_crate(&table, 1), error_reply());
}

#[test]
fn store_find_reports_not_found() {
    let mut table = CrateTable::new();
    assert_eq!(table.find(1), Err(StoreError::NotFound));
    let created = table.create(new_crate("foo", "1.0.0")).unwrap();
    assert_eq!(created.id, 1);
    assert_eq!(table.find(1), Ok(record(1, "foo", "1.0.0", None)));
    assert_eq!(table.update(5, record(5, "x", "1", None)), Err(StoreError::NotFound));
    assert_eq!(table.delete(5), Err(StoreError::NotFound));
    assert_eq!(table.delete(1), Ok(()));
    assert_eq!(table.find(1), Err(StoreError::NotFound));
}

#[test]
fn find_multiple_respects_limit() {
    let mut table = CrateTable::new();
    for name in ["a", "b", "c"] {
        table.create(new_crate(name, "1.0.0")).unwrap();
    }
    assert_eq!(table.find_multiple(0), Vec::new());
    assert_eq!(table.find_multiple(2), vec![record(1, "a", "1.0.0", None), record(2, "b", "1.0.0", None)]);
    assert_eq!(table.find_multiple(10).len(), 3);
}

#[test]
fn clone_keeps_every_field() {
    let c = record(4, "foo", "1.2.3", Some("d"));
    assert_eq!(c.clone(), c);
    let n = NewCrate { name: "n".to_string(), version: "v".to_string(), description: Some("x".to_string()) };
    assert_eq!(n.clone(), n);
}
