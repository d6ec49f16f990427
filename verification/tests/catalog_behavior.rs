use iceberg_catalog::error::ErrorKind;
use iceberg_catalog::pagination::PaginationQuery;
use iceberg_catalog::pool::{Pool, PoolConfig};
use iceberg_catalog::registry::{ListFlags, StorageProfile};
use iceberg_catalog::txn::{CatalogState, Transaction};

fn state() -> CatalogState {
    let cfg = PoolConfig { max_size: 4, wait_timeout_ms: 100 };
    CatalogState::from_pools(Pool::new(cfg), Pool::new(cfg))
}

fn profile() -> StorageProfile {
    StorageProfile { location: "s3://bucket/wh".to_string(), config: "region=eu".to_string() }
}

fn ns(levels: &[&str]) -> Vec<String> {
    levels.iter().map(|s| s.to_string()).collect()
}

const DEFAULT: ListFlags = ListFlags { include_staged: false, include_deleted: false };

#[test]
fn namespace_roundtrip_returns_supplied_properties() {
    let mut st = state();
    let mut t = Transaction::begin_write(&mut st).unwrap();
    let w = t.create_warehouse("wh".to_string(), 1, profile(), None).unwrap();
    let props = vec![("owner".to_string(), "ana".to_string()), ("ttl".to_string(), "7".to_string())];
    t.create_namespace(w, 10, ns(&["a"]), props).unwrap();
    let got = t.get_namespace(w, &ns(&["a"])).unwrap();
    assert_eq!(got.id, 10);
    assert_eq!(got.properties.len(), 2);
    assert_eq!(got.properties[0], ("owner".to_string(), "ana".to_string()));
    assert_eq!(got.properties[1], ("ttl".to_string(), "7".to_string()));
    t.commit(&mut st);
    // visible to a later read transaction with the same properties
    let r = Transaction::begin_read(&mut st).unwrap();
    let again = r.get_namespace(w, &ns(&["a"])).unwrap();
    assert_eq!(again.properties[0].1, "ana".to_string());
}

#[test]
fn drop_namespace_conflicts_while_children_exist() {
    let mut st = state();
    let mut t = Transaction::begin_write(&mut st).unwrap();
    let w = t.create_warehouse("wh".to_string(), 1, profile(), None).unwrap();
    t.create_namespace(w, 10, ns(&["a"]), vec![]).unwrap();
    t.create_table(10, "t1".to_string(), 100, "m".to_string(), Some("s3://x/1".to_string()))
        .unwrap();
    let e = t.drop_namespace(w, &ns(&["a"])).unwrap_err();
    assert_eq!(e.kind, ErrorKind::Conflict);
    t.drop_table(100, true).unwrap();
    t.drop_namespace(w, &ns(&["a"])).unwrap();
    assert!(t.get_namespace(w, &ns(&["a"])).is_err());
}

#[test]
fn stage_create_resolves_but_stays_out_of_default_listing() {
    let mut st = state();
    let mut t = Transaction::begin_write(&mut st).unwrap();
    let w = t.create_warehouse("wh".to_string(), 1, profile(), None).unwrap();
    t.create_namespace(w, 10, ns(&["a"]), vec![]).unwrap();
    t.create_table(10, "t1".to_string(), 100, "m".to_string(), None).unwrap();
    let staged = ListFlags { include_staged: true, include_deleted: false };
    assert_eq!(t.table_ident_to_id(w, &ns(&["a"]), &"t1".to_string(), staged), Some(100));
    assert_eq!(t.table_ident_to_id(w, &ns(&["a"]), &"t1".to_string(), DEFAULT), None);
    let q = PaginationQuery { page_token: None, page_size: 10 };
    let page = t.list_tables(w, &ns(&["a"]), DEFAULT, q).unwrap();
    assert!(page.ids.is_empty());
    let page = t.list_tables(w, &ns(&["a"]), staged, q).unwrap();
    assert_eq!(page.ids, vec![100]);
}

#[test]
fn commit_batch_with_one_stale_entry_changes_nothing() {
    let mut st = state();
    let mut t = Transaction::begin_write(&mut st).unwrap();
    let w = t.create_warehouse("wh".to_string(), 1, profile(), None).unwrap();
    t.create_namespace(w, 10, ns(&["a"]), vec![]).unwrap();
    t.create_table(10, "t1".to_string(), 100, "m1".to_string(), Some("s3://x/1".to_string()))
        .unwrap();
    t.create_table(10, "t2".to_string(), 101, "m2".to_string(), Some("s3://x/2".to_string()))
        .unwrap();
    let commits = vec![
        iceberg_catalog::catalog::TableCommit {
            table_id: 100,
            expected_metadata_location: Some("s3://x/1".to_string()),
            new_metadata_location: "s3://x/1b".to_string(),
            new_metadata: "m1b".to_string(),
        },
        iceberg_catalog::catalog::TableCommit {
            table_id: 101,
            expected_metadata_location: Some("s3://stale".to_string()),
            new_metadata_location: "s3://x/2b".to_string(),
            new_metadata: "m2b".to_string(),
        },
    ];
    let e = t.commit_table_transaction(w, &commits).unwrap_err();
    assert_eq!(e.kind, ErrorKind::Conflict);
    // neither table's stored metadata changed
    let a = t.get_table_metadata_by_id(w, 100, DEFAULT).unwrap();
    assert_eq!(a.metadata_location, Some("s3://x/1".to_string()));
    assert_eq!(a.metadata, "m1".to_string());
    let b = t.get_table_metadata_by_id(w, 101, DEFAULT).unwrap();
    assert_eq!(b.metadata_location, Some("s3://x/2".to_string()));
    // a fully valid batch applies to every entry
    let commits = vec![
        iceberg_catalog::catalog::TableCommit {
            table_id: 100,
            expected_metadata_location: Some("s3://x/1".to_string()),
            new_metadata_location: "s3://x/1b".to_string(),
            new_metadata: "m1b".to_string(),
        },
        iceberg_catalog::catalog::TableCommit {
            table_id: 101,
            expected_metadata_location: Some("s3://x/2".to_string()),
            new_metadata_location: "s3://x/2b".to_string(),
            new_metadata: "m2b".to_string(),
        },
    ];
    t.commit_table_transaction(w, &commits).unwrap();
    let a = t.get_table_metadata_by_id(w, 100, DEFAULT).unwrap();
    assert_eq!(a.metadata_location, Some("s3://x/1b".to_string()));
    assert_eq!(a.metadata, "m1b".to_string());
}

#[test]
fn commit_batch_with_unresolvable_id_fails_not_found_and_changes_nothing() {
    let mut st = state();
    let mut t = Transaction::begin_write(&mut st).unwrap();
    let w = t.create_warehouse("wh".to_string(), 1, profile(), None).unwrap();
    t.create_namespace(w, 10, ns(&["a"]), vec![]).unwrap();
    t.create_table(10, "t1".to_string(), 100, "m1".to_string(), Some("s3://x/1".to_string()))
        .unwrap();
    let commits = vec![
        iceberg_catalog::catalog::TableCommit {
            table_id: 100,
            expected_metadata_location: Some("s3://x/1".to_string()),
            new_metadata_location: "s3://x/1b".to_string(),
            new_metadata: "m1b".to_string(),
        },
        iceberg_catalog::catalog::TableCommit {
            table_id: 999,
            expected_metadata_location: None,
            new_metadata_location: "s3://x/9".to_string(),
            new_metadata: "m9".to_string(),
        },
    ];
    let e = t.commit_table_transaction(w, &commits).unwrap_err();
    assert_eq!(e.kind, ErrorKind::NotFound);
    let a = t.get_table_metadata_by_id(w, 100, DEFAULT).unwrap();
    assert_eq!(a.metadata_location, Some("s3://x/1".to_string()));
}

#[test]
fn rename_table_moves_resolution_and_keeps_id() {
    let mut st = state();
    let mut t = Transaction::begin_write(&mut st).unwrap();
    let w = t.create_warehouse("wh".to_string(), 1, profile(), None).unwrap();
    t.create_namespace(w, 10, ns(&["a"]), vec![]).unwrap();
    t.create_table(10, "t1".to_string(), 100, "m".to_string(), Some("s3://x/1".to_string()))
        .unwrap();
    t.rename_table(w, 100, &ns(&["a"]), &"t2".to_string()).unwrap();
    assert_eq!(t.table_ident_to_id(w, &ns(&["a"]), &"t1".to_string(), DEFAULT), None);
    assert_eq!(t.table_ident_to_id(w, &ns(&["a"]), &"t2".to_string(), DEFAULT), Some(100));
    // only the name binding moved: metadata location and content unchanged
    let got = t.get_table_metadata_by_id(w, 100, DEFAULT).unwrap();
    assert_eq!(got.metadata_location, Some("s3://x/1".to_string()));
    assert_eq!(got.metadata, "m".to_string());
}

#[test]
fn soft_delete_hides_and_hard_delete_forgets() {
    let mut st = state();
    let mut t = Transaction::begin_write(&mut st).unwrap();
    let w = t.create_warehouse("wh".to_string(), 1, profile(), None).unwrap();
    t.create_namespace(w, 10, ns(&["a"]), vec![]).unwrap();
    t.create_table(10, "t1".to_string(), 100, "m".to_string(), Some("s3://x/1".to_string()))
        .unwrap();
    t.drop_table(100, false).unwrap();
    let q = PaginationQuery { page_token: None, page_size: 10 };
    let page = t.list_tables(w, &ns(&["a"]), DEFAULT, q).unwrap();
    assert!(page.ids.is_empty());
    let with_deleted = ListFlags { include_staged: false, include_deleted: true };
    let got = t.get_table_metadata_by_id(w, 100, with_deleted).unwrap();
    assert!(got.deleted);
    assert_eq!(got.metadata_location, Some("s3://x/1".to_string()));
    assert!(t.get_table_metadata_by_id(w, 100, DEFAULT).is_err());
    // hard delete of the soft-deleted row: first make it live again is not
    // offered, so hard-delete a fresh row instead
    t.create_table(10, "t2".to_string(), 101, "m".to_string(), Some("s3://x/2".to_string()))
        .unwrap();
    t.drop_table(101, true).unwrap();
    let e = t.get_table_metadata_by_id(w, 101, with_deleted).unwrap_err();
    assert_eq!(e.kind, ErrorKind::NotFound);
}

#[test]
fn load_tables_never_returns_tables_of_inactive_warehouses() {
    let mut st = state();
    let mut t = Transaction::begin_write(&mut st).unwrap();
    let w = t.create_warehouse("wh".to_string(), 1, profile(), None).unwrap();
    t.create_namespace(w, 10, ns(&["a"]), vec![]).unwrap();
    t.create_table(10, "t1".to_string(), 100, "m".to_string(), Some("s3://x/1".to_string()))
        .unwrap();
    t.drop_table(100, false).unwrap();
    assert_eq!(t.load_tables(w, &vec![100], true).len(), 1);
    t.set_warehouse_status(w, iceberg_catalog::registry::WarehouseStatus::Inactive).unwrap();
    assert!(t.load_tables(w, &vec![100], true).is_empty());
    assert!(t.load_tables(w, &vec![100], false).is_empty());
}

#[test]
fn pagination_yields_every_id_exactly_once() {
    let mut st = state();
    let mut t = Transaction::begin_write(&mut st).unwrap();
    let w = t.create_warehouse("wh".to_string(), 1, profile(), None).unwrap();
    t.create_namespace(w, 10, ns(&["a"]), vec![]).unwrap();
    // insertion order deliberately scrambled; listing order is by id
    for (name, id) in [("t3", 103), ("t1", 101), ("t5", 105), ("t2", 102), ("t4", 104)] {
        t.create_table(10, name.to_string(), id, "m".to_string(), Some(format!("s3://x/{id}")))
            .unwrap();
    }
    let mut seen: Vec<u64> = Vec::new();
    let mut token = None;
    loop {
        let q = PaginationQuery { page_token: token, page_size: 2 };
        let page = t.list_tables(w, &ns(&["a"]), DEFAULT, q).unwrap();
        if page.ids.is_empty() {
            break;
        }
        seen.extend(&page.ids);
        token = page.next_token;
    }
    assert_eq!(seen, vec![101, 102, 103, 104, 105]);
}

#[test]
fn list_namespaces_filters_by_parent() {
    let mut st = state();
    let mut t = Transaction::begin_write(&mut st).unwrap();
    let w = t.create_warehouse("wh".to_string(), 1, profile(), None).unwrap();
    t.create_namespace(w, 10, ns(&["a"]), vec![]).unwrap();
    t.create_namespace(w, 11, ns(&["a", "b"]), vec![]).unwrap();
    t.create_namespace(w, 12, ns(&["a", "c"]), vec![]).unwrap();
    t.create_namespace(w, 13, ns(&["a", "b", "d"]), vec![]).unwrap();
    let q = PaginationQuery { page_token: None, page_size: 10 };
    let all = t.list_namespaces(w, None, q);
    assert_eq!(all.ids, vec![10, 11, 12, 13]);
    let parent = ns(&["a"]);
    let children = t.list_namespaces(w, Some(&parent), q);
    assert_eq!(children.ids, vec![11, 12]);
}

#[test]
fn namespace_property_merge_overwrites_only_supplied_keys() {
    let mut st = state();
    let mut t = Transaction::begin_write(&mut st).unwrap();
    let w = t.create_warehouse("wh".to_string(), 1, profile(), None).unwrap();
    let props = vec![("owner".to_string(), "ana".to_string()), ("ttl".to_string(), "7".to_string())];
    t.create_namespace(w, 10, ns(&["a"]), props).unwrap();
    let updates =
        vec![("ttl".to_string(), "30".to_string()), ("zone".to_string(), "eu".to_string())];
    t.update_namespace_properties(w, &ns(&["a"]), updates).unwrap();
    let got = t.get_namespace(w, &ns(&["a"])).unwrap();
    let lookup = |k: &str| -> Option<String> {
        got.properties.iter().find(|p| p.0 == k).map(|p| p.1.clone())
    };
    assert_eq!(lookup("owner"), Some("ana".to_string()));
    assert_eq!(lookup("ttl"), Some("30".to_string()));
    assert_eq!(lookup("zone"), Some("eu".to_string()));
}

#[test]
fn conflicts_and_invalid_state_are_reported_as_such() {
    let mut st = state();
    let mut t = Transaction::begin_write(&mut st).unwrap();
    let w = t.create_warehouse("wh".to_string(), 1, profile(), None).unwrap();
    let e = t.create_warehouse("wh".to_string(), 1, profile(), None).unwrap_err();
    assert_eq!(e.kind, ErrorKind::Conflict);
    t.create_namespace(w, 10, ns(&["a"]), vec![]).unwrap();
    t.set_warehouse_status(w, iceberg_catalog::registry::WarehouseStatus::Inactive).unwrap();
    let e = t
        .create_table(10, "t".to_string(), 100, "m".to_string(), None)
        .unwrap_err();
    assert_eq!(e.kind, ErrorKind::InvalidState);
    let e = t.get_warehouse(999).unwrap_err();
    assert_eq!(e.kind, ErrorKind::NotFound);
}

#[test]
fn rollback_discards_and_commit_publishes() {
    let mut st = state();
    let mut t = Transaction::begin_write(&mut st).unwrap();
    t.create_warehouse("wh".to_string(), 1, profile(), None).unwrap();
    t.rollback(&mut st);
    let r = Transaction::begin_read(&mut st).unwrap();
    assert!(r.list_projects().is_empty());
    r.commit(&mut st);
    let mut t = Transaction::begin_write(&mut st).unwrap();
    let w = t.create_warehouse("wh".to_string(), 1, profile(), None).unwrap();
    t.commit(&mut st);
    let r = Transaction::begin_read(&mut st).unwrap();
    assert_eq!(r.list_projects(), vec![1]);
    assert!(r.get_warehouse(w).is_ok());
}

#[test]
fn views_mirror_tables() {
    let mut st = state();
    let mut t = Transaction::begin_write(&mut st).unwrap();
    let w = t.create_warehouse("wh".to_string(), 1, profile(), None).unwrap();
    t.create_namespace(w, 10, ns(&["a"]), vec![]).unwrap();
    t.create_view(10, "v1".to_string(), 200, "vm".to_string(), "s3://x/v1".to_string()).unwrap();
    assert_eq!(t.view_ident_to_id(w, &ns(&["a"]), &"v1".to_string(), false), Some(200));
    t.update_view_metadata(200, "s3://x/v2".to_string(), "vm2".to_string()).unwrap();
    let v = t.load_view(200, false).unwrap();
    assert_eq!(v.metadata_location, Some("s3://x/v2".to_string()));
    assert_eq!(v.metadata, "vm2".to_string());
    t.rename_view(w, 200, &ns(&["a"]), &"v2".to_string()).unwrap();
    assert_eq!(t.view_ident_to_id(w, &ns(&["a"]), &"v1".to_string(), false), None);
    t.drop_view(200).unwrap();
    assert!(t.load_view(200, false).is_err());
    assert!(t.load_view(200, true).is_ok());
}

#[test]
fn warehouse_management_operations() {
    let mut st = state();
    let mut t = Transaction::begin_write(&mut st).unwrap();
    let w = t.create_warehouse("wh".to_string(), 1, profile(), None).unwrap();
    t.rename_warehouse(w, "wh2".to_string()).unwrap();
    assert_eq!(t.get_warehouse(w).unwrap().name, "wh2".to_string());
    let np = StorageProfile { location: "s3://other".to_string(), config: String::new() };
    t.update_storage_profile(w, np, Some(42)).unwrap();
    let got = t.get_warehouse(w).unwrap();
    assert_eq!(got.storage_profile.location, "s3://other".to_string());
    assert_eq!(got.storage_secret_id, Some(42));
    let listed = t.list_warehouses(1, true);
    assert_eq!(listed.len(), 1);
    t.delete_warehouse(w).unwrap();
    assert!(t.get_warehouse(w).is_err());
}

#[test]
fn batch_resolution_reports_each_miss_individually() {
    let mut st = state();
    let mut t = Transaction::begin_write(&mut st).unwrap();
    let w = t.create_warehouse("wh".to_string(), 1, profile(), None).unwrap();
    t.create_namespace(w, 10, ns(&["a"]), vec![]).unwrap();
    t.create_table(10, "t1".to_string(), 100, "m".to_string(), Some("s3://x/1".to_string()))
        .unwrap();
    let idents = vec![
        (ns(&["a"]), "t1".to_string()),
        (ns(&["a"]), "missing".to_string()),
        (ns(&["zz"]), "t1".to_string()),
    ];
    let r = t.table_idents_to_ids(w, &idents, DEFAULT);
    assert_eq!(r, vec![Some(100), None, None]);
}

#[test]
fn lookup_by_location_honors_flags() {
    let mut st = state();
    let mut t = Transaction::begin_write(&mut st).unwrap();
    let w = t.create_warehouse("wh".to_string(), 1, profile(), None).unwrap();
    t.create_namespace(w, 10, ns(&["a"]), vec![]).unwrap();
    t.create_table(10, "t1".to_string(), 100, "m".to_string(), Some("s3://x/1".to_string()))
        .unwrap();
    let got = t.get_table_metadata_by_s3_location(w, &"s3://x/1".to_string(), DEFAULT).unwrap();
    assert_eq!(got.id, 100);
    assert!(t.get_table_metadata_by_s3_location(w, &"s3://y".to_string(), DEFAULT).is_err());
}
