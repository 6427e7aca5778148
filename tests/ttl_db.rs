// The library's part of opening a TTL database: the open plan that the
// native call is made from, and the database object built from what the
// native call hands back. Handle addresses stand for what the engine returns.
use ckb_rocksdb::open::{finish_ttl_open, plan_ttl_open};
use ckb_rocksdb::{DBWithTTL, TTLOpenDescriptor, TtlOpen};

fn open_with_handles(
    path: &str,
    cfs: &[&str],
    ttls: TTLOpenDescriptor,
    expected: TtlOpen,
) -> DBWithTTL {
    let requested: Vec<String> = cfs.iter().map(|s| s.to_string()).collect();
    let plan = plan_ttl_open(path, &requested, &ttls).unwrap();
    match (&plan.ttls, &expected) {
        (TtlOpen::Plain(a), TtlOpen::Plain(b)) => assert_eq!(a, b),
        (TtlOpen::ColumnFamilies(a), TtlOpen::ColumnFamilies(b)) => assert_eq!(a, b),
        _ => panic!("unexpected open entry point"),
    }
    let handles: Vec<usize> = (0..plan.column_families.len()).map(|i| 0x100 + i).collect();
    finish_ttl_open(path.to_string(), ttls, plan.column_families, 0x10, handles).unwrap()
}

#[test]
fn open_ttl_db_default() {
    let db = open_with_handles("_ttl_default", &[], TTLOpenDescriptor::default(), TtlOpen::Plain(-1));
    assert_eq!(db.path(), "_ttl_default");
    assert!(db.get_cfs().is_empty());
}

#[test]
fn open_ttl_db_cf() {
    let db = open_with_handles(
        "_ttl_cf",
        &["cf1"],
        TTLOpenDescriptor::default(),
        TtlOpen::ColumnFamilies(vec![-1, -1]),
    );
    let cf1 = db.cf_handle("cf1").unwrap();
    assert_eq!(cf1.handle(), 0x100);
    assert_eq!(db.cf_handle("default").unwrap().handle(), 0x101);
}

#[test]
fn open_ttl_db_cf_with_descriptor_by_default() {
    let ttls = TTLOpenDescriptor::by_default(-1);
    let db = open_with_handles(
        "_ttl_cf_by_default",
        &["cf1"],
        ttls,
        TtlOpen::ColumnFamilies(vec![-1, -1]),
    );
    let cf1 = db.cf_handle("cf1").unwrap();
    assert_eq!(cf1.handle(), 0x100);
}

#[test]
fn open_ttl_db_cf_with_descriptor_by_columns() {
    // default
    let ttls = TTLOpenDescriptor::by_columns(vec![-1, 100]);
    let db = open_with_handles(
        "_ttl_cf_by_columns",
        &["cf1"],
        ttls,
        TtlOpen::ColumnFamilies(vec![-1, 100]),
    );
    let cf1 = db.cf_handle("cf1").unwrap();
    assert_eq!(cf1.handle(), 0x100);
}
