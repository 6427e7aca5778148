use ckb_rocksdb::open::plan_ttl_open;
use ckb_rocksdb::{DBWithTTL, TTLOpenDescriptor, TtlOpen};

fn names(list: &[&str]) -> Vec<String> {
    list.iter().map(|s| s.to_string()).collect()
}

#[test]
fn plan_without_column_families_uses_single_ttl() {
    let plan = plan_ttl_open("db", &Vec::new(), &TTLOpenDescriptor::default()).unwrap();
    assert_eq!(plan.path, b"db\0".to_vec());
    assert!(plan.column_families.is_empty());
    assert!(matches!(plan.ttls, TtlOpen::Plain(-1)));
}

#[test]
fn plan_appends_default_column_family() {
    let plan = plan_ttl_open("db", &names(&["cf1"]), &TTLOpenDescriptor::by_default(30)).unwrap();
    assert_eq!(plan.column_families, names(&["cf1", "default"]));
    match plan.ttls {
        TtlOpen::ColumnFamilies(v) => assert_eq!(v, vec![30, 30]),
        TtlOpen::Plain(_) => panic!("expected an open with column families"),
    }
}

#[test]
fn plan_keeps_requested_default_in_place() {
    let plan = plan_ttl_open(
        "db",
        &names(&["default", "cf1"]),
        &TTLOpenDescriptor::by_columns(vec![1, 2]),
    )
    .unwrap();
    assert_eq!(plan.column_families, names(&["default", "cf1"]));
    match plan.ttls {
        TtlOpen::ColumnFamilies(v) => assert_eq!(v, vec![1, 2]),
        TtlOpen::Plain(_) => panic!("expected an open with column families"),
    }
}

#[test]
fn plan_rejects_ttl_count_mismatch() {
    let e = plan_ttl_open("db", &names(&["cf1"]), &TTLOpenDescriptor::by_columns(vec![5]))
        .err()
        .unwrap();
    assert_eq!(
        e.into_string(),
        "Ttls size has to be the same as number of column families"
    );
    let e = plan_ttl_open(
        "db",
        &names(&["default", "cf1"]),
        &TTLOpenDescriptor::by_columns(vec![1, 2, 3]),
    );
    assert!(e.is_err());
}

#[test]
fn plan_without_column_families_takes_one_per_column_ttl() {
    let plan = plan_ttl_open("db", &Vec::new(), &TTLOpenDescriptor::by_columns(vec![7])).unwrap();
    assert!(matches!(plan.ttls, TtlOpen::Plain(7)));
    let e = plan_ttl_open("db", &Vec::new(), &TTLOpenDescriptor::by_columns(vec![7, 8]));
    assert!(e.is_err());
    let e = plan_ttl_open("db", &Vec::new(), &TTLOpenDescriptor::by_columns(Vec::new()));
    assert!(e.is_err());
}

#[test]
fn plan_rejects_terminator_in_path_and_names() {
    let e = plan_ttl_open("d\0b", &Vec::new(), &TTLOpenDescriptor::default()).err().unwrap();
    assert_eq!(e.as_str(), "Failed to convert path to CString when opening DB.");
    let e = plan_ttl_open("db", &names(&["c\0f"]), &TTLOpenDescriptor::default()).err().unwrap();
    assert_eq!(e.as_str(), "Failed to convert column family name to CString.");
    // the path is checked first
    let e = plan_ttl_open("d\0b", &names(&["c\0f"]), &TTLOpenDescriptor::by_columns(vec![]))
        .err()
        .unwrap();
    assert_eq!(e.as_str(), "Failed to convert path to CString when opening DB.");
}

#[test]
fn build_registers_column_families() {
    let db = DBWithTTL::build(
        "db".to_string(),
        TTLOpenDescriptor::default(),
        0x1000,
        vec![("cf1".to_string(), 0x2000), ("default".to_string(), 0x3000)],
    )
    .unwrap();
    assert_eq!(db.path(), "db");
    assert_eq!(db.handle(), 0x1000);
    assert_eq!(db.cf_handle("cf1").unwrap().handle(), 0x2000);
    assert_eq!(db.cf_handle("default").unwrap().handle(), 0x3000);
    assert!(db.cf_handle("cf2").is_none());
    assert_eq!(db.get_cfs().len(), 2);
}

#[test]
fn build_rejects_unset_handles_and_duplicates() {
    let e = DBWithTTL::build("db".to_string(), TTLOpenDescriptor::default(), 0, Vec::new());
    assert_eq!(e.err().unwrap().into_string(), "Could not initialize database.");
    let e = DBWithTTL::build(
        "db".to_string(),
        TTLOpenDescriptor::default(),
        1,
        vec![("cf1".to_string(), 0)],
    );
    assert_eq!(
        e.err().unwrap().into_string(),
        "Received null column family handle from DB."
    );
    let e = DBWithTTL::build(
        "db".to_string(),
        TTLOpenDescriptor::default(),
        1,
        vec![("cf1".to_string(), 2), ("cf1".to_string(), 3)],
    );
    assert_eq!(e.err().unwrap().into_string(), "Duplicate column family name.");
}

#[test]
fn registry_create_replace_drop_and_close() {
    let mut db = DBWithTTL::build(
        "db".to_string(),
        TTLOpenDescriptor::by_default(10),
        9,
        vec![("default".to_string(), 1)],
    )
    .unwrap();
    assert!(db.register_cf("cf1".to_string(), 0).is_err());
    assert!(db.cf_handle("cf1").is_none());
    assert!(db.register_cf("cf1".to_string(), 2).unwrap().is_none());
    assert_eq!(db.cf_handle("cf1").unwrap().handle(), 2);
    let replaced = db.register_cf("cf1".to_string(), 3).unwrap().unwrap();
    assert_eq!(replaced.handle(), 2);
    assert_eq!(db.cf_handle("cf1").unwrap().handle(), 3);
    assert!(db.remove_cf("nope").is_none());
    assert!(db.register_cf("cf2".to_string(), 4).unwrap().is_none());
    let removed = db.remove_cf("cf1").unwrap();
    assert_eq!(removed.handle(), 3);
    assert!(db.cf_handle("cf1").is_none());
    let (cfs, pointer) = db.close();
    let handles: Vec<usize> = cfs.iter().map(|c| c.handle()).collect();
    // name order: "cf2" before "default"
    assert_eq!(handles, vec![4, 1]);
    assert_eq!(pointer, 9);
}

#[test]
fn registry_lists_names_in_byte_order() {
    let db = DBWithTTL::build(
        "db".to_string(),
        TTLOpenDescriptor::default(),
        7,
        vec![
            ("b".to_string(), 10),
            ("a".to_string(), 20),
            ("default".to_string(), 30),
            ("B".to_string(), 40),
            ("é".to_string(), 50),
            ("ab".to_string(), 60),
        ],
    )
    .unwrap();
    assert_eq!(db.get_cfs().len(), 6);
    assert_eq!(db.cf_handle("b").unwrap().handle(), 10);
    let (cfs, _) = db.close();
    let handles: Vec<usize> = cfs.iter().map(|c| c.handle()).collect();
    // "B" < "a" < "ab" < "b" < "default" < "é"
    assert_eq!(handles, vec![40, 20, 60, 10, 30, 50]);
}

#[test]
fn created_column_family_takes_its_place_in_name_order() {
    let mut db = DBWithTTL::build(
        "db".to_string(),
        TTLOpenDescriptor::default(),
        7,
        vec![("default".to_string(), 1), ("zz".to_string(), 2)],
    )
    .unwrap();
    assert!(db.finish_create_cf("m".to_string(), 3, None).unwrap().is_none());
    let e = db
        .finish_create_cf("n".to_string(), 0, Some(b"Invalid argument: Column family already exists".to_vec()))
        .err()
        .unwrap();
    assert_eq!(e.into_string(), "Invalid argument: Column family already exists");
    assert!(db.cf_handle("n").is_none());
    let e = db.finish_create_cf("n".to_string(), 0, None).err().unwrap();
    assert_eq!(e.into_string(), "Received null column family handle from DB.");
    let (cfs, _) = db.close();
    let handles: Vec<usize> = cfs.iter().map(|c| c.handle()).collect();
    assert_eq!(handles, vec![1, 3, 2]);
}

#[test]
fn create_cf_name_checks_terminator() {
    assert_eq!(DBWithTTL::create_cf_name("cf1").unwrap(), b"cf1\0".to_vec());
    assert_eq!(
        DBWithTTL::create_cf_name("c\0f").err().unwrap().into_string(),
        "Failed to convert path to CString when opening rocksdb"
    );
}
