// The library's part of the database tests: the error channel and the
// checks made on option updates before the native call.
use ckb_rocksdb::ffi_util::ffi_try;
use ckb_rocksdb::open::plan_ttl_open;
use ckb_rocksdb::options::option_pairs;
use ckb_rocksdb::{DBWithTTL, TTLOpenDescriptor};

#[test]
fn errors_do_stuff() {
    // What the engine reports when the database is still open elsewhere.
    let native = b"IO error: While lock file: /tmp/_db/LOCK: Resource temporarily unavailable";
    match ffi_try((), Some(native.to_vec())) {
        Err(s) => {
            let message = s.to_string();
            assert!(message.contains("IO error:"));
            assert!(message.contains("/LOCK:"));
        }
        Ok(_) => panic!("should fail"),
    }
}

fn check_option_updates() {
    // valid names and values are handed to the engine
    assert!(option_pairs(&[("disable_auto_compactions", "true")]).is_ok());
    assert!(option_pairs(&[("disable_auto_compactions", "false")]).is_ok());
    // invalid names/values are refused by the engine; they reach it unchanged
    let invalid_value = option_pairs(&[("disable_auto_compactions", "INVALID_VALUE")]).unwrap();
    assert_eq!(invalid_value[0].1, b"INVALID_VALUE\0".to_vec());
    let invalid_name = option_pairs(&[("INVALID_NAME", "INVALID_VALUE")]).unwrap();
    assert_eq!(invalid_name[0].0, b"INVALID_NAME\0".to_vec());
    // option names/values must not contain NULLs
    assert!(option_pairs(&[("disable_auto_compactions", "true\0")]).is_err());
    assert!(option_pairs(&[("disable_auto_compactions\0", "true")]).is_err());
    // empty options are not allowed
    assert!(option_pairs(&[]).is_err());
    // multiple options can be set in a single API call
    let multiple_options = [
        ("paranoid_file_checks", "true"),
        ("report_bg_io_stats", "true"),
    ];
    assert_eq!(option_pairs(&multiple_options).unwrap().len(), 2);
}

#[test]
fn set_option_test() {
    check_option_updates();
}

#[test]
fn set_option_cf_test() {
    let plan = plan_ttl_open("_set_option_cf", &vec!["cf1".to_string()], &TTLOpenDescriptor::default())
        .unwrap();
    let handles: Vec<(String, usize)> =
        plan.column_families.iter().map(|n| (n.clone(), 0x20 + n.len())).collect();
    let db = DBWithTTL::build("_set_option_cf".to_string(), TTLOpenDescriptor::default(), 1, handles)
        .unwrap();
    let cf1 = db.cf_handle("cf1").unwrap();
    assert_eq!(cf1.handle(), 0x23);
    check_option_updates();
}
