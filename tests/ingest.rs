// Ingestion through a stand-in for the native call, which records what it is
// handed and answers with a chosen error string.
use std::cell::RefCell;

use ckb_rocksdb::ingest_external_file::{IngestExternalFile, IngestExternalFileCF, IngestRequest};
use ckb_rocksdb::ColumnFamily;

struct Recorder {
    calls: RefCell<Vec<(Option<usize>, Vec<Vec<u8>>, bool)>>,
    answer: Option<Vec<u8>>,
}

impl Recorder {
    fn new(answer: Option<&[u8]>) -> Self {
        Recorder { calls: RefCell::new(Vec::new()), answer: answer.map(|a| a.to_vec()) }
    }
}

impl IngestExternalFileCF for Recorder {
    type Options = u32;

    fn ingest_native(&self, request: &IngestRequest, opts: Option<&u32>) -> Option<Vec<u8>> {
        self.calls.borrow_mut().push((request.cf, request.paths.clone(), opts.is_some()));
        self.answer.clone()
    }
}

#[test]
fn ingestion_hands_paths_on_in_order() {
    let db = Recorder::new(None);
    let cf = ColumnFamily::new(5);
    assert!(db.ingest_external_file_cf(&cf, vec!["/x/1.sst".to_string(), "/x/2.sst".to_string()]).is_ok());
    assert!(db.ingest_external_file(vec!["/y.sst".to_string()]).is_ok());
    assert!(IngestExternalFile::ingest_external_file_opts(&db, vec!["/z.sst".to_string()], &3).is_ok());
    let calls = db.calls.borrow();
    assert_eq!(calls.len(), 3);
    assert_eq!(calls[0], (Some(5), vec![b"/x/1.sst\0".to_vec(), b"/x/2.sst\0".to_vec()], false));
    assert_eq!(calls[1], (None, vec![b"/y.sst\0".to_vec()], false));
    assert_eq!(calls[2], (None, vec![b"/z.sst\0".to_vec()], true));
}

#[test]
fn ingestion_refuses_bad_path_before_native_call() {
    let db = Recorder::new(None);
    let e = db.ingest_external_file(vec!["/a.sst".to_string(), "/b\0.sst".to_string()]);
    assert_eq!(
        e.err().unwrap().into_string(),
        "Failed to convert path to CString when IngestExternalFile."
    );
    assert!(db.calls.borrow().is_empty());
}

#[test]
fn ingestion_returns_engine_error_text() {
    let db = Recorder::new(Some(b"Corruption: external file is out of order"));
    let e = db.ingest_external_file(vec!["/a.sst".to_string()]);
    assert_eq!(e.err().unwrap().into_string(), "Corruption: external file is out of order");
    assert_eq!(db.calls.borrow().len(), 1);
}
