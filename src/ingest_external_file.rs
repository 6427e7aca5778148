//! Bulk loading of finished table files into a live database, optionally
//! into one column family. The paths are checked for native use before the
//! native call, which the implementor of `IngestExternalFileCF` makes, and
//! the engine's answer is turned into a result.
use vstd::prelude::*;
use vstd::utf8::encode_utf8;

use crate::column_family::ColumnFamily;
use crate::error::Error;
use crate::ffi_util::{c_compatible, ffi_try, to_cpath, utf8_lossy};

verus! {

/// Everything the native ingestion call is given besides its options.
pub struct IngestRequest {
    /// The handle address of the target column family; None for the
    /// default one.
    pub cf: Option<usize>,
    /// Each path, followed by the native terminator, in order.
    pub paths: Vec<Vec<u8>>,
}

/// Whether every path can travel as a native string.
pub open spec fn paths_c_compatible(paths: Seq<String>) -> bool {
    forall|i: int| 0 <= i < paths.len() ==> c_compatible(encode_utf8((#[trigger] paths[i])@))
}

/// Prepares an ingestion of the files at `paths` into the column family
/// `cf`, or into the default one. A path that holds the native terminator is
/// refused.
pub fn ingest_request(cf: Option<&ColumnFamily>, paths: &Vec<String>) -> (r: Result<
    IngestRequest,
    Error,
>)
    ensures
        r is Ok <==> paths_c_compatible(paths@),
        r is Ok ==> r->Ok_0.paths@.len() == paths@.len(),
        r is Ok ==> forall|i: int|
            0 <= i < paths@.len() ==> (#[trigger] r->Ok_0.paths@[i])@ == encode_utf8(
                paths@[i]@,
            ).push(0u8),
        r is Ok ==> (r->Ok_0.cf is Some <==> cf is Some),
        r is Ok && cf is Some ==> r->Ok_0.cf == Some(cf->Some_0@),
        r is Err ==> r->Err_0@ == "Failed to convert path to CString when IngestExternalFile."@,
{
    let mut out: Vec<Vec<u8>> = Vec::new();
    let mut i: usize = 0;
    while i < paths.len()
        invariant
            i <= paths@.len(),
            out@.len() == i,
            forall|k: int| 0 <= k < i ==> c_compatible(encode_utf8((#[trigger] paths@[k])@)),
            forall|k: int|
                0 <= k < i ==> (#[trigger] out@[k])@ == encode_utf8(paths@[k]@).push(0u8),
        decreases paths@.len() - i,
    {
        match to_cpath(
            paths[i].as_str(),
            "Failed to convert path to CString when IngestExternalFile.",
        ) {
            Ok(c) => {
                out.push(c);
            },
            Err(e) => {
                return Err(e);
            },
        }
        i = i + 1;
    }
    let handle = match cf {
        Some(c) => Some(c.handle()),
        None => None,
    };
    Ok(IngestRequest { cf: handle, paths: out })
}

/// Whether the bytes are a native string: a terminator at the end and
/// nowhere else.
pub open spec fn native_string(bytes: Seq<u8>) -> bool {
    bytes.len() > 0 && bytes.last() == 0u8 && c_compatible(bytes.drop_last())
}

/// What an ingestion of the files at `paths` returns, whatever the native
/// engine does: a path that holds the native terminator is refused before any
/// native call; success means every path was handed on; any other failure
/// carries the text of the engine's error string.
pub open spec fn ingest_outcome(paths: Seq<String>, r: Result<(), Error>) -> bool {
    &&& !paths_c_compatible(paths) ==> r is Err && r->Err_0@
        == "Failed to convert path to CString when IngestExternalFile."@
    &&& r is Ok ==> paths_c_compatible(paths)
    &&& r is Err && paths_c_compatible(paths) ==> exists|s: Seq<u8>| r->Err_0@ == utf8_lossy(s)
}

pub trait IngestExternalFile {
    /// The native ingestion options.
    type Options;

    fn ingest_external_file_full(
        &self,
        paths: Vec<String>,
        opts: Option<&Self::Options>,
    ) -> (r: Result<(), Error>)
        ensures
            ingest_outcome(paths@, r),
    ;

    /// Loads a list of external table files into the database with default
    /// options.
    fn ingest_external_file(&self, paths: Vec<String>) -> (r: Result<(), Error>)
        ensures
            ingest_outcome(paths@, r),
    {
        self.ingest_external_file_full(paths, None)
    }

    /// Loads a list of external table files into the database.
    fn ingest_external_file_opts(&self, paths: Vec<String>, opts: &Self::Options) -> (r: Result<
        (),
        Error,
    >)
        ensures
            ingest_outcome(paths@, r),
    {
        self.ingest_external_file_full(paths, Some(opts))
    }
}

pub trait IngestExternalFileCF {
    /// The native ingestion options.
    type Options;

    /// Makes the native ingestion call for a prepared request, whose paths
    /// are native strings, and hands back the bytes of the error string that
    /// the engine filled in, if any.
    fn ingest_native(&self, request: &IngestRequest, opts: Option<&Self::Options>) -> (err: Option<
        Vec<u8>,
    >)
        requires
            forall|i: int|
                0 <= i < request.paths@.len() ==> native_string(#[trigger] request.paths@[i]@),
    ;

    /// Loads a list of external table files into the column family `cf`, or
    /// into the default one: the paths are checked and converted, handed to
    /// the native call in order, and the engine's error, if any, is returned
    /// with its text.
    fn ingest_external_file_cf_full(
        &self,
        cf: Option<&ColumnFamily>,
        paths: Vec<String>,
        opts: Option<&Self::Options>,
    ) -> (r: Result<(), Error>)
        ensures
            ingest_outcome(paths@, r),
    {
        let request = match ingest_request(cf, &paths) {
            Ok(q) => q,
            Err(e) => {
                return Err(e);
            },
        };
        proof {
            assert forall|i: int| 0 <= i < request.paths@.len() implies native_string(
                #[trigger] request.paths@[i]@,
            ) by {
                let b = encode_utf8(paths@[i]@);
                assert(c_compatible(b));
                assert(request.paths@[i]@.drop_last() =~= b);
            }
        }
        let err = self.ingest_native(&request, opts);
        let r = ffi_try((), err);
        proof {
            if r is Err {
                assert(r->Err_0@ == utf8_lossy(err->Some_0@));
            }
        }
        r
    }

    /// Loads a list of external table files into the given column family
    /// with default options.
    fn ingest_external_file_cf(&self, cf: &ColumnFamily, paths: Vec<String>) -> (r: Result<
        (),
        Error,
    >)
        ensures
            ingest_outcome(paths@, r),
    {
        self.ingest_external_file_cf_full(Some(cf), paths, None)
    }

    /// Loads a list of external table files into the given column family.
    fn ingest_external_file_opts(
        &self,
        cf: &ColumnFamily,
        paths: Vec<String>,
        opts: &Self::Options,
    ) -> (r: Result<(), Error>)
        ensures
            ingest_outcome(paths@, r),
    {
        self.ingest_external_file_cf_full(Some(cf), paths, Some(opts))
    }
}

impl<T: IngestExternalFileCF> IngestExternalFile for T {
    type Options = T::Options;

    fn ingest_external_file_full(
        &self,
        paths: Vec<String>,
        opts: Option<&Self::Options>,
    ) -> (r: Result<(), Error>) {
        self.ingest_external_file_cf_full(None, paths, opts)
    }
}

} // verus!
