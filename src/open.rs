//! The open protocol: everything that is decided before the native open call
//! of a database with time-to-live semantics. Paths and column-family names
//! are checked for native use, the default column family is added where the
//! caller did not ask for it, and the TTL descriptor is checked against the
//! number of column families, so that a configuration error never reaches the
//! native engine.
use vstd::prelude::*;
use vstd::string::StringSliceAdditionalSpecFns;
use vstd::utf8::encode_utf8;

use crate::column_family::unique_names;
use crate::db_with_ttl::{
    DBWithTTL, TTLOpenDescriptor, TtlOpen, TtlsModel, handles_set, pairs_view,
    registry_of, ttl_open_matches, ttls_for,
};
use crate::error::Error;
use crate::ffi_util::{c_compatible, to_cpath, to_cstring};

verus! {

/// The name of the column family that every database has.
pub open spec fn default_cf_name() -> Seq<char> {
    "default"@
}

/// Names, as text.
pub open spec fn names_view(names: Seq<String>) -> Seq<Seq<char>> {
    names.map_values(|s: String| s@)
}

/// The column families that an open asks the native engine for: none when
/// none were requested; otherwise those requested, in order, followed by the
/// default column family when it is not among them.
pub open spec fn names_to_open(requested: Seq<Seq<char>>) -> Seq<Seq<char>> {
    if requested.len() == 0 || requested.contains(default_cf_name()) {
        requested
    } else {
        requested.push(default_cf_name())
    }
}

/// Whether every name can travel as a native string.
pub open spec fn names_c_compatible(names: Seq<Seq<char>>) -> bool {
    forall|i: int| 0 <= i < names.len() ==> c_compatible(encode_utf8(#[trigger] names[i]))
}

/// Everything the native open call of a TTL database is given.
pub struct OpenPlan {
    /// The path, followed by the native terminator.
    pub path: Vec<u8>,
    /// The column families to open, in the order of the native arrays; empty
    /// for an open without explicit column families.
    pub column_families: Vec<String>,
    /// The entry point to call, with its TTLs.
    pub ttls: TtlOpen,
}

/// Plans the open of a TTL database at `path` with the requested column
/// families. A path or a name that holds the native terminator, or a
/// per-column TTL list whose length differs from the number of column
/// families opened, is a configuration error, reported before any native
/// call.
pub fn plan_ttl_open(
    path: &str,
    column_families: &Vec<String>,
    descriptor: &TTLOpenDescriptor,
) -> (r: Result<OpenPlan, Error>)
    requires
        column_families@.len() < 0x7fff_ffff,
    ensures
        ({
            let names = names_to_open(names_view(column_families@));
            &&& r is Ok <==> c_compatible(path.spec_bytes()) && names_c_compatible(
                names_view(column_families@),
            ) && ttls_for(names.len(), descriptor@) is Some
            &&& r is Ok ==> r->Ok_0.path@ == path.spec_bytes().push(0u8)
            &&& r is Ok ==> names_view(r->Ok_0.column_families@) == names
            &&& r is Ok ==> ttl_open_matches(
                r->Ok_0.ttls,
                names.len(),
                ttls_for(names.len(), descriptor@)->Some_0,
            )
            &&& !c_compatible(path.spec_bytes()) ==> r is Err && r->Err_0@
                == "Failed to convert path to CString when opening DB."@
            &&& c_compatible(path.spec_bytes()) && !names_c_compatible(
                names_view(column_families@),
            ) ==> r is Err && r->Err_0@ == "Failed to convert column family name to CString."@
            &&& c_compatible(path.spec_bytes()) && names_c_compatible(names_view(column_families@))
                && ttls_for(names.len(), descriptor@) is None ==> r is Err && r->Err_0@
                == "Ttls size has to be the same as number of column families"@
        }),
{
    let ghost requested = names_view(column_families@);
    let cpath = match to_cpath(path, "Failed to convert path to CString when opening DB.") {
        Ok(c) => c,
        Err(e) => {
            return Err(e);
        },
    };
    let mut i: usize = 0;
    while i < column_families.len()
        invariant
            i <= column_families@.len(),
            requested == names_view(column_families@),
            c_compatible(path.spec_bytes()),
            cpath@ == path.spec_bytes().push(0u8),
            forall|k: int| 0 <= k < i ==> c_compatible(encode_utf8(#[trigger] requested[k])),
        decreases column_families@.len() - i,
    {
        match to_cstring(
            column_families[i].as_str(),
            "Failed to convert column family name to CString.",
        ) {
            Ok(_) => {},
            Err(e) => {
                assert(!c_compatible(encode_utf8(requested[i as int])));
                return Err(e);
            },
        }
        i = i + 1;
    }
    let default_name = "default".to_owned();
    let mut names: Vec<String> = Vec::new();
    let mut has_default = false;
    let mut j: usize = 0;
    while j < column_families.len()
        invariant
            j <= column_families@.len(),
            requested == names_view(column_families@),
            c_compatible(path.spec_bytes()),
            cpath@ == path.spec_bytes().push(0u8),
            names_c_compatible(requested),
            default_name@ == default_cf_name(),
            names_view(names@) == requested.subrange(0, j as int),
            has_default <==> requested.subrange(0, j as int).contains(default_cf_name()),
        decreases column_families@.len() - j,
    {
        let name = column_families[j].clone();
        if name == default_name {
            has_default = true;
        }
        names.push(name);
        proof {
            let before = requested.subrange(0, j as int);
            let after = requested.subrange(0, j + 1);
            assert(after =~= before.push(requested[j as int]));
            assert(names_view(names@) =~= after);
            if before.contains(default_cf_name()) {
                let k = choose|k: int| 0 <= k < before.len() && before[k] == default_cf_name();
                assert(after[k] == default_cf_name());
            }
            if requested[j as int] == default_cf_name() {
                assert(after[j as int] == default_cf_name());
            }
            if after.contains(default_cf_name()) {
                let k = choose|k: int| 0 <= k < after.len() && after[k] == default_cf_name();
                if k < j {
                    assert(before[k] == default_cf_name());
                }
            }
        }
        j = j + 1;
    }
    assert(requested.subrange(0, j as int) =~= requested);
    if names.len() > 0 && !has_default {
        let ghost before = names_view(names@);
        names.push(default_name);
        assert(names_view(names@) =~= before.push(default_cf_name()));
    }
    let count: i32 = names.len() as i32;
    match descriptor.ttl_open(count) {
        Ok(ttls) => Ok(OpenPlan { path: cpath, column_families: names, ttls }),
        Err(e) => Err(e),
    }
}

/// Each column family opened, by name, paired with the handle address that
/// the native open handed back in the same slot.
pub open spec fn zip_handles(names: Seq<Seq<char>>, handles: Seq<usize>) -> Seq<(Seq<char>, usize)> {
    Seq::new(names.len(), |i: int| (names[i], handles[i]))
}

/// Completes an open: the database's address and the handle addresses that
/// the native open filled in, slot by slot for the column families of the
/// plan, become the database object, whose registry holds them in name order. An unset address, or a name opened
/// twice, is refused.
pub fn finish_ttl_open(
    path: String,
    descriptor: TTLOpenDescriptor,
    column_families: Vec<String>,
    pointer: usize,
    handles: Vec<usize>,
) -> (r: Result<DBWithTTL, Error>)
    requires
        handles@.len() == column_families@.len(),
    ensures
        ({
            let cfs = zip_handles(names_view(column_families@), handles@);
            &&& r is Ok <==> pointer != 0 && handles_set(cfs) && unique_names(cfs)
            &&& r is Ok ==> r->Ok_0@.handle == pointer && r->Ok_0@.path == path@
            &&& r is Ok ==> registry_of(r->Ok_0@.cfs, cfs)
            &&& pointer == 0 ==> r is Err && r->Err_0@ == "Could not initialize database."@
            &&& pointer != 0 && !handles_set(cfs) ==> r is Err && r->Err_0@
                == "Received null column family handle from DB."@
            &&& pointer != 0 && handles_set(cfs) && !unique_names(cfs) ==> r is Err && r->Err_0@
                == "Duplicate column family name."@
        }),
{
    let ghost cfs = zip_handles(names_view(column_families@), handles@);
    let mut pairs: Vec<(String, usize)> = Vec::new();
    let mut i: usize = 0;
    while i < column_families.len()
        invariant
            i <= column_families@.len(),
            handles@.len() == column_families@.len(),
            cfs == zip_handles(names_view(column_families@), handles@),
            pairs_view(pairs@) == cfs.subrange(0, i as int),
        decreases column_families@.len() - i,
    {
        let ghost before = pairs_view(pairs@);
        pairs.push((column_families[i].clone(), handles[i]));
        assert(pairs_view(pairs@) =~= cfs.subrange(0, i + 1)) by {
            assert(pairs_view(pairs@) =~= before.push(cfs[i as int]));
        }
        i = i + 1;
    }
    assert(cfs.subrange(0, i as int) =~= cfs);
    DBWithTTL::build(path, descriptor, pointer, pairs)
}

/// A per-column TTL list must have one entry for each column family that is
/// opened. Where the requested column families already name the default one,
/// those are exactly the column families opened; where none are requested,
/// the list must have exactly one entry. Any other length is refused by the
/// open plan, before any native call.
pub proof fn lemma_ttl_count_mismatch_refused(requested: Seq<Seq<char>>, ttls: Seq<i32>)
    requires
        requested.len() == 0 || requested.contains(default_cf_name()),
        requested.len() == 0 ==> ttls.len() != 1,
        requested.len() > 0 ==> ttls.len() != requested.len(),
    ensures
        names_to_open(requested) == requested,
        ttls_for(names_to_open(requested).len(), TtlsModel::Columns(ttls)) is None,
{
}

} // verus!
