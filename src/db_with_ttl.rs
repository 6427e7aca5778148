//! The time-to-live variant of the database: its open descriptor, the choice
//! of native open entry point that the descriptor makes, and the database
//! object with its column-family registry.
//!
//! TTL is accepted in seconds; a non-positive TTL means that entries never
//! expire. The native engine suffixes each value with its creation time and
//! removes expired entries only during compaction, so reads may still see
//! them. Different opens of the same data may use different TTLs.
use vstd::prelude::*;
use vstd::string::StringSliceAdditionalSpecFns;
use vstd::utf8::{decode_utf8, valid_utf8};

use crate::column_family::{
    ColumnFamilies, ColumnFamily, contains_name, lookup, names_at, unique_names,
};
use crate::error::Error;
use crate::ffi_util::{c_compatible, ffi_try, to_cstring, utf8_lossy};
use crate::name_order::{lemma_sorted_unique, sorted_names};

verus! {

/// The TTLs of an open, in seconds: one for every column family, or one per
/// column family.
pub enum TTLs {
    Default(i32),
    Columns(Vec<i32>),
}

/// What a TTL configuration says: one TTL for every column family, or one
/// TTL per column family, in order.
pub enum TtlsModel {
    Default(i32),
    Columns(Seq<i32>),
}

impl View for TTLs {
    type V = TtlsModel;

    open spec fn view(&self) -> TtlsModel {
        match self {
            TTLs::Default(t) => TtlsModel::Default(*t),
            TTLs::Columns(v) => TtlsModel::Columns(v@),
        }
    }
}

/// How TTLs are given when a database is opened with column families.
pub struct TTLOpenDescriptor {
    ttls: TTLs,
}

impl View for TTLOpenDescriptor {
    type V = TtlsModel;

    closed spec fn view(&self) -> TtlsModel {
        self.ttls@
    }
}

impl Default for TTLOpenDescriptor {
    /// No expiry for any column family.
    fn default() -> (r: Self)
        ensures
            r@ == TtlsModel::Default(-1i32),
    {
        TTLOpenDescriptor { ttls: TTLs::Default(-1) }
    }
}

/// The TTLs that an open hands to the native engine for `n` column families,
/// one each; `n == 0` stands for an open without explicit column families,
/// which takes a single TTL. None where a per-column list does not have that
/// many entries.
pub open spec fn ttls_for(n: nat, ttls: TtlsModel) -> Option<Seq<i32>> {
    let slots: nat = if n == 0 { 1 } else { n };
    match ttls {
        TtlsModel::Default(t) => Some(Seq::new(slots, |_i: int| t)),
        TtlsModel::Columns(v) => if v.len() == slots { Some(v) } else { None },
    }
}

/// The native open entry point chosen for a TTL database, with its TTLs.
pub enum TtlOpen {
    /// Open without explicit column families, with this TTL.
    Plain(i32),
    /// Open with column families, with these TTLs, one per column family.
    ColumnFamilies(Vec<i32>),
}

/// The native open call that a TTL database makes for `n` column families:
/// `Plain` without them, `ColumnFamilies` with them, each with the TTLs that
/// `ttls_for` gives.
pub open spec fn ttl_open_matches(o: TtlOpen, n: nat, ttls: Seq<i32>) -> bool {
    match o {
        TtlOpen::Plain(t) => n == 0 && ttls == seq![t],
        TtlOpen::ColumnFamilies(v) => n > 0 && v@ == ttls,
    }
}

impl TTLOpenDescriptor {
    pub fn by_columns(ttls: Vec<i32>) -> (r: Self)
        ensures
            r@ == TtlsModel::Columns(ttls@),
    {
        TTLOpenDescriptor { ttls: TTLs::Columns(ttls) }
    }

    pub fn by_default(ttl: i32) -> (r: Self)
        ensures
            r@ == TtlsModel::Default(ttl),
    {
        TTLOpenDescriptor { ttls: TTLs::Default(ttl) }
    }

    pub fn ttls(&self) -> (r: &TTLs)
        ensures
            r@ == self@,
    {
        &self.ttls
    }

    /// Chooses the native open call for `num_column_families` column
    /// families (none when it is not positive) and checks the descriptor
    /// against that count before any native call is made.
    pub fn ttl_open(&self, num_column_families: i32) -> (r: Result<TtlOpen, Error>)
        ensures
            ({
                let n: nat = if num_column_families <= 0 { 0 } else { num_column_families as nat };
                &&& r is Ok <==> ttls_for(n, self@) is Some
                &&& r is Ok ==> ttl_open_matches(r->Ok_0, n, ttls_for(n, self@)->Some_0)
                &&& r is Err ==> r->Err_0@ == "Ttls size has to be the same as number of column families"@
            }),
    {
        let slots: usize = if num_column_families <= 0 { 1 } else { num_column_families as usize };
        let ttls: Vec<i32> = match &self.ttls {
            TTLs::Default(t) => {
                let mut v: Vec<i32> = Vec::new();
                while v.len() < slots
                    invariant
                        v@.len() <= slots,
                        forall|i: int| 0 <= i < v@.len() ==> v@[i] == *t,
                    decreases slots - v@.len(),
                {
                    v.push(*t);
                }
                assert(v@ =~= Seq::new(slots as nat, |_i: int| *t));
                v
            },
            TTLs::Columns(v) => {
                if v.len() != slots {
                    return Err(
                        Error::new(
                            "Ttls size has to be the same as number of column families".to_owned(),
                        ),
                    );
                }
                v.clone()
            },
        };
        if num_column_families <= 0 {
            assert(ttls@ =~= seq![ttls@[0]]);
            Ok(TtlOpen::Plain(ttls[0]))
        } else {
            Ok(TtlOpen::ColumnFamilies(ttls))
        }
    }
}

/// Names paired with handle addresses, as plain values.
pub open spec fn pairs_view(pairs: Seq<(String, usize)>) -> Seq<(Seq<char>, usize)> {
    pairs.map_values(|p: (String, usize)| (p.0@, p.1))
}

/// Whether every handle address in the entries is set.
pub open spec fn handles_set(entries: Seq<(Seq<char>, usize)>) -> bool {
    forall|i: int| 0 <= i < entries.len() ==> #[trigger] entries[i].1 != 0
}

/// Whether `cfs` is the registry of the given pairs: the same pairs, each
/// once, in ascending order of name.
pub open spec fn registry_of(
    cfs: Seq<(Seq<char>, usize)>,
    pairs: Seq<(Seq<char>, usize)>,
) -> bool {
    &&& sorted_names(cfs)
    &&& cfs.len() == pairs.len()
    &&& cfs.to_set() == pairs.to_set()
}

proof fn lemma_insert_to_set<A>(s: Seq<A>, k: int, e: A)
    requires
        0 <= k <= s.len(),
    ensures
        s.insert(k, e).to_set() == s.to_set().insert(e),
{
    let t = s.insert(k, e);
    assert forall|x: A| t.to_set().contains(x) <==> s.to_set().insert(e).contains(x) by {
        if t.contains(x) {
            let i = choose|i: int| 0 <= i < t.len() && t[i] == x;
            if i < k {
                assert(s[i] == x);
            } else if i > k {
                assert(s[i - 1] == x);
            }
        }
        if s.contains(x) {
            let i = choose|i: int| 0 <= i < s.len() && s[i] == x;
            if i < k {
                assert(t[i] == x);
            } else {
                assert(t[i + 1] == x);
            }
        }
        if x == e {
            assert(t[k] == x);
        }
    }
    assert(t.to_set() =~= s.to_set().insert(e));
}

/// What a database object holds: the address of the native database, the
/// path it was opened at, and its column-family registry.
pub struct DbModel {
    pub handle: usize,
    pub path: Seq<char>,
    pub cfs: Seq<(Seq<char>, usize)>,
}

/// A database opened with time-to-live semantics. It owns the native
/// database and every column-family handle in its registry; `close` hands
/// them out once, handles first, for release.
pub struct DBWithTTL {
    inner: usize,
    cfs: ColumnFamilies,
    path: String,
}

impl View for DBWithTTL {
    type V = DbModel;

    closed spec fn view(&self) -> DbModel {
        DbModel { handle: self.inner, path: self.path@, cfs: self.cfs@ }
    }
}

impl DBWithTTL {
    /// A live database: its native address is set, and so is each handle
    /// of its registry.
    #[verifier::type_invariant]
    spec fn wf(self) -> bool {
        &&& self.inner != 0
        &&& handles_set(self.cfs@)
    }

    /// Builds the database object from what the native open handed back: the
    /// database's address and, for each column family opened, its name and
    /// handle address. The registry holds those pairs in name order. An unset
    /// address or a name given twice is refused.
    pub fn build(
        path: String,
        _open_descriptor: TTLOpenDescriptor,
        pointer: usize,
        column_families: Vec<(String, usize)>,
    ) -> (r: Result<Self, Error>)
        ensures
            r is Ok <==> pointer != 0 && handles_set(pairs_view(column_families@)) && unique_names(
                pairs_view(column_families@),
            ),
            r is Ok ==> r->Ok_0@.handle == pointer && r->Ok_0@.path == path@,
            r is Ok ==> registry_of(r->Ok_0@.cfs, pairs_view(column_families@)),
            pointer == 0 ==> r is Err && r->Err_0@ == "Could not initialize database."@,
            pointer != 0 && !handles_set(pairs_view(column_families@)) ==> r is Err
                && r->Err_0@ == "Received null column family handle from DB."@,
            pointer != 0 && handles_set(pairs_view(column_families@)) && !unique_names(
                pairs_view(column_families@),
            ) ==> r is Err && r->Err_0@ == "Duplicate column family name."@,
    {
        let ghost pairs = pairs_view(column_families@);
        if pointer == 0 {
            return Err(Error::new("Could not initialize database.".to_owned()));
        }
        let mut i: usize = 0;
        while i < column_families.len()
            invariant
                i <= column_families@.len(),
                pointer != 0,
                pairs == pairs_view(column_families@),
                forall|k: int| 0 <= k < i ==> #[trigger] pairs[k].1 != 0,
            decreases column_families@.len() - i,
        {
            if column_families[i].1 == 0 {
                assert(pairs[i as int].1 == 0);
                return Err(Error::new("Received null column family handle from DB.".to_owned()));
            }
            i = i + 1;
        }
        let mut cfs = ColumnFamilies::new();
        let mut j: usize = 0;
        assert(cfs@.to_set() =~= pairs.subrange(0, 0).to_set());
        while j < column_families.len()
            invariant
                j <= column_families@.len(),
                pointer != 0,
                pairs == pairs_view(column_families@),
                handles_set(pairs),
                handles_set(cfs@),
                cfs@.len() == j,
                cfs@.to_set() == pairs.subrange(0, j as int).to_set(),
                unique_names(pairs.subrange(0, j as int)),
            decreases column_families@.len() - j,
        {
            let ghost old_cfs = cfs@;
            let ghost sub = pairs.subrange(0, j as int);
            let ghost e = pairs[j as int];
            let name = column_families[j].0.clone();
            let replaced = cfs.insert(name, ColumnFamily::new(column_families[j].1));
            assert(column_families@[j as int].0@ == e.0);
            if replaced.is_some() {
                proof {
                    let idx = choose|idx: int| names_at(old_cfs, e.0, idx);
                    assert(old_cfs.to_set().contains(old_cfs[idx]));
                    assert(sub.to_set().contains(old_cfs[idx]));
                    let k = choose|k: int| 0 <= k < sub.len() && sub[k] == old_cfs[idx];
                    assert(pairs[k].0 == pairs[j as int].0);
                }
                return Err(Error::new("Duplicate column family name.".to_owned()));
            }
            proof {
                let kk = choose|kk: int|
                    0 <= kk <= old_cfs.len() && cfs@ == old_cfs.insert(kk, e);
                lemma_insert_to_set(old_cfs, kk, e);
                let next = pairs.subrange(0, j + 1);
                assert(next =~= sub.insert(j as int, e));
                lemma_insert_to_set(sub, j as int, e);
                assert forall|a: int| 0 <= a < cfs@.len() implies #[trigger] cfs@[a].1 != 0 by {
                    if a < kk {
                        assert(cfs@[a] == old_cfs[a]);
                    } else if a > kk {
                        assert(cfs@[a] == old_cfs[a - 1]);
                    }
                }
                assert forall|a: int, b: int|
                    0 <= a < next.len() && 0 <= b < next.len() && #[trigger] next[a].0
                        == #[trigger] next[b].0 implies a == b by {
                    if a < j && b == j {
                        assert(sub.to_set().contains(sub[a]));
                        assert(old_cfs.to_set().contains(sub[a]));
                        let idx = choose|idx: int| 0 <= idx < old_cfs.len() && old_cfs[idx] == sub[a];
                        assert(names_at(old_cfs, e.0, idx));
                    } else if a == j && b < j {
                        assert(sub.to_set().contains(sub[b]));
                        assert(old_cfs.to_set().contains(sub[b]));
                        let idx = choose|idx: int| 0 <= idx < old_cfs.len() && old_cfs[idx] == sub[b];
                        assert(names_at(old_cfs, e.0, idx));
                    } else if a < j && b < j {
                        assert(sub[a].0 == sub[b].0);
                    }
                }
            }
            j = j + 1;
        }
        assert(pairs.subrange(0, j as int) =~= pairs);
        proof {
            use_type_invariant(&cfs);
        }
        Ok(DBWithTTL { inner: pointer, cfs, path })
    }

    pub fn path(&self) -> (r: &str)
        ensures
            r@ == self@.path,
    {
        self.path.as_str()
    }

    /// The address of the native database, for a native call.
    pub fn handle(&self) -> (r: usize)
        ensures
            r == self@.handle,
    {
        self.inner
    }

    /// The column-family registry.
    pub fn get_cfs(&self) -> (r: &ColumnFamilies)
        ensures
            r@ == self@.cfs,
            sorted_names(r@),
    {
        proof {
            use_type_invariant(&self.cfs);
        }
        &self.cfs
    }

    /// The handle of the column family named `name`.
    pub fn cf_handle(&self, name: &str) -> (r: Option<&ColumnFamily>)
        ensures
            r is Some <==> contains_name(self@.cfs, name@),
            r is Some ==> lookup(self@.cfs, name@) == Some(r->Some_0@),
    {
        self.cfs.get(name)
    }

    /// Registers a column family that the native engine has just created,
    /// under `name`, with the handle address it handed back. An unset
    /// address is refused. A handle registered under the same name before is
    /// handed back for release.
    pub fn register_cf(&mut self, name: String, handle: usize) -> (r: Result<
        Option<ColumnFamily>,
        Error,
    >)
        ensures
            final(self)@.handle == old(self)@.handle,
            final(self)@.path == old(self)@.path,
            r is Err <==> handle == 0,
            r is Err ==> final(self)@ == old(self)@ && r->Err_0@
                == "Received null column family handle from DB."@,
            r is Ok ==> lookup(final(self)@.cfs, name@) == Some(handle),
            r is Ok ==> (r->Ok_0 is Some <==> contains_name(old(self)@.cfs, name@)),
            r is Ok && r->Ok_0 is Some ==> lookup(old(self)@.cfs, name@) == Some(
                r->Ok_0->Some_0@,
            ),
            r is Ok && r->Ok_0 is Some ==> exists|i: int|
                names_at(old(self)@.cfs, name@, i) && final(self)@.cfs == old(self)@.cfs.update(
                    i,
                    (name@, handle),
                ),
            r is Ok && r->Ok_0 is None ==> exists|k: int|
                0 <= k <= old(self)@.cfs.len() && final(self)@.cfs == old(self)@.cfs.insert(
                    k,
                    (name@, handle),
                ),
            sorted_names(final(self)@.cfs),
    {
        proof {
            use_type_invariant(&*self);
            use_type_invariant(&self.cfs);
        }
        if handle == 0 {
            return Err(Error::new("Received null column family handle from DB.".to_owned()));
        }
        let ghost name_v = name@;
        let mut cfs = ColumnFamilies::new();
        std::mem::swap(&mut cfs, &mut self.cfs);
        let replaced = cfs.insert(name, ColumnFamily::new(handle));
        proof {
            use_type_invariant(&cfs);
            let before = old(self)@.cfs;
            let after = cfs@;
            lemma_sorted_unique(after);
            if replaced is Some {
                let k = choose|k: int|
                    names_at(before, name_v, k) && after == before.update(k, (name_v, handle));
                assert(names_at(after, name_v, k));
                let i = choose|i: int| names_at(after, name_v, i);
                assert(i == k);
                assert forall|a: int| 0 <= a < after.len() implies #[trigger] after[a].1 != 0 by {
                    if a != k {
                        assert(after[a] == before[a]);
                    }
                }
            } else {
                let k = choose|k: int|
                    0 <= k <= before.len() && after == before.insert(k, (name_v, handle));
                assert(names_at(after, name_v, k));
                let i = choose|i: int| names_at(after, name_v, i);
                assert(i == k);
                assert forall|a: int| 0 <= a < after.len() implies #[trigger] after[a].1 != 0 by {
                    if a < k {
                        assert(after[a] == before[a]);
                    } else if a > k {
                        assert(after[a] == before[a - 1]);
                    }
                }
            }
        }
        self.cfs = cfs;
        Ok(replaced)
    }

    /// Checks the name of a column family to create, for the native call: its
    /// bytes followed by the terminator. A name that holds the terminator is
    /// refused.
    pub fn create_cf_name(name: &str) -> (r: Result<Vec<u8>, Error>)
        ensures
            r is Ok <==> c_compatible(name.spec_bytes()),
            r is Ok ==> r->Ok_0@ == name.spec_bytes().push(0u8),
            r is Err ==> r->Err_0@ == "Failed to convert path to CString when opening rocksdb"@,
    {
        to_cstring(name, "Failed to convert path to CString when opening rocksdb")
    }

    /// Completes the creation of a column family with a TTL from what the
    /// native create call handed back: the new handle's address and the error
    /// string, if one was filled in. On an error string the registry is left
    /// as it was and the native text is returned. Otherwise the handle is
    /// registered under `name`, as `register_cf` does.
    pub fn finish_create_cf(&mut self, name: String, handle: usize, err: Option<Vec<u8>>) -> (r:
        Result<Option<ColumnFamily>, Error>)
        ensures
            final(self)@.handle == old(self)@.handle,
            final(self)@.path == old(self)@.path,
            sorted_names(final(self)@.cfs),
            err is Some ==> final(self)@ == old(self)@ && r is Err && r->Err_0@ == utf8_lossy(
                err->Some_0@,
            ),
            err is Some && valid_utf8(err->Some_0@) ==> r->Err_0@ == decode_utf8(err->Some_0@),
            err is None ==> (r is Err <==> handle == 0),
            err is None && r is Err ==> final(self)@ == old(self)@ && r->Err_0@
                == "Received null column family handle from DB."@,
            r is Ok ==> lookup(final(self)@.cfs, name@) == Some(handle),
            r is Ok ==> (r->Ok_0 is Some <==> contains_name(old(self)@.cfs, name@)),
            r is Ok && r->Ok_0 is Some ==> lookup(old(self)@.cfs, name@) == Some(
                r->Ok_0->Some_0@,
            ),
            r is Ok && r->Ok_0 is Some ==> exists|i: int|
                names_at(old(self)@.cfs, name@, i) && final(self)@.cfs == old(self)@.cfs.update(
                    i,
                    (name@, handle),
                ),
            r is Ok && r->Ok_0 is None ==> exists|k: int|
                0 <= k <= old(self)@.cfs.len() && final(self)@.cfs == old(self)@.cfs.insert(
                    k,
                    (name@, handle),
                ),
    {
        proof {
            use_type_invariant(&self.cfs);
        }
        match ffi_try(handle, err) {
            Ok(h) => self.register_cf(name, h),
            Err(e) => Err(e),
        }
    }

    /// Takes the column family named `name` out of the registry, for the
    /// caller to release once the native engine has dropped it.
    pub fn remove_cf(&mut self, name: &str) -> (r: Option<ColumnFamily>)
        ensures
            final(self)@.handle == old(self)@.handle,
            final(self)@.path == old(self)@.path,
            r is Some <==> contains_name(old(self)@.cfs, name@),
            r is Some ==> lookup(old(self)@.cfs, name@) == Some(r->Some_0@),
            r is Some ==> exists|i: int|
                names_at(old(self)@.cfs, name@, i) && final(self)@.cfs == old(self)@.cfs.remove(i),
            r is None ==> final(self)@ == old(self)@,
            !contains_name(final(self)@.cfs, name@),
            sorted_names(final(self)@.cfs),
    {
        proof {
            use_type_invariant(&*self);
            use_type_invariant(&self.cfs);
        }
        let mut cfs = ColumnFamilies::new();
        std::mem::swap(&mut cfs, &mut self.cfs);
        let r = cfs.remove(name);
        proof {
            if r is Some {
                let k = choose|k: int|
                    names_at(old(self)@.cfs, name@, k) && cfs@ == old(self)@.cfs.remove(k);
                assert forall|a: int| 0 <= a < cfs@.len() implies #[trigger] cfs@[a].1 != 0 by {
                    if a >= k {
                        assert(cfs@[a] == old(self)@.cfs[a + 1]);
                    }
                }
            }
        }
        self.cfs = cfs;
        r
    }

    /// Gives up the database for release: every column-family handle of the
    /// registry, once each and in name order, to be destroyed first, then the address of the
    /// native database, to be closed after them.
    pub fn close(self) -> (r: (Vec<ColumnFamily>, usize))
        ensures
            r.1 == self@.handle,
            r.0@.len() == self@.cfs.len(),
            forall|i: int| 0 <= i < r.0@.len() ==> #[trigger] r.0@[i]@ == self@.cfs[i].1,
            sorted_names(self@.cfs),
    {
        proof {
            use_type_invariant(&self.cfs);
        }
        let inner = self.inner;
        (self.cfs.into_handles(), inner)
    }
}

} // verus!
