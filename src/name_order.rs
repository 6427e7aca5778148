//! The order of column-family names: lexicographic on their UTF-8 bytes, the
//! order in which `String` compares.
use vstd::prelude::*;
use vstd::string::StringSliceAdditionalSpecFns;
use vstd::utf8::{encode_utf8, encode_utf8_decode_utf8};

use crate::column_family::unique_names;

verus! {

/// Whether `a` comes before `b` in lexicographic byte order, given that
/// their first `i` bytes agree.
pub open spec fn bytes_lt_from(a: Seq<u8>, b: Seq<u8>, i: int) -> bool
    decreases a.len() - i,
{
    if i < 0 || i >= b.len() {
        false
    } else if i >= a.len() {
        true
    } else if a[i] != b[i] {
        a[i] < b[i]
    } else {
        bytes_lt_from(a, b, i + 1)
    }
}

/// Whether `a` comes before `b` in lexicographic byte order.
pub open spec fn bytes_lt(a: Seq<u8>, b: Seq<u8>) -> bool {
    bytes_lt_from(a, b, 0)
}

/// Whether the name `a` comes before the name `b`: their UTF-8 bytes compare
/// so.
pub open spec fn name_lt(a: Seq<char>, b: Seq<char>) -> bool {
    bytes_lt(encode_utf8(a), encode_utf8(b))
}

/// Whether the names of the entries are in strictly ascending order.
pub open spec fn sorted_names(entries: Seq<(Seq<char>, usize)>) -> bool {
    forall|i: int, j: int|
        0 <= i < j < entries.len() ==> name_lt(#[trigger] entries[i].0, #[trigger] entries[j].0)
}

/// No byte sequence comes before itself.
pub proof fn lemma_bytes_lt_irreflexive(a: Seq<u8>, i: int)
    ensures
        !bytes_lt_from(a, a, i),
    decreases a.len() - i,
{
    if 0 <= i < a.len() {
        lemma_bytes_lt_irreflexive(a, i + 1);
    }
}

/// Byte order is transitive.
pub proof fn lemma_bytes_lt_transitive(a: Seq<u8>, b: Seq<u8>, c: Seq<u8>, i: int)
    requires
        bytes_lt_from(a, b, i),
        bytes_lt_from(b, c, i),
    ensures
        bytes_lt_from(a, c, i),
    decreases a.len() - i,
{
    if i < a.len() && a[i] == b[i] && b[i] == c[i] {
        lemma_bytes_lt_transitive(a, b, c, i + 1);
    }
}

/// No name comes before itself.
pub proof fn lemma_name_lt_irreflexive(a: Seq<char>)
    ensures
        !name_lt(a, a),
{
    lemma_bytes_lt_irreflexive(encode_utf8(a), 0);
}

/// Name order is transitive.
pub proof fn lemma_name_lt_transitive(a: Seq<char>, b: Seq<char>, c: Seq<char>)
    requires
        name_lt(a, b),
        name_lt(b, c),
    ensures
        name_lt(a, c),
{
    lemma_bytes_lt_transitive(encode_utf8(a), encode_utf8(b), encode_utf8(c), 0);
}

/// Names in strictly ascending order are distinct.
pub proof fn lemma_sorted_distinct(entries: Seq<(Seq<char>, usize)>, i: int, j: int)
    requires
        sorted_names(entries),
        0 <= i < entries.len(),
        0 <= j < entries.len(),
        entries[i].0 == entries[j].0,
    ensures
        i == j,
{
    if i < j {
        assert(name_lt(entries[i].0, entries[j].0));
        lemma_name_lt_irreflexive(entries[i].0);
    } else if j < i {
        assert(name_lt(entries[j].0, entries[i].0));
        lemma_name_lt_irreflexive(entries[i].0);
    }
}

/// Names in strictly ascending order occur once each.
pub proof fn lemma_sorted_unique(entries: Seq<(Seq<char>, usize)>)
    requires
        sorted_names(entries),
    ensures
        unique_names(entries),
{
    assert forall|i: int, j: int|
        0 <= i < entries.len() && 0 <= j < entries.len() && #[trigger] entries[i].0
            == #[trigger] entries[j].0 implies i == j by {
        lemma_sorted_distinct(entries, i, j);
    }
}

/// Compares two names in byte order: negative when `a` comes first, zero
/// when they are equal, positive when `b` comes first.
pub fn compare_names(a: &str, b: &str) -> (r: i8)
    ensures
        r < 0 <==> name_lt(a@, b@),
        r == 0 <==> a@ == b@,
        r > 0 <==> name_lt(b@, a@),
{
    let ab = a.as_bytes();
    let bb = b.as_bytes();
    let ghost sa = encode_utf8(a@);
    let ghost sb = encode_utf8(b@);
    let mut i: usize = 0;
    while i < ab.len() && i < bb.len()
        invariant
            sa == encode_utf8(a@),
            sb == encode_utf8(b@),
            ab@ == sa,
            bb@ == sb,
            i <= ab@.len(),
            i <= bb@.len(),
            forall|k: int| 0 <= k < i ==> ab@[k] == bb@[k],
            bytes_lt_from(sa, sb, 0) == bytes_lt_from(sa, sb, i as int),
            bytes_lt_from(sb, sa, 0) == bytes_lt_from(sb, sa, i as int),
        decreases ab@.len() - i,
    {
        if ab[i] != bb[i] {
            proof {
                assert(sa[i as int] != sb[i as int]);
                assert(sa != sb);
                assert(bytes_lt_from(sa, sb, i as int) == (sa[i as int] < sb[i as int]));
                assert(bytes_lt_from(sb, sa, i as int) == (sb[i as int] < sa[i as int]));
            }
            if ab[i] < bb[i] {
                return -1;
            } else {
                return 1;
            }
        }
        assert(bytes_lt_from(sa, sb, i as int) == bytes_lt_from(sa, sb, i + 1));
        assert(bytes_lt_from(sb, sa, i as int) == bytes_lt_from(sb, sa, i + 1));
        i = i + 1;
    }
    if ab.len() < bb.len() {
        proof {
            assert(sa.len() != sb.len());
        }
        -1
    } else if bb.len() < ab.len() {
        proof {
            assert(sa.len() != sb.len());
        }
        1
    } else {
        proof {
            assert(sa =~= sb);
            encode_utf8_decode_utf8(a@);
            encode_utf8_decode_utf8(b@);
            lemma_name_lt_irreflexive(a@);
        }
        0
    }
}

} // verus!
