//! Option updates on a live database: the name/value pairs are checked for
//! native use before the native call, and an empty update is refused.
use vstd::prelude::*;
use vstd::string::StringSliceAdditionalSpecFns;

use crate::error::Error;
use crate::ffi_util::{c_compatible, to_cstring};

verus! {

/// Whether every name and value of the pairs can travel as a native string.
pub open spec fn option_pairs_c_compatible(opts: Seq<(&str, &str)>) -> bool {
    forall|i: int|
        0 <= i < opts.len() ==> c_compatible((#[trigger] opts[i]).0.spec_bytes()) && c_compatible(
            opts[i].1.spec_bytes(),
        )
}

/// The index of the first pair whose name or value cannot travel as a
/// native string.
pub open spec fn first_bad_pair(opts: Seq<(&str, &str)>, i: int) -> bool {
    &&& 0 <= i < opts.len()
    &&& !(c_compatible(opts[i].0.spec_bytes()) && c_compatible(opts[i].1.spec_bytes()))
    &&& option_pairs_c_compatible(opts.subrange(0, i))
}

/// Prepares an option update: each name and value, followed by the native
/// terminator, in order. An empty update is refused, and so is a pair whose
/// name or value holds the terminator; the first such pair decides which
/// error is given.
pub fn option_pairs(opts: &[(&str, &str)]) -> (r: Result<Vec<(Vec<u8>, Vec<u8>)>, Error>)
    ensures
        r is Ok <==> opts@.len() > 0 && option_pairs_c_compatible(opts@),
        r is Ok ==> r->Ok_0@.len() == opts@.len(),
        r is Ok ==> forall|i: int|
            0 <= i < opts@.len() ==> (#[trigger] r->Ok_0@[i]).0@ == opts@[i].0.spec_bytes().push(
                0u8,
            ) && r->Ok_0@[i].1@ == opts@[i].1.spec_bytes().push(0u8),
        opts@.len() == 0 ==> r is Err && r->Err_0@ == "Options to set must not be empty."@,
        forall|i: int|
            first_bad_pair(opts@, i) ==> r is Err && (if !c_compatible(opts@[i].0.spec_bytes()) {
                r->Err_0@ == "Invalid option name."@
            } else {
                r->Err_0@ == "Invalid option value."@
            }),
{
    if opts.len() == 0 {
        return Err(Error::new("Options to set must not be empty.".to_owned()));
    }
    let mut out: Vec<(Vec<u8>, Vec<u8>)> = Vec::new();
    let mut i: usize = 0;
    while i < opts.len()
        invariant
            i <= opts@.len(),
            opts@.len() > 0,
            out@.len() == i,
            option_pairs_c_compatible(opts@.subrange(0, i as int)),
            forall|k: int|
                0 <= k < i ==> (#[trigger] out@[k]).0@ == opts@[k].0.spec_bytes().push(0u8)
                    && out@[k].1@ == opts@[k].1.spec_bytes().push(0u8),
        decreases opts@.len() - i,
    {
        let (name, value) = opts[i];
        proof {
            assert forall|k: int| first_bad_pair(opts@, k) implies k >= i by {
                if k < i {
                    assert(opts@.subrange(0, i as int)[k] == opts@[k]);
                }
            }
        }
        let cname = match to_cstring(name, "Invalid option name.") {
            Ok(c) => c,
            Err(e) => {
                proof {
                    assert(first_bad_pair(opts@, i as int)) by {
                        assert(opts@.subrange(0, i as int) =~= opts@.subrange(0, i as int));
                    }
                    assert forall|k: int| first_bad_pair(opts@, k) implies k == i by {
                        if k > i {
                            assert(opts@.subrange(0, k)[i as int] == opts@[i as int]);
                        }
                    }
                }
                return Err(e);
            },
        };
        let cvalue = match to_cstring(value, "Invalid option value.") {
            Ok(c) => c,
            Err(e) => {
                proof {
                    assert forall|k: int| first_bad_pair(opts@, k) implies k == i by {
                        if k > i {
                            assert(opts@.subrange(0, k)[i as int] == opts@[i as int]);
                        }
                    }
                }
                return Err(e);
            },
        };
        out.push((cname, cvalue));
        proof {
            assert forall|k: int| 0 <= k < i + 1 implies c_compatible(
                (#[trigger] opts@.subrange(0, i + 1)[k]).0.spec_bytes(),
            ) && c_compatible(opts@.subrange(0, i + 1)[k].1.spec_bytes()) by {
                if k < i {
                    assert(opts@.subrange(0, i as int)[k] == opts@[k]);
                }
            }
        }
        i = i + 1;
    }
    assert(opts@.subrange(0, i as int) =~= opts@);
    Ok(out)
}

} // verus!
