//! Conversions at the native boundary: C-compatible strings, and the error
//! channel through which every fallible native call reports.
use vstd::prelude::*;
use vstd::string::StringSliceAdditionalSpecFns;
use vstd::utf8::{decode_utf8, valid_utf8};

use crate::error::Error;

verus! {

/// Whether bytes can travel as a native string: no byte may be the
/// terminator.
pub open spec fn c_compatible(bytes: Seq<u8>) -> bool {
    !bytes.contains(0u8)
}

/// The text that String::from_utf8_lossy makes of some bytes.
pub uninterp spec fn utf8_lossy(bytes: Seq<u8>) -> Seq<char>;

/// Relies on String::from_utf8_lossy: the text depends on the bytes alone,
/// and bytes that are valid UTF-8 are decoded as they stand.
#[verifier::external_body]
fn decode_lossy(bytes: &[u8]) -> (r: String)
    ensures
        r@ == utf8_lossy(bytes@),
        valid_utf8(bytes@) ==> r@ == decode_utf8(bytes@),
{
    String::from_utf8_lossy(bytes).into_owned()
}

/// The message of a native error string, given its bytes without the
/// terminator.
pub fn error_message(bytes: &[u8]) -> (r: String)
    ensures
        r@ == utf8_lossy(bytes@),
        valid_utf8(bytes@) ==> r@ == decode_utf8(bytes@),
{
    decode_lossy(bytes)
}

/// The error channel: a native call hands back its result together with the
/// bytes of the error string it filled in, if any. A filled error string
/// turns the call into a failure carrying that text; otherwise the call's own
/// result is returned.
pub fn ffi_try<T>(result: T, err: Option<Vec<u8>>) -> (r: Result<T, Error>)
    ensures
        err is None ==> r == Ok::<T, Error>(result),
        err is Some ==> r is Err && r->Err_0@ == utf8_lossy(err->Some_0@),
        err is Some && valid_utf8(err->Some_0@) ==> r->Err_0@ == decode_utf8(err->Some_0@),
{
    match err {
        None => Ok(result),
        Some(bytes) => Err(Error::new(error_message(bytes.as_slice()))),
    }
}

/// Checks a string for use as a native string and returns its bytes followed
/// by the terminator; a string that holds the terminator is refused with the
/// given message.
pub fn to_cstring(string: &str, error_message: &str) -> (r: Result<Vec<u8>, Error>)
    ensures
        r is Ok <==> c_compatible(string.spec_bytes()),
        r is Ok ==> r->Ok_0@ == string.spec_bytes().push(0u8),
        r is Err ==> r->Err_0@ == error_message@,
{
    let bytes = string.as_bytes();
    let mut out: Vec<u8> = Vec::new();
    let mut i: usize = 0;
    while i < bytes.len()
        invariant
            i <= bytes@.len(),
            bytes@ == string.spec_bytes(),
            out@ == bytes@.subrange(0, i as int),
            forall|k: int| 0 <= k < i ==> bytes@[k] != 0u8,
        decreases bytes@.len() - i,
    {
        if bytes[i] == 0u8 {
            assert(bytes@.contains(0u8)) by {
                assert(bytes@[i as int] == 0u8);
            }
            return Err(Error::new(error_message.to_owned()));
        }
        out.push(bytes[i]);
        i = i + 1;
    }
    assert(out@ == bytes@);
    out.push(0u8);
    Ok(out)
}

/// A filesystem path, given as text, converted like any other native string.
pub fn to_cpath(path: &str, error_message: &str) -> (r: Result<Vec<u8>, Error>)
    ensures
        r is Ok <==> c_compatible(path.spec_bytes()),
        r is Ok ==> r->Ok_0@ == path.spec_bytes().push(0u8),
        r is Err ==> r->Err_0@ == error_message@,
{
    to_cstring(path, error_message)
}

} // verus!
