//! Reading plain Rust values from AMF0 bytes.

use vstd::prelude::*;

use crate::amf0::number::{spec_parse_number, AmfNumber};
use crate::amf0::string::{parse_string, spec_parse_string};
use crate::amf0::value::{pairs_view, spec_parse_entries, AmfObject, Value};
use crate::error::AmfError;

verus! {

/// Reads a number's eight bytes from the front of `stream` and advances
/// `stream` past them; on an error `stream` is left as it was.
pub fn read_number(stream: &mut &[u8]) -> (r: Result<AmfNumber, AmfError>)
    ensures
        match spec_parse_number(old(stream)@) {
            Ok((v, n)) => r matches Ok(x) && x@ == v && final(stream)@ == old(stream)@.skip(n),
            Err(e) => r == Err::<AmfNumber, AmfError>(e) && final(stream)@ == old(stream)@,
        },
{
    // Content (64 Float)
    AmfNumber::deserialize(stream)
}

/// Reads a string (16-bit length, then UTF-8) from the front of `stream`
/// and advances `stream` past it; on an error `stream` is left as it was.
pub fn read_string(stream: &mut &[u8]) -> (r: Result<String, AmfError>)
    ensures
        match spec_parse_string(old(stream)@) {
            Ok((c, n)) => r matches Ok(s) && s@ == c && final(stream)@ == old(stream)@.skip(n),
            Err(e) => r matches Err(x) && x == e && final(stream)@ == old(stream)@,
        },
{
    let data: &[u8] = *stream;
    match parse_string(data) {
        Ok((s, n)) => {
            *stream = data.split_at(n).1;
            Ok(s)
        },
        Err(e) => Err(e),
    }
}

/// Reads an object's pairs (up to and including the object end marker) from
/// the front of `stream` and advances `stream` past them; on an error
/// `stream` is left as it was.
pub fn read_object(stream: &mut &[u8]) -> (r: Result<Vec<(String, Value)>, AmfError>)
    ensures
        match spec_parse_entries(old(stream)@, Seq::empty()) {
            Ok((es, n)) => r matches Ok(ps) && pairs_view(ps@) == es && final(stream)@ == old(
                stream,
            )@.skip(n),
            Err(e) => r matches Err(x) && x == e && final(stream)@ == old(stream)@,
        },
        spec_parse_entries(old(stream)@, Seq::empty()) matches Ok((_, n)) ==> 0 <= n <= old(
            stream,
        )@.len(),
{
    match AmfObject::deserialize(stream) {
        Ok(o) => Ok(o.to_hashmap()),
        Err(e) => Err(e),
    }
}

} // verus!
