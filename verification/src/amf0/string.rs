//! AMF0 strings: a 16-bit big-endian byte length, then UTF-8 bytes.

use vstd::prelude::*;
use vstd::utf8::{decode_utf8, encode_utf8, valid_utf8};

use crate::bytes::{be16, be16_bytes, copy_range, lemma_be16_roundtrip, push_all, push_be16};
use crate::error::AmfError;

verus! {

/// The longest string, in UTF-8 bytes, that a 16-bit length describes.
pub const MAX_STRING_BYTES: usize = 65535;

/// A string short enough for AMF0's 16-bit length.
#[derive(Debug, PartialEq, Eq, Hash)]
pub struct AmfString(String);

impl View for AmfString {
    type V = Seq<char>;

    closed spec fn view(&self) -> Seq<char> {
        self.0@
    }
}

impl Clone for AmfString {
    fn clone(&self) -> (r: Self)
        ensures
            r@ == self@,
    {
        proof {
            use_type_invariant(self);
        }
        Self(self.0.clone())
    }
}

/// Whether the UTF-8 form of `c` fits a 16-bit length.
pub open spec fn string_fits(c: Seq<char>) -> bool {
    encode_utf8(c).len() <= MAX_STRING_BYTES
}

/// The string at the start of `s` (a big-endian 16-bit byte length, then
/// that many bytes of UTF-8), and the bytes it takes.
pub open spec fn spec_parse_string(s: Seq<u8>) -> Result<(Seq<char>, int), AmfError> {
    if s.len() < 2 {
        Err(AmfError::NotEnoughData)
    } else {
        let len = be16(s[0], s[1]);
        if s.len() < 2 + len {
            Err(AmfError::NotEnoughData)
        } else if !valid_utf8(s.subrange(2, 2 + len)) {
            Err(AmfError::InvalidUtf8)
        } else {
            Ok((decode_utf8(s.subrange(2, 2 + len)), 2 + len))
        }
    }
}

/// The bytes of a string: its UTF-8 byte length in 16 bits, then its UTF-8.
pub open spec fn spec_serialize_string(c: Seq<char>) -> Seq<u8> {
    be16_bytes(encode_utf8(c).len() as u16) + encode_utf8(c)
}

/// `String::from_utf8` (std): the string that `bytes` encode, where they
/// are UTF-8. The claim is that it succeeds exactly on valid UTF-8 and then
/// holds the characters those bytes decode to.
#[verifier::external_body]
fn string_from_utf8(bytes: Vec<u8>) -> (r: Option<String>)
    ensures
        r is Some <==> valid_utf8(bytes@),
        r matches Some(s) ==> s@ == decode_utf8(bytes@),
{
    String::from_utf8(bytes).ok()
}

/// Reads a string from the start of `data`; also gives the bytes read.
pub fn parse_string(data: &[u8]) -> (r: Result<(String, usize), AmfError>)
    ensures
        r matches Ok((s, n)) ==> spec_parse_string(data@) == Ok::<_, AmfError>((s@, n as int)),
        r matches Err(e) ==> spec_parse_string(data@) == Err::<(Seq<char>, int), _>(e),
        r matches Ok((s, n)) ==> string_fits(s@) && 2 <= n <= data@.len(),
{
    if data.len() < 2 {
        return Err(AmfError::NotEnoughData);
    }
    let len = (data[0] as usize) * 256 + (data[1] as usize);
    if data.len() - 2 < len {
        return Err(AmfError::NotEnoughData);
    }
    let string_bytes = copy_range(data, 2, 2 + len);
    match string_from_utf8(string_bytes) {
        Some(s) => {
            proof {
                broadcast use vstd::utf8::decode_utf8_encode_utf8;

                assert(encode_utf8(s@) == data@.subrange(2, 2 + len as int));
            }
            Ok((s, 2 + len))
        },
        None => Err(AmfError::InvalidUtf8),
    }
}

impl AmfString {
    #[verifier::type_invariant]
    spec fn fits(self) -> bool {
        string_fits(self.0@)
    }

    /// The AMF0 string `value`; refused when its UTF-8 form is longer than a
    /// 16-bit length can describe.
    pub fn new(value: &str) -> (r: Result<Self, AmfError>)
        ensures
            string_fits(value@) <==> r is Ok,
            r matches Ok(s) ==> s@ == value@,
            r matches Err(e) ==> e == AmfError::StringTooLong,
    {
        if value.as_bytes().len() > MAX_STRING_BYTES {
            return Err(AmfError::StringTooLong);
        }
        Ok(Self(value.to_owned()))
    }

    /// Reads a string from the front of `iter` and advances `iter` past it;
    /// on an error `iter` is left as it was.
    pub fn deserialize(iter: &mut &[u8]) -> (r: Result<Self, AmfError>)
        ensures
            match spec_parse_string(old(iter)@) {
                Ok((c, n)) => r matches Ok(s) && s@ == c && final(iter)@ == old(iter)@.skip(n),
                Err(e) => r == Err::<AmfString, AmfError>(e) && final(iter)@ == old(iter)@,
            },
    {
        let data: &[u8] = *iter;
        let (s, n) = match parse_string(data) {
            Ok(x) => x,
            Err(e) => return Err(e),
        };
        *iter = data.split_at(n).1;
        Ok(Self(s))
    }

    /// The bytes of the string: its UTF-8 length in 16 bits, then its UTF-8.
    pub fn serialize(&self) -> (r: Vec<u8>)
        ensures
            r@ == spec_serialize_string(self@),
            string_fits(self@),
    {
        proof {
            use_type_invariant(self);
        }
        let bytes = self.0.as_str().as_bytes();
        let mut buf: Vec<u8> = Vec::new();
        push_be16(&mut buf, bytes.len() as u16);
        push_all(&mut buf, bytes);
        buf
    }

    /// The string's characters.
    pub fn as_str(&self) -> (r: &str)
        ensures
            r@ == self@,
    {
        self.0.as_str()
    }

    /// The string's characters, as an owned `String`.
    pub fn to_string(&self) -> (r: String)
        ensures
            r@ == self@,
    {
        self.0.clone()
    }

    /// Whether the two strings hold the same characters.
    pub fn same_as(&self, other: &str) -> (r: bool)
        ensures
            r == (self@ == other@),
    {
        let theirs: String = other.to_owned();
        self.0 == theirs
    }
}

/// Reading a string back from its bytes, followed by anything, gives the
/// string and the number of its bytes.
pub proof fn lemma_string_roundtrip(c: Seq<char>, rest: Seq<u8>)
    requires
        string_fits(c),
    ensures
        spec_parse_string(spec_serialize_string(c) + rest) == Ok::<_, AmfError>(
            (c, spec_serialize_string(c).len() as int),
        ),
{
    broadcast use vstd::utf8::encode_utf8_valid_utf8, vstd::utf8::encode_utf8_decode_utf8;

    let b = encode_utf8(c);
    let s = spec_serialize_string(c) + rest;
    lemma_be16_roundtrip(b.len() as u16);
    assert(s.subrange(2, 2 + b.len() as int) =~= b);
}

} // verus!
