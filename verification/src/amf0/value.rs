//! AMF0 values, objects and ECMA arrays: their encoding and decoding.

use vstd::prelude::*;
use vstd::std_specs::cmp::PartialEqSpecImpl;

use crate::amf0::number::{double_eq, is_nan_bits, is_zero_bits, spec_parse_number, AmfNumber};
use crate::amf0::string::{spec_parse_string, spec_serialize_string, string_fits, AmfString};
use crate::amf0::types::{BOOLEAN, ECMA_ARRAY, NULL, NUMBER, OBJECT, OBJECT_END, STRING};
use crate::bytes::{be64, be64_bytes, push_all};
use crate::error::AmfError;

verus! {

/// An AMF0 value.
#[derive(Debug)]
pub enum Value {
    Number(AmfNumber),
    Boolean(bool),
    String(AmfString),
    Object(AmfObject),
    Null,
    EcmaArray(AmfEcmaArray),
    ObjectEnd,
    StrictArray,
    Date,
    LongString,
    Xml,
    TypedObject,
    Upgrade,
}

/// The key-value pairs of an AMF0 object; no key occurs twice.
#[derive(Debug)]
pub struct AmfObject(Vec<(AmfString, Value)>);

/// The key-value pairs of an AMF0 ECMA array; no key occurs twice.
#[derive(Debug)]
pub struct AmfEcmaArray(Vec<(AmfString, Value)>);

/// Key-value pairs as values.
pub type EntriesView = Seq<(Seq<char>, ValueView)>;

/// An AMF0 value as a value: numbers by their bit patterns, strings by their
/// characters, objects and ECMA arrays by their pairs in order.
pub enum ValueView {
    Number(u64),
    Boolean(bool),
    String(Seq<char>),
    Object(EntriesView),
    Null,
    EcmaArray(EntriesView),
    ObjectEnd,
    StrictArray,
    Date,
    LongString,
    Xml,
    TypedObject,
    Upgrade,
}

/// `v` as a value.
pub closed spec fn value_view(v: Value) -> ValueView
    decreases v,
{
    match v {
        Value::Number(n) => ValueView::Number(n@),
        Value::Boolean(b) => ValueView::Boolean(b),
        Value::String(s) => ValueView::String(s@),
        Value::Object(o) => ValueView::Object(entries_view(o.0@)),
        Value::Null => ValueView::Null,
        Value::EcmaArray(a) => ValueView::EcmaArray(entries_view(a.0@)),
        Value::ObjectEnd => ValueView::ObjectEnd,
        Value::StrictArray => ValueView::StrictArray,
        Value::Date => ValueView::Date,
        Value::LongString => ValueView::LongString,
        Value::Xml => ValueView::Xml,
        Value::TypedObject => ValueView::TypedObject,
        Value::Upgrade => ValueView::Upgrade,
    }
}

/// Key-value pairs as values.
pub closed spec fn entries_view(es: Seq<(AmfString, Value)>) -> EntriesView
    decreases es,
{
    if es.len() == 0 {
        Seq::empty()
    } else {
        entries_view(es.drop_last()).push((es.last().0@, value_view(es.last().1)))
    }
}

/// A value's view is made of its parts' views.
pub broadcast proof fn lemma_value_view(v: Value)
    ensures
        #[trigger] value_view(v) == match v {
            Value::Number(n) => ValueView::Number(n@),
            Value::Boolean(b) => ValueView::Boolean(b),
            Value::String(s) => ValueView::String(s@),
            Value::Object(o) => ValueView::Object(o@),
            Value::Null => ValueView::Null,
            Value::EcmaArray(a) => ValueView::EcmaArray(a@),
            Value::ObjectEnd => ValueView::ObjectEnd,
            Value::StrictArray => ValueView::StrictArray,
            Value::Date => ValueView::Date,
            Value::LongString => ValueView::LongString,
            Value::Xml => ValueView::Xml,
            Value::TypedObject => ValueView::TypedObject,
            Value::Upgrade => ValueView::Upgrade,
        },
{
}

impl View for Value {
    type V = ValueView;

    open spec fn view(&self) -> ValueView {
        value_view(*self)
    }
}

impl View for AmfObject {
    type V = EntriesView;

    closed spec fn view(&self) -> EntriesView {
        entries_view(self.0@)
    }
}

impl View for AmfEcmaArray {
    type V = EntriesView;

    closed spec fn view(&self) -> EntriesView {
        entries_view(self.0@)
    }
}

/// No key occurs twice among the pairs.
pub open spec fn keys_distinct(es: EntriesView) -> bool {
    forall|i: int, j: int| 0 <= i < es.len() && 0 <= j < es.len() && i != j ==> es[i].0 != es[j].0
}

/// Whether some pair has the key `k`.
pub open spec fn has_key(es: EntriesView, k: Seq<char>) -> bool {
    exists|i: int| 0 <= i < es.len() && es[i].0 == k
}

/// The pairs after storing `v` under `k`: it replaces the value of the pair
/// with that key where there is one, else it is added at the end.
pub open spec fn insert_entry(es: EntriesView, k: Seq<char>, v: ValueView) -> EntriesView {
    if has_key(es, k) {
        es.update(choose|i: int| 0 <= i < es.len() && es[i].0 == k, (k, v))
    } else {
        es.push((k, v))
    }
}

/// The value at the start of `s` and the bytes it takes: a type marker, then
/// the encoding of that type. Numbers, booleans, strings, objects, null, ECMA
/// arrays and the object end marker are read; other types are refused.
pub open spec fn spec_parse_value(s: Seq<u8>) -> Result<(ValueView, int), AmfError>
    decreases s.len(), 0int,
{
    if s.len() == 0 {
        Err(AmfError::NotEnoughData)
    } else {
        let t = s[0];
        if t == NUMBER {
            match spec_parse_number(s.skip(1)) {
                Ok((b, n)) => Ok((ValueView::Number(b), 1 + n)),
                Err(e) => Err(e),
            }
        } else if t == BOOLEAN {
            if s.len() < 2 {
                Err(AmfError::NotEnoughData)
            } else if s[1] == 0 {
                Ok((ValueView::Boolean(false), 2))
            } else if s[1] == 1 {
                Ok((ValueView::Boolean(true), 2))
            } else {
                Err(AmfError::InvalidBoolean(s[1]))
            }
        } else if t == STRING {
            match spec_parse_string(s.skip(1)) {
                Ok((c, n)) => Ok((ValueView::String(c), 1 + n)),
                Err(e) => Err(e),
            }
        } else if t == OBJECT {
            match spec_parse_entries(s.skip(1), Seq::empty()) {
                Ok((es, n)) => Ok((ValueView::Object(es), 1 + n)),
                Err(e) => Err(e),
            }
        } else if t == NULL {
            Ok((ValueView::Null, 1))
        } else if t == ECMA_ARRAY {
            // The element count (32 bits) is skipped.
            if s.len() < 5 {
                Err(AmfError::NotEnoughData)
            } else {
                match spec_parse_entries(s.skip(5), Seq::empty()) {
                    Ok((es, n)) => Ok((ValueView::EcmaArray(es), 5 + n)),
                    Err(e) => Err(e),
                }
            }
        } else if t == OBJECT_END {
            Ok((ValueView::ObjectEnd, 1))
        } else {
            Err(AmfError::UnhandledType(t))
        }
    }
}

/// The pairs at the start of `s`, stored after the pairs `acc`, and the bytes
/// they take: a key, then a value, repeatedly, until a value is the object
/// end marker (its key is dropped).
pub open spec fn spec_parse_entries(s: Seq<u8>, acc: EntriesView) -> Result<
    (EntriesView, int),
    AmfError,
>
    decreases s.len(), 1int,
{
    match spec_parse_string(s) {
        Err(e) => Err(e),
        Ok((k, n)) => match spec_parse_value(s.skip(n)) {
            Err(e) => Err(e),
            Ok((v, m)) => if v is ObjectEnd {
                Ok((acc, n + m))
            } else if 0 < n + m <= s.len() {
                match spec_parse_entries(s.skip(n + m), insert_entry(acc, k, v)) {
                    Ok((es, r)) => Ok((es, n + m + r)),
                    Err(e) => Err(e),
                }
            } else {
                Err(AmfError::NotEnoughData)
            },
        },
    }
}

/// Whether `v` is of a type that can be written: a number, a string, null,
/// or an object whose values can all be written.
pub open spec fn serializable(v: ValueView) -> bool
    decreases v,
{
    match v {
        ValueView::Number(_) => true,
        ValueView::String(_) => true,
        ValueView::Null => true,
        ValueView::Object(es) => entries_serializable(es),
        _ => false,
    }
}

/// Whether all the values among the pairs can be written.
pub open spec fn entries_serializable(es: EntriesView) -> bool
    decreases es,
{
    if es.len() == 0 {
        true
    } else {
        entries_serializable(es.drop_last()) && serializable(es.last().1)
    }
}

/// The bytes of a value: its type marker, then its encoding. An object's
/// pairs are followed by the object end marker alone.
pub open spec fn spec_serialize_value(v: ValueView) -> Seq<u8>
    decreases v,
{
    match v {
        ValueView::Number(b) => seq![NUMBER] + be64_bytes(b),
        ValueView::String(c) => seq![STRING] + spec_serialize_string(c),
        ValueView::Object(es) => seq![OBJECT] + spec_serialize_entries(es) + seq![OBJECT_END],
        ValueView::Null => seq![NULL],
        _ => Seq::empty(),
    }
}

/// The bytes of key-value pairs: each key, then its value.
pub open spec fn spec_serialize_entries(es: EntriesView) -> Seq<u8>
    decreases es,
{
    if es.len() == 0 {
        Seq::empty()
    } else {
        spec_serialize_entries(es.drop_last()) + spec_serialize_string(es.last().0)
            + spec_serialize_value(es.last().1)
    }
}

/// The pairs made by storing the given pairs in order, each replacing an
/// earlier one with the same key.
pub open spec fn entries_from_pairs(pairs: EntriesView) -> EntriesView
    decreases pairs.len(),
{
    if pairs.len() == 0 {
        Seq::empty()
    } else {
        insert_entry(entries_from_pairs(pairs.drop_last()), pairs.last().0, pairs.last().1)
    }
}

/// The value stored under `k`, if any.
pub open spec fn entry_value(es: EntriesView, k: Seq<char>) -> Option<ValueView> {
    if has_key(es, k) {
        Some(es[choose|i: int| 0 <= i < es.len() && es[i].0 == k].1)
    } else {
        None
    }
}

/// Whether two values compare equal: numbers as doubles compare, booleans
/// and strings when they are the same, objects and ECMA arrays as maps (the
/// same number of keys, each key of one stored in the other under an equal
/// value, whatever the order), and the other kinds when they are the same
/// kind.
pub open spec fn value_eq(a: ValueView, b: ValueView) -> bool
    decreases a,
{
    match (a, b) {
        (ValueView::Number(x), ValueView::Number(y)) => double_eq(x, y),
        (ValueView::Boolean(x), ValueView::Boolean(y)) => x == y,
        (ValueView::String(x), ValueView::String(y)) => x == y,
        (ValueView::Object(x), ValueView::Object(y)) => x.len() == y.len() && entries_found(x, y),
        (ValueView::Null, ValueView::Null) => true,
        (ValueView::EcmaArray(x), ValueView::EcmaArray(y)) => x.len() == y.len() && entries_found(
            x,
            y,
        ),
        (ValueView::ObjectEnd, ValueView::ObjectEnd) => true,
        (ValueView::StrictArray, ValueView::StrictArray) => true,
        (ValueView::Date, ValueView::Date) => true,
        (ValueView::LongString, ValueView::LongString) => true,
        (ValueView::Xml, ValueView::Xml) => true,
        (ValueView::TypedObject, ValueView::TypedObject) => true,
        (ValueView::Upgrade, ValueView::Upgrade) => true,
        _ => false,
    }
}

/// Whether every pair of `a` has its key stored in `b` under an equal value.
pub open spec fn entries_found(a: EntriesView, b: EntriesView) -> bool
    decreases a,
{
    if a.len() == 0 {
        true
    } else {
        entries_found(a.drop_last(), b) && match entry_value(b, a.last().0) {
            Some(v) => value_eq(a.last().1, v),
            None => false,
        }
    }
}

/// How values compare: booleans, strings, null and the other plain kinds
/// compare equal exactly when they are the same value; a number compares
/// equal only to a number (the same double, except that a NaN equals nothing
/// and the two zeros are equal), an object only to an object and an ECMA
/// array only to an ECMA array.
pub proof fn lemma_value_eq_kinds(a: ValueView, b: ValueView)
    ensures
        !(a is Number) && !(a is Object) && !(a is EcmaArray) ==> (value_eq(a, b) <==> a == b),
        value_eq(a, b) && a is Number ==> b is Number,
        value_eq(a, b) && a is Object ==> b is Object,
        value_eq(a, b) && a is EcmaArray ==> b is EcmaArray,
        a matches ValueView::Number(x) ==> (value_eq(a, a) <==> !is_nan_bits(x)),
        a matches ValueView::Number(x) ==> (value_eq(a, b) && !is_zero_bits(x) ==> b
            == ValueView::Number(x)),
        a matches ValueView::Number(x) ==> (is_zero_bits(x) ==> (b matches ValueView::Number(y)
            ==> (is_zero_bits(y) ==> value_eq(a, b)))),
{
    if let ValueView::Number(x) = a {
        assert((x & 0x7FFF_FFFF_FFFF_FFFFu64) == 0 ==> (x & 0x7FF0_0000_0000_0000u64)
            != 0x7FF0_0000_0000_0000u64) by (bit_vector);
        if let ValueView::Number(y) = b {
            assert((y & 0x7FFF_FFFF_FFFF_FFFFu64) == 0 ==> (y & 0x7FF0_0000_0000_0000u64)
                != 0x7FF0_0000_0000_0000u64) by (bit_vector);
        }
    }
}

/// Pairs all found in `b` have each of their first `k` pairs found in `b`.
proof fn lemma_entries_found_prefix(a: EntriesView, b: EntriesView, k: int)
    requires
        entries_found(a, b),
        0 <= k <= a.len(),
    ensures
        entries_found(a.take(k), b),
    decreases a.len(),
{
    if k == a.len() {
        assert(a.take(k) =~= a);
    } else {
        lemma_entries_found_prefix(a.drop_last(), b, k);
        assert(a.drop_last().take(k) =~= a.take(k));
    }
}

/// The view of pairs has their length, and each pair's key and value views.
proof fn lemma_entries_view_index(es: Seq<(AmfString, Value)>)
    ensures
        entries_view(es).len() == es.len(),
        forall|i: int|
            0 <= i < es.len() ==> #[trigger] entries_view(es)[i] == (es[i].0@, value_view(es[i].1)),
    decreases es.len(),
{
    if es.len() > 0 {
        lemma_entries_view_index(es.drop_last());
    }
}

/// Views of pairs that agree element by element are equal.
proof fn lemma_entries_view_ext(a: Seq<(AmfString, Value)>, b: Seq<(AmfString, Value)>)
    requires
        a.len() == b.len(),
        forall|i: int| 0 <= i < a.len() ==> #[trigger] a[i].0@ == b[i].0@ && value_view(a[i].1) == value_view(b[i].1),
    ensures
        entries_view(a) == entries_view(b),
{
    lemma_entries_view_index(a);
    lemma_entries_view_index(b);
    assert(entries_view(a) =~= entries_view(b));
}

/// Storing a pair keeps keys distinct.
proof fn lemma_insert_entry_distinct(es: EntriesView, k: Seq<char>, v: ValueView)
    requires
        keys_distinct(es),
    ensures
        keys_distinct(insert_entry(es, k, v)),
        has_key(insert_entry(es, k, v), k),
{
    if has_key(es, k) {
        let i = choose|i: int| 0 <= i < es.len() && es[i].0 == k;
        assert(insert_entry(es, k, v)[i].0 == k);
    } else {
        assert(insert_entry(es, k, v)[es.len() as int].0 == k);
    }
}

/// Finds the pair with key `k` among `es`.
fn find_key(es: &Vec<(AmfString, Value)>, k: &AmfString) -> (r: Option<usize>)
    ensures
        r matches Some(i) ==> i < es@.len() && es@[i as int].0@ == k@,
        r is None ==> forall|i: int| 0 <= i < es@.len() ==> es@[i].0@ != k@,
{
    let mut i: usize = 0;
    while i < es.len()
        invariant
            i <= es@.len(),
            forall|j: int| 0 <= j < i ==> es@[j].0@ != k@,
        decreases es@.len() - i,
    {
        if es[i].0.same_as(k.as_str()) {
            return Some(i);
        }
        i = i + 1;
    }
    None
}

/// Stores `v` under `k` among the pairs `es`.
fn insert_pair(es: &mut Vec<(AmfString, Value)>, k: AmfString, v: Value)
    requires
        keys_distinct(entries_view(old(es)@)),
    ensures
        entries_view(final(es)@) == insert_entry(entries_view(old(es)@), k@, v@),
        keys_distinct(entries_view(final(es)@)),
{
    let ghost old_es = es@;
    let ghost kv = k@;
    let ghost vv = v@;
    proof {
        lemma_entries_view_index(old_es);
        lemma_insert_entry_distinct(entries_view(old_es), kv, vv);
    }
    match find_key(es, &k) {
        Some(i) => {
            es.set(i, (k, v));
            proof {
                let ev = entries_view(old_es);
                assert(has_key(ev, kv)) by {
                    assert(ev[i as int].0 == kv);
                }
                let c = choose|j: int| 0 <= j < ev.len() && ev[j].0 == kv;
                assert(c == i);
                lemma_entries_view_index(es@);
                assert(entries_view(es@) =~= ev.update(i as int, (kv, vv)));
            }
        },
        None => {
            es.push((k, v));
            proof {
                let ev = entries_view(old_es);
                assert(!has_key(ev, kv));
                assert(es@.drop_last() == old_es);
                assert(entries_view(es@) == ev.push((kv, vv)));
            }
        },
    }
}

/// `r` with `offset` more bytes taken.
pub open spec fn shift_entries(offset: int, r: Result<(EntriesView, int), AmfError>) -> Result<
    (EntriesView, int),
    AmfError,
> {
    match r {
        Ok((es, n)) => Ok((es, offset + n)),
        Err(e) => Err(e),
    }
}

/// Reads a value from the start of `data`; also gives the bytes read.
fn parse_value(data: &[u8]) -> (r: Result<(Value, usize), AmfError>)
    ensures
        r matches Ok((v, n)) ==> spec_parse_value(data@) == Ok::<_, AmfError>((v@, n as int)) && 1
            <= n <= data@.len(),
        r matches Err(e) ==> spec_parse_value(data@) == Err::<(ValueView, int), _>(e),
    decreases data@.len(), 0int,
{
    if data.len() == 0 {
        return Err(AmfError::NotEnoughData);
    }
    let t = data[0];
    let rest = data.split_at(1).1;
    assert(rest@ == data@.skip(1));
    if t == NUMBER {
        let mut it = rest;
        match AmfNumber::deserialize(&mut it) {
            Ok(n) => Ok((Value::Number(n), 9)),
            Err(e) => Err(e),
        }
    } else if t == BOOLEAN {
        if data.len() < 2 {
            Err(AmfError::NotEnoughData)
        } else if data[1] == 0 {
            Ok((Value::Boolean(false), 2))
        } else if data[1] == 1 {
            Ok((Value::Boolean(true), 2))
        } else {
            Err(AmfError::InvalidBoolean(data[1]))
        }
    } else if t == STRING {
        let mut it = rest;
        match AmfString::deserialize(&mut it) {
            Ok(s) => Ok((Value::String(s), 1 + (rest.len() - it.len()))),
            Err(e) => Err(e),
        }
    } else if t == OBJECT {
        match parse_entries(rest) {
            Ok((es, n)) => Ok((Value::Object(AmfObject(es)), 1 + n)),
            Err(e) => Err(e),
        }
    } else if t == NULL {
        Ok((Value::Null, 1))
    } else if t == ECMA_ARRAY {
        if data.len() < 5 {
            return Err(AmfError::NotEnoughData);
        }
        let items = data.split_at(5).1;
        assert(items@ == data@.skip(5));
        match parse_entries(items) {
            Ok((es, n)) => Ok((Value::EcmaArray(AmfEcmaArray(es)), 5 + n)),
            Err(e) => Err(e),
        }
    } else if t == OBJECT_END {
        Ok((Value::ObjectEnd, 1))
    } else {
        Err(AmfError::UnhandledType(t))
    }
}

/// Reads key-value pairs from the start of `data` up to and including the
/// object end marker; also gives the bytes read.
fn parse_entries(data: &[u8]) -> (r: Result<(Vec<(AmfString, Value)>, usize), AmfError>)
    ensures
        r matches Ok((es, n)) ==> spec_parse_entries(data@, Seq::empty()) == Ok::<_, AmfError>(
            (entries_view(es@), n as int),
        ) && keys_distinct(entries_view(es@)) && n <= data@.len(),
        r matches Err(e) ==> spec_parse_entries(data@, Seq::empty()) == Err::<(EntriesView, int), _>(
            e,
        ),
    decreases data@.len(), 1int,
{
    let mut entries: Vec<(AmfString, Value)> = Vec::new();
    let mut offset: usize = 0;
    assert(data@.skip(0) =~= data@);
    assert(entries_view(entries@) =~= Seq::<(Seq<char>, ValueView)>::empty());
    loop
        invariant
            offset <= data@.len(),
            keys_distinct(entries_view(entries@)),
            spec_parse_entries(data@, Seq::empty()) == shift_entries(
                offset as int,
                spec_parse_entries(data@.skip(offset as int), entries_view(entries@)),
            ),
        decreases data@.len() - offset,
    {
        let rest = data.split_at(offset).1;
        assert(rest@ == data@.skip(offset as int));
        let mut it = rest;
        let k = match AmfString::deserialize(&mut it) {
            Ok(k) => k,
            Err(e) => return Err(e),
        };
        let n = rest.len() - it.len();
        assert(it@ == rest@.skip(n as int));
        let (v, m) = match parse_value(it) {
            Ok(x) => x,
            Err(e) => return Err(e),
        };
        assert(m <= it@.len());
        assert(offset + n + m <= data.len());
        if let Value::ObjectEnd = v {
            return Ok((entries, offset + n + m));
        }
        let ghost acc = entries_view(entries@);
        let ghost kv = k@;
        let ghost vv = v@;
        insert_pair(&mut entries, k, v);
        assert(rest@.skip(n + m) =~= data@.skip(offset + n + m));
        offset = offset + n + m;
    }
}

/// The ECMA array at the start of `s` (a 32-bit element count, which is not
/// used, then pairs up to the object end marker), and the bytes it takes.
pub open spec fn spec_parse_ecma_array(s: Seq<u8>) -> Result<(EntriesView, int), AmfError> {
    if s.len() < 4 {
        Err(AmfError::NotEnoughData)
    } else {
        shift_entries(4, spec_parse_entries(s.skip(4), Seq::empty()))
    }
}

impl AmfObject {
    #[verifier::type_invariant]
    spec fn distinct(self) -> bool {
        keys_distinct(entries_view(self.0@))
    }

    /// Reads an object's pairs (up to and including the object end marker)
    /// from the front of `iter` and advances `iter` past them; on an error
    /// `iter` is left as it was.
    pub fn deserialize(iter: &mut &[u8]) -> (r: Result<Self, AmfError>)
        ensures
            match spec_parse_entries(old(iter)@, Seq::empty()) {
                Ok((es, n)) => r matches Ok(o) && o@ == es && final(iter)@ == old(iter)@.skip(n),
                Err(e) => r == Err::<AmfObject, AmfError>(e) && final(iter)@ == old(iter)@,
            },
            spec_parse_entries(old(iter)@, Seq::empty()) matches Ok((_, n)) ==> 0 <= n <= old(
                iter,
            )@.len(),
    {
        let data: &[u8] = *iter;
        match parse_entries(data) {
            Ok((es, n)) => {
                *iter = data.split_at(n).1;
                Ok(AmfObject(es))
            },
            Err(e) => Err(e),
        }
    }
}

impl AmfEcmaArray {
    #[verifier::type_invariant]
    spec fn distinct(self) -> bool {
        keys_distinct(entries_view(self.0@))
    }

    /// Reads an ECMA array (its element count, which is not used, then pairs
    /// up to and including the object end marker) from the front of `iter`
    /// and advances `iter` past it; on an error `iter` is left as it was.
    pub fn deserialize(iter: &mut &[u8]) -> (r: Result<Self, AmfError>)
        ensures
            match spec_parse_ecma_array(old(iter)@) {
                Ok((es, n)) => r matches Ok(a) && a@ == es && final(iter)@ == old(iter)@.skip(n),
                Err(e) => r == Err::<AmfEcmaArray, AmfError>(e) && final(iter)@ == old(iter)@,
            },
            spec_parse_ecma_array(old(iter)@) matches Ok((_, n)) ==> 4 <= n <= old(iter)@.len(),
    {
        let data: &[u8] = *iter;
        // Skip elements count (32bits) for now
        if data.len() < 4 {
            return Err(AmfError::NotEnoughData);
        }
        let items = data.split_at(4).1;
        assert(items@ == data@.skip(4));
        match parse_entries(items) {
            Ok((es, n)) => {
                *iter = data.split_at(4 + n).1;
                Ok(AmfEcmaArray(es))
            },
            Err(e) => Err(e),
        }
    }
}

impl Value {
    /// Reads a value (type marker, then encoding) from the front of `iter`
    /// and advances `iter` past it; on an error `iter` is left as it was.
    pub fn deserialize(iter: &mut &[u8]) -> (r: Result<Self, AmfError>)
        ensures
            match spec_parse_value(old(iter)@) {
                Ok((v, n)) => r matches Ok(x) && x@ == v && final(iter)@ == old(iter)@.skip(n),
                Err(e) => r == Err::<Value, AmfError>(e) && final(iter)@ == old(iter)@,
            },
            spec_parse_value(old(iter)@) matches Ok((_, n)) ==> 1 <= n <= old(iter)@.len(),
    {
        let data: &[u8] = *iter;
        match parse_value(data) {
            Ok((v, n)) => {
                *iter = data.split_at(n).1;
                Ok(v)
            },
            Err(e) => Err(e),
        }
    }
}

/// All the values among the pairs can be written exactly when each can.
proof fn lemma_entries_serializable(es: EntriesView)
    ensures
        entries_serializable(es) <==> forall|i: int|
            0 <= i < es.len() ==> serializable(#[trigger] es[i].1),
    decreases es.len(),
{
    if es.len() > 0 {
        lemma_entries_serializable(es.drop_last());
        if entries_serializable(es) {
            assert forall|i: int| 0 <= i < es.len() implies serializable(#[trigger] es[i].1) by {
                if i < es.len() - 1 {
                    assert(es.drop_last()[i] == es[i]);
                }
            }
        }
        if forall|i: int| 0 <= i < es.len() ==> serializable(#[trigger] es[i].1) {
            assert forall|i: int| 0 <= i < es.drop_last().len() implies serializable(
                #[trigger] es.drop_last()[i].1,
            ) by {
                assert(es.drop_last()[i] == es[i]);
            }
        }
    }
}

/// Where the key `key` is stored among `es`, whose keys are distinct.
fn find_entry(es: &Vec<(AmfString, Value)>, key: &AmfString) -> (r: Option<usize>)
    requires
        keys_distinct(entries_view(es@)),
    ensures
        match entry_value(entries_view(es@), key@) {
            Some(v) => r matches Some(i) && i < es@.len() && value_view(es@[i as int].1) == v,
            None => r is None,
        },
{
    proof {
        lemma_entries_view_index(es@);
    }
    let ghost ev = entries_view(es@);
    let mut i: usize = 0;
    while i < es.len()
        invariant
            i <= es@.len(),
            ev == entries_view(es@),
            ev.len() == es@.len(),
            keys_distinct(ev),
            forall|j: int| 0 <= j < es@.len() ==> #[trigger] ev[j] == (es@[j].0@, value_view(es@[j].1)),
            forall|j: int| 0 <= j < i ==> es@[j].0@ != key@,
        decreases es@.len() - i,
    {
        if es[i].0.same_as(key.as_str()) {
            proof {
                assert(ev[i as int].0 == key@);
                assert(has_key(ev, key@));
                let c = choose|j: int| 0 <= j < ev.len() && ev[j].0 == key@;
                assert(c == i);
            }
            return Some(i);
        }
        i = i + 1;
    }
    proof {
        assert(!has_key(ev, key@)) by {
            assert forall|j: int| 0 <= j < ev.len() implies ev[j].0 != key@ by {
                assert(ev[j] == (es@[j].0@, value_view(es@[j].1)));
            }
        }
    }
    None
}

/// Whether two values compare equal.
fn values_equal(a: &Value, b: &Value) -> (r: bool)
    ensures
        r == value_eq(a@, b@),
    decreases a,
{
    match (a, b) {
        (Value::Number(x), Value::Number(y)) => *x == *y,
        (Value::Boolean(x), Value::Boolean(y)) => *x == *y,
        (Value::String(x), Value::String(y)) => x.same_as(y.as_str()),
        (Value::Object(x), Value::Object(y)) => {
            proof {
                use_type_invariant(x);
                use_type_invariant(y);
                assert(decreases_to!(*a => x.0));
            }
            entries_equal(&x.0, &y.0)
        },
        (Value::Null, Value::Null) => true,
        (Value::EcmaArray(x), Value::EcmaArray(y)) => {
            proof {
                use_type_invariant(x);
                use_type_invariant(y);
                assert(decreases_to!(*a => x.0));
            }
            entries_equal(&x.0, &y.0)
        },
        (Value::ObjectEnd, Value::ObjectEnd) => true,
        (Value::StrictArray, Value::StrictArray) => true,
        (Value::Date, Value::Date) => true,
        (Value::LongString, Value::LongString) => true,
        (Value::Xml, Value::Xml) => true,
        (Value::TypedObject, Value::TypedObject) => true,
        (Value::Upgrade, Value::Upgrade) => true,
        _ => false,
    }
}

/// Whether two collections of pairs, the second with distinct keys, compare
/// equal as maps.
fn entries_equal(a: &Vec<(AmfString, Value)>, b: &Vec<(AmfString, Value)>) -> (r: bool)
    requires
        keys_distinct(entries_view(b@)),
    ensures
        r == (entries_view(a@).len() == entries_view(b@).len() && entries_found(
            entries_view(a@),
            entries_view(b@),
        )),
    decreases a,
{
    proof {
        lemma_entries_view_index(a@);
        lemma_entries_view_index(b@);
    }
    let ghost ea = entries_view(a@);
    let ghost eb = entries_view(b@);
    if a.len() != b.len() {
        return false;
    }
    let mut i: usize = 0;
    assert(ea.take(0) =~= Seq::<(Seq<char>, ValueView)>::empty());
    while i < a.len()
        invariant
            i <= a@.len(),
            ea == entries_view(a@),
            eb == entries_view(b@),
            ea.len() == a@.len(),
            keys_distinct(eb),
            forall|j: int| 0 <= j < a@.len() ==> #[trigger] ea[j] == (a@[j].0@, value_view(a@[j].1)),
            entries_found(ea.take(i as int), eb),
        decreases a@.len() - i,
    {
        proof {
            assert(decreases_to!(*a => a@));
            assert(decreases_to!(a@ => a@[i as int]));
            assert(decreases_to!(a@[i as int] => a@[i as int].1));
            assert(ea.take(i + 1).drop_last() =~= ea.take(i as int));
            assert(ea.take(i + 1).last() == ea[i as int]);
        }
        let found = match find_entry(b, &a[i].0) {
            Some(j) => values_equal(&a[i].1, &b[j].1),
            None => false,
        };
        if !found {
            proof {
                if entries_found(ea, eb) {
                    lemma_entries_found_prefix(ea, eb, i + 1);
                }
            }
            return false;
        }
        i = i + 1;
    }
    assert(ea.take(i as int) =~= ea);
    true
}

impl PartialEq for Value {
    fn eq(&self, other: &Self) -> (r: bool) {
        values_equal(self, other)
    }
}

impl PartialEqSpecImpl for Value {
    open spec fn obeys_eq_spec() -> bool {
        true
    }

    open spec fn eq_spec(&self, other: &Self) -> bool {
        value_eq(self@, other@)
    }
}

impl PartialEq for AmfObject {
    fn eq(&self, other: &Self) -> (r: bool) {
        proof {
            use_type_invariant(other);
        }
        entries_equal(&self.0, &other.0)
    }
}

impl PartialEqSpecImpl for AmfObject {
    open spec fn obeys_eq_spec() -> bool {
        true
    }

    open spec fn eq_spec(&self, other: &Self) -> bool {
        value_eq(ValueView::Object(self@), ValueView::Object(other@))
    }
}

impl PartialEq for AmfEcmaArray {
    fn eq(&self, other: &Self) -> (r: bool) {
        proof {
            use_type_invariant(other);
        }
        entries_equal(&self.0, &other.0)
    }
}

impl PartialEqSpecImpl for AmfEcmaArray {
    open spec fn obeys_eq_spec() -> bool {
        true
    }

    open spec fn eq_spec(&self, other: &Self) -> bool {
        value_eq(ValueView::EcmaArray(self@), ValueView::EcmaArray(other@))
    }
}

/// A copy of `v`.
fn copy_value(v: &Value) -> (r: Value)
    ensures
        r@ == v@,
    decreases v,
{
    match v {
        Value::Number(n) => Value::Number(*n),
        Value::Boolean(b) => Value::Boolean(*b),
        Value::String(s) => Value::String(s.clone()),
        Value::Object(o) => {
            proof {
                use_type_invariant(o);
                assert(decreases_to!(*v => o.0));
            }
            let es = copy_entries(&o.0);
            Value::Object(AmfObject(es))
        },
        Value::Null => Value::Null,
        Value::EcmaArray(a) => {
            proof {
                use_type_invariant(a);
                assert(decreases_to!(*v => a.0));
            }
            let es = copy_entries(&a.0);
            Value::EcmaArray(AmfEcmaArray(es))
        },
        Value::ObjectEnd => Value::ObjectEnd,
        Value::StrictArray => Value::StrictArray,
        Value::Date => Value::Date,
        Value::LongString => Value::LongString,
        Value::Xml => Value::Xml,
        Value::TypedObject => Value::TypedObject,
        Value::Upgrade => Value::Upgrade,
    }
}

/// A copy of the pairs `es`.
fn copy_entries(es: &Vec<(AmfString, Value)>) -> (r: Vec<(AmfString, Value)>)
    ensures
        entries_view(r@) == entries_view(es@),
    decreases es,
{
    let mut out: Vec<(AmfString, Value)> = Vec::new();
    let mut i: usize = 0;
    while i < es.len()
        invariant
            i <= es@.len(),
            out@.len() == i,
            forall|j: int|
                0 <= j < i ==> #[trigger] out@[j].0@ == es@[j].0@ && value_view(out@[j].1)
                    == value_view(es@[j].1),
        decreases es@.len() - i,
    {
        proof {
            assert(decreases_to!(*es => es@));
            assert(decreases_to!(es@ => es@[i as int]));
            assert(decreases_to!(es@[i as int] => es@[i as int].1));
        }
        let v = copy_value(&es[i].1);
        let k = es[i].0.clone();
        out.push((k, v));
        i = i + 1;
    }
    proof {
        lemma_entries_view_ext(out@, es@);
    }
    out
}

impl Clone for Value {
    fn clone(&self) -> (r: Self)
        ensures
            r@ == self@,
    {
        copy_value(self)
    }
}

impl Clone for AmfObject {
    fn clone(&self) -> (r: Self)
        ensures
            r@ == self@,
    {
        proof {
            use_type_invariant(self);
        }
        AmfObject(copy_entries(&self.0))
    }
}

impl Clone for AmfEcmaArray {
    fn clone(&self) -> (r: Self)
        ensures
            r@ == self@,
    {
        proof {
            use_type_invariant(self);
        }
        AmfEcmaArray(copy_entries(&self.0))
    }
}

/// Key-value pairs with owned `String` keys, as values.
pub open spec fn pairs_view(ps: Seq<(String, Value)>) -> EntriesView {
    ps.map_values(|p: (String, Value)| (p.0@, p.1@))
}

impl AmfObject {
    /// The object holding the given pairs, each replacing an earlier one
    /// with the same key; refused when a key is too long for AMF0.
    pub fn new(value: Vec<(String, Value)>) -> (r: Result<Self, AmfError>)
        ensures
            (forall|i: int| 0 <= i < value@.len() ==> string_fits(#[trigger] value@[i].0@)) <==> r is Ok,
            r matches Ok(o) ==> o@ == entries_from_pairs(pairs_view(value@)),
            r matches Err(e) ==> e == AmfError::StringTooLong,
    {
        let ghost all = value@;
        let total = value.len();
        let mut rest = value;
        let mut entries: Vec<(AmfString, Value)> = Vec::new();
        let mut i: usize = 0;
        assert(entries_view(entries@) =~= Seq::<(Seq<char>, ValueView)>::empty());
        while rest.len() > 0
            invariant
                i + rest@.len() == all.len(),
                all == value@,
                all.len() == total,
                rest@ == all.skip(i as int),
                keys_distinct(entries_view(entries@)),
                entries_view(entries@) == entries_from_pairs(pairs_view(all.take(i as int))),
                forall|j: int| 0 <= j < i ==> string_fits(#[trigger] all[j].0@),
            decreases rest@.len(),
        {
            let (k, v) = rest.remove(0);
            assert(all[i as int] == (k, v));
            let key = match AmfString::new(k.as_str()) {
                Ok(key) => key,
                Err(e) => {
                    assert(!string_fits(all[i as int].0@));
                    assert(!(forall|j: int| 0 <= j < all.len() ==> string_fits(#[trigger] all[j].0@)));
                    return Err(e);
                },
            };
            insert_pair(&mut entries, key, v);
            proof {
                assert(all.take(i + 1).drop_last() == all.take(i as int));
                assert(pairs_view(all.take(i + 1)).drop_last() =~= pairs_view(all.take(i as int)));
            }
            i = i + 1;
            assert(rest@ =~= all.skip(i as int));
        }
        assert(all.take(i as int) =~= all);
        Ok(AmfObject(entries))
    }

    /// Writes the object's pairs, each key then its value, then the object
    /// end marker.
    pub fn serialize(&self) -> (r: Vec<u8>)
        requires
            entries_serializable(self@),
        ensures
            r@ == spec_serialize_entries(self@) + seq![OBJECT_END],
        decreases self,
    {
        proof {
            lemma_entries_view_index(self.0@);
            lemma_entries_serializable(self@);
        }
        let mut buf: Vec<u8> = Vec::new();
        let mut i: usize = 0;
        assert(entries_view(self.0@.take(0)) =~= Seq::<(Seq<char>, ValueView)>::empty());
        while i < self.0.len()
            invariant
                i <= self.0@.len(),
                buf@ == spec_serialize_entries(entries_view(self.0@.take(i as int))),
                forall|j: int| 0 <= j < self@.len() ==> serializable(#[trigger] self@[j].1),
                forall|j: int|
                    0 <= j < self.0@.len() ==> #[trigger] entries_view(self.0@)[j] == (
                        self.0@[j].0@,
                        value_view(self.0@[j].1),
                    ),
                entries_view(self.0@).len() == self.0@.len(),
            decreases self.0@.len() - i,
        {
            proof {
                assert(decreases_to!(*self => self.0));
                assert(decreases_to!(self.0 => self.0@));
                assert(decreases_to!(self.0@ => self.0@[i as int]));
                assert(decreases_to!(self.0@[i as int] => self.0@[i as int].1));
                assert(entries_view(self.0@)[i as int] == (self.0@[i as int].0@, value_view(self.0@[i as int].1)));
                assert(serializable(self@[i as int].1));
            }
            let k = self.0[i].0.serialize();
            let v = self.0[i].1.serialize();
            proof {
                assert(self.0@.take(i + 1).drop_last() == self.0@.take(i as int));
                assert(self.0@.take(i + 1).last() == self.0@[i as int]);
                let ev = entries_view(self.0@.take(i + 1));
                assert(ev.drop_last() =~= entries_view(self.0@.take(i as int)));
                assert(ev.last() == (self.0@[i as int].0@, value_view(self.0@[i as int].1)));
            }
            push_all(&mut buf, k.as_slice());
            push_all(&mut buf, v.as_slice());
            i = i + 1;
        }
        assert(self.0@.take(i as int) =~= self.0@);
        buf.push(OBJECT_END);
        buf
    }

    /// The object's pairs with owned `String` keys.
    pub fn to_hashmap(&self) -> (r: Vec<(String, Value)>)
        ensures
            pairs_view(r@) == self@,
    {
        proof {
            lemma_entries_view_index(self.0@);
        }
        let mut out: Vec<(String, Value)> = Vec::new();
        let mut i: usize = 0;
        while i < self.0.len()
            invariant
                i <= self.0@.len(),
                out@.len() == i,
                forall|j: int|
                    0 <= j < i ==> #[trigger] out@[j].0@ == self.0@[j].0@ && value_view(out@[j].1)
                        == value_view(self.0@[j].1),
            decreases self.0@.len() - i,
        {
            let k = self.0[i].0.to_string();
            let v = copy_value(&self.0[i].1);
            out.push((k, v));
            i = i + 1;
        }
        assert(pairs_view(out@) =~= self@);
        out
    }

    /// The value stored under `key`, if any.
    pub fn get(&self, key: &str) -> (r: Option<&Value>)
        ensures
            match entry_value(self@, key@) {
                Some(v) => r matches Some(x) && x@ == v,
                None => r is None,
            },
    {
        proof {
            use_type_invariant(self);
            lemma_entries_view_index(self.0@);
        }
        let mut i: usize = 0;
        while i < self.0.len()
            invariant
                i <= self.0@.len(),
                keys_distinct(self@),
                forall|j: int| 0 <= j < i ==> self.0@[j].0@ != key@,
            decreases self.0@.len() - i,
        {
            if self.0[i].0.same_as(key) {
                proof {
                    lemma_entries_view_index(self.0@);
                    let es = self@;
                    assert(es == entries_view(self.0@));
                    assert(entries_view(self.0@)[i as int] == (self.0@[i as int].0@, value_view(self.0@[i as int].1)));
                    assert(es[i as int].0 == key@);
                    assert(has_key(es, key@));
                    let c = choose|j: int| 0 <= j < es.len() && es[j].0 == key@;
                    assert(c == i);
                }
                return Some(&self.0[i].1);
            }
            i = i + 1;
        }
        proof {
            lemma_entries_view_index(self.0@);
            let es = self@;
            assert(es == entries_view(self.0@));
            assert(!has_key(es, key@)) by {
                assert forall|j: int| 0 <= j < es.len() implies es[j].0 != key@ by {
                    assert(entries_view(self.0@)[j] == (self.0@[j].0@, value_view(self.0@[j].1)));
                }
            }
        }
        None
    }
}

impl From<AmfString> for Value {
    fn from(value: AmfString) -> (r: Self) {
        Value::String(value)
    }
}

impl vstd::std_specs::convert::FromSpecImpl<AmfString> for Value {
    open spec fn obeys_from_spec() -> bool {
        true
    }

    open spec fn from_spec(v: AmfString) -> Value {
        Value::String(v)
    }
}

impl From<AmfNumber> for Value {
    fn from(value: AmfNumber) -> (r: Self) {
        Value::Number(value)
    }
}

impl vstd::std_specs::convert::FromSpecImpl<AmfNumber> for Value {
    open spec fn obeys_from_spec() -> bool {
        true
    }

    open spec fn from_spec(v: AmfNumber) -> Value {
        Value::Number(v)
    }
}

impl Value {
    /// Writes the value: its type marker, then its encoding. Only numbers,
    /// strings, null and objects of those can be written.
    pub fn serialize(&self) -> (r: Vec<u8>)
        requires
            serializable(self@),
        ensures
            r@ == spec_serialize_value(self@),
        decreases self,
    {
        let mut buf: Vec<u8> = Vec::new();
        match self {
            Value::Number(value) => {
                buf.push(NUMBER);
                let bytes = value.serialize();
                push_all(&mut buf, bytes.as_slice());
            },
            Value::String(value) => {
                buf.push(STRING);
                let bytes = value.serialize();
                push_all(&mut buf, bytes.as_slice());
            },
            Value::Object(value) => {
                proof {
                    assert(decreases_to!(*self => *value));
                }
                buf.push(OBJECT);
                let bytes = value.serialize();
                push_all(&mut buf, bytes.as_slice());
            },
            Value::Null => {
                buf.push(NULL);
            },
            _ => {
                proof {
                    assert(false);
                }
            },
        }
        assert(buf@ =~= spec_serialize_value(self@));
        buf
    }

    /// Whether the value can be written: a number, a string, null, or an
    /// object whose values can all be written.
    pub fn is_serializable(&self) -> (r: bool)
        ensures
            r == serializable(self@),
        decreases self,
    {
        match self {
            Value::Number(_) => true,
            Value::String(_) => true,
            Value::Null => true,
            Value::Object(o) => {
                proof {
                    lemma_entries_view_index(o.0@);
                    lemma_entries_serializable(o@);
                }
                let mut i: usize = 0;
                while i < o.0.len()
                    invariant
                        i <= o.0@.len(),
                        *self == Value::Object(*o),
                        forall|j: int| 0 <= j < i ==> serializable(#[trigger] o@[j].1),
                        forall|j: int|
                            0 <= j < o.0@.len() ==> #[trigger] entries_view(o.0@)[j] == (
                                o.0@[j].0@,
                                value_view(o.0@[j].1),
                            ),
                        entries_view(o.0@).len() == o.0@.len(),
                    decreases o.0@.len() - i,
                {
                    proof {
                        assert(decreases_to!(*self => (*self)->Object_0));
                        assert((*self)->Object_0 == *o);
                        assert(decreases_to!(*o => o.0));
                        assert(decreases_to!(o.0 => o.0@));
                        assert(decreases_to!(o.0@ => o.0@[i as int]));
                        assert(decreases_to!(o.0@[i as int] => o.0@[i as int].1));
                    }
                    if !o.0[i].1.is_serializable() {
                        proof {
                            lemma_entries_serializable(o@);
                            assert(self@ == ValueView::Object(o@));
                            assert(o@ == entries_view(o.0@));
                            assert(!serializable(o@[i as int].1));
                        }
                        return false;
                    }
                    i = i + 1;
                }
                true
            },
            _ => false,
        }
    }

    /// The string, where the value is one.
    pub fn as_string(&self) -> (r: Result<AmfString, AmfError>)
        ensures
            match self@ {
                ValueView::String(c) => r matches Ok(s) && s@ == c,
                _ => r == Err::<AmfString, AmfError>(AmfError::TypeMismatch),
            },
    {
        match self {
            Value::String(value) => Ok(value.clone()),
            _ => Err(AmfError::TypeMismatch),
        }
    }

    /// The number, where the value is one.
    pub fn as_number(&self) -> (r: Result<AmfNumber, AmfError>)
        ensures
            match self@ {
                ValueView::Number(b) => r matches Ok(n) && n@ == b,
                _ => r == Err::<AmfNumber, AmfError>(AmfError::TypeMismatch),
            },
    {
        match self {
            Value::Number(value) => Ok(*value),
            _ => Err(AmfError::TypeMismatch),
        }
    }

    /// The object, where the value is one.
    pub fn as_object(&self) -> (r: Result<AmfObject, AmfError>)
        ensures
            match self@ {
                ValueView::Object(es) => r matches Ok(o) && o@ == es,
                _ => r == Err::<AmfObject, AmfError>(AmfError::TypeMismatch),
            },
    {
        match self {
            Value::Object(value) => Ok(value.clone()),
            _ => Err(AmfError::TypeMismatch),
        }
    }
}

/// Whether `v` reads back from its own bytes: a number, a string short
/// enough for AMF0, or null. (An object does not: its pairs are followed by
/// the end marker without the empty key that reading expects.)
pub open spec fn roundtrips(v: ValueView) -> bool {
    match v {
        ValueView::Number(_) => true,
        ValueView::String(c) => string_fits(c),
        ValueView::Null => true,
        _ => false,
    }
}

/// Reading a number, a string or null back from its bytes, followed by
/// anything, gives the value and the number of its bytes.
pub proof fn lemma_value_roundtrip(v: ValueView, rest: Seq<u8>)
    requires
        roundtrips(v),
    ensures
        spec_parse_value(spec_serialize_value(v) + rest) == Ok::<_, AmfError>(
            (v, spec_serialize_value(v).len() as int),
        ),
{
    let s = spec_serialize_value(v) + rest;
    match v {
        ValueView::Number(b) => {
            crate::bytes::lemma_be64_roundtrip(b);
            assert(s.skip(1).take(8) =~= be64_bytes(b));
        },
        ValueView::String(c) => {
            crate::amf0::string::lemma_string_roundtrip(c, rest);
            assert(s.skip(1) =~= spec_serialize_string(c) + rest);
        },
        _ => {},
    }
}

/// Every object read from bytes has distinct keys.
pub proof fn lemma_parsed_entries_distinct(s: Seq<u8>, acc: EntriesView)
    requires
        keys_distinct(acc),
    ensures
        spec_parse_entries(s, acc) matches Ok((es, _)) ==> keys_distinct(es),
    decreases s.len(),
{
    if let Ok((k, n)) = spec_parse_string(s) {
        if let Ok((v, m)) = spec_parse_value(s.skip(n)) {
            if !(v is ObjectEnd) && 0 < n + m <= s.len() {
                lemma_insert_entry_distinct(acc, k, v);
                lemma_parsed_entries_distinct(s.skip(n + m), insert_entry(acc, k, v));
            }
        }
    }
}

/// Storing pairs whose values can all be written gives pairs whose values
/// can all be written.
pub proof fn lemma_entries_from_pairs_serializable(ps: EntriesView)
    requires
        forall|i: int| 0 <= i < ps.len() ==> serializable(#[trigger] ps[i].1),
    ensures
        entries_serializable(entries_from_pairs(ps)),
    decreases ps.len(),
{
    if ps.len() > 0 {
        assert forall|i: int| 0 <= i < ps.drop_last().len() implies serializable(
            #[trigger] ps.drop_last()[i].1,
        ) by {
            assert(ps.drop_last()[i] == ps[i]);
        }
        lemma_entries_from_pairs_serializable(ps.drop_last());
        let es = entries_from_pairs(ps.drop_last());
        lemma_entries_serializable(es);
        let es2 = entries_from_pairs(ps);
        assert(serializable(ps.last().1));
        assert forall|i: int| 0 <= i < es2.len() implies serializable(#[trigger] es2[i].1) by {
            if has_key(es, ps.last().0) {
                let c = choose|j: int| 0 <= j < es.len() && es[j].0 == ps.last().0;
                if i != c {
                    assert(es2[i] == es[i]);
                }
            } else {
                if i < es.len() {
                    assert(es2[i] == es[i]);
                }
            }
        }
        lemma_entries_serializable(es2);
    }
}

/// How a value is read from its type marker (its first byte): 0 a number,
/// the next eight bytes big-endian; 1 a boolean, the next byte 0 for false
/// and 1 for true, any other refused; 2 a string; 5 null and 9 the object
/// end marker, one byte each; markers 4, 6, 7 and 10 on are refused as
/// unhandled. Values are written with the same markers: 0 and the eight
/// big-endian bytes of a number, 2 and a string, 3, the pairs and 9 for an
/// object, and 5 for null.
pub proof fn lemma_value_markers(s: Seq<u8>, v: ValueView)
    requires
        s.len() >= 1,
    ensures
        s[0] == 0 && s.len() >= 9 ==> spec_parse_value(s) == Ok::<_, AmfError>(
            (ValueView::Number(be64(s.subrange(1, 9)) as u64), 9int),
        ),
        s[0] == 1 && s.len() >= 2 ==> spec_parse_value(s) == if s[1] == 0 {
            Ok::<_, AmfError>((ValueView::Boolean(false), 2int))
        } else if s[1] == 1 {
            Ok::<_, AmfError>((ValueView::Boolean(true), 2int))
        } else {
            Err::<(ValueView, int), _>(AmfError::InvalidBoolean(s[1]))
        },
        s[0] == 2 ==> spec_parse_value(s) == match spec_parse_string(s.skip(1)) {
            Ok((c, n)) => Ok::<_, AmfError>((ValueView::String(c), 1 + n)),
            Err(e) => Err::<(ValueView, int), _>(e),
        },
        s[0] == 5 ==> spec_parse_value(s) == Ok::<_, AmfError>((ValueView::Null, 1int)),
        s[0] == 9 ==> spec_parse_value(s) == Ok::<_, AmfError>((ValueView::ObjectEnd, 1int)),
        s[0] == 4 || s[0] == 6 || s[0] == 7 || s[0] >= 10 ==> spec_parse_value(s) == Err::<
            (ValueView, int),
            _,
        >(AmfError::UnhandledType(s[0])),
        spec_serialize_value(v) == match v {
            ValueView::Number(b) => seq![0u8] + be64_bytes(b),
            ValueView::String(c) => seq![2u8] + spec_serialize_string(c),
            ValueView::Object(es) => seq![3u8] + spec_serialize_entries(es) + seq![9u8],
            ValueView::Null => seq![5u8],
            _ => Seq::<u8>::empty(),
        },
{
    if s.len() >= 9 {
        assert(s.skip(1).take(8) =~= s.subrange(1, 9));
    }
}

} // verus!
