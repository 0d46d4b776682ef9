//! A sequence of AMF0 values, as RTMP command and data payloads carry them.

use vstd::prelude::*;

use crate::amf0::value::{
    lemma_value_roundtrip, roundtrips, serializable, spec_parse_value, spec_serialize_value, Value,
    ValueView,
};
use crate::bytes::push_all;
use crate::error::AmfError;

verus! {

/// Values one after another.
#[derive(Debug)]
pub struct Sequence {
    inner: Vec<Value>,
}

/// Values as values.
pub open spec fn values_view(vs: Seq<Value>) -> Seq<ValueView> {
    vs.map_values(|v: Value| v@)
}

impl View for Sequence {
    type V = Seq<ValueView>;

    closed spec fn view(&self) -> Seq<ValueView> {
        values_view(self.inner@)
    }
}

/// The values that fill `s` from start to end.
pub open spec fn spec_parse_sequence(s: Seq<u8>) -> Result<Seq<ValueView>, AmfError>
    decreases s.len(),
{
    if s.len() == 0 {
        Ok(Seq::empty())
    } else {
        match spec_parse_value(s) {
            Err(e) => Err(e),
            Ok((v, n)) => if 0 < n <= s.len() {
                match spec_parse_sequence(s.skip(n)) {
                    Ok(vs) => Ok(seq![v] + vs),
                    Err(e) => Err(e),
                }
            } else {
                Err(AmfError::NotEnoughData)
            },
        }
    }
}

/// The bytes of values one after another.
pub open spec fn spec_serialize_sequence(vs: Seq<ValueView>) -> Seq<u8>
    decreases vs.len(),
{
    if vs.len() == 0 {
        Seq::empty()
    } else {
        spec_serialize_sequence(vs.drop_last()) + spec_serialize_value(vs.last())
    }
}

impl Sequence {
    /// An empty sequence.
    pub fn new() -> (r: Self)
        ensures
            r@ == Seq::<ValueView>::empty(),
    {
        let r = Self { inner: Vec::new() };
        assert(r@ =~= Seq::<ValueView>::empty());
        r
    }

    /// A sequence of copies of `items`.
    pub fn from(items: &[Value]) -> (r: Self)
        ensures
            r@ == values_view(items@),
    {
        let mut inner: Vec<Value> = Vec::new();
        let mut i: usize = 0;
        while i < items.len()
            invariant
                i <= items@.len(),
                values_view(inner@) == values_view(items@.take(i as int)),
            decreases items@.len() - i,
        {
            let v = items[i].clone();
            assert(v@ == items@[i as int]@);
            let ghost before = inner@;
            inner.push(v);
            assert(inner@.drop_last() == before);
            assert(values_view(before) =~= values_view(items@.take(i as int)));
            assert(values_view(inner@) =~= values_view(before).push(inner@[i as int]@));
            assert(items@.take(i + 1).drop_last() =~= items@.take(i as int));
            assert(values_view(items@.take(i + 1)) =~= values_view(items@.take(i as int)).push(
                items@[i as int]@,
            ));
            assert(values_view(inner@) =~= values_view(items@.take(i + 1)));
            i = i + 1;
        }
        assert(items@.take(items@.len() as int) =~= items@);
        Self { inner }
    }

    /// Reads values from the front of `iter` until it is empty, which it is
    /// afterwards; on an error `iter` is left as it was.
    pub fn deserialize(iter: &mut &[u8]) -> (r: Result<Self, AmfError>)
        ensures
            match spec_parse_sequence(old(iter)@) {
                Ok(vs) => r matches Ok(q) && q@ == vs && final(iter)@ == Seq::<u8>::empty(),
                Err(e) => r matches Err(x) && x == e && final(iter)@ == old(iter)@,
            },
    {
        let data: &[u8] = *iter;
        let mut it: &[u8] = data;
        let mut items: Vec<Value> = Vec::new();
        assert(values_view(items@) =~= Seq::<ValueView>::empty());
        while it.len() > 0
            invariant
                data@ == old(iter)@,
                iter@ == old(iter)@,
                spec_parse_sequence(data@) == match spec_parse_sequence(it@) {
                    Ok(vs) => Ok(values_view(items@) + vs),
                    Err(e) => Err::<Seq<ValueView>, AmfError>(e),
                },
            decreases it@.len(),
        {
            let ghost before = it@;
            let item = match Value::deserialize(&mut it) {
                Ok(v) => v,
                Err(e) => {
                    assert(spec_parse_sequence(before) == Err::<Seq<ValueView>, AmfError>(e));
                    return Err(e);
                },
            };
            assert(spec_parse_sequence(before) == match spec_parse_sequence(it@) {
                Ok(vs) => Ok(seq![item@] + vs),
                Err(e) => Err::<Seq<ValueView>, AmfError>(e),
            });
            let ghost vv = item@;
            let ghost old_items = values_view(items@);
            items.push(item);
            assert(values_view(items@) =~= old_items.push(vv));
            proof {
                match spec_parse_sequence(it@) {
                    Ok(vs) => {
                        assert(old_items + (seq![vv] + vs) =~= values_view(items@) + vs);
                    },
                    Err(e) => {},
                }
            }
        }
        assert(values_view(items@) + Seq::<ValueView>::empty() =~= values_view(items@));
        *iter = it;
        Ok(Self { inner: items })
    }

    /// Adds `item` at the end.
    pub fn push(&mut self, item: Value)
        ensures
            final(self)@ == old(self)@.push(item@),
    {
        let ghost v = item@;
        self.inner.push(item);
        assert(self@ =~= old(self)@.push(v));
    }

    /// The bytes of the values one after another. Only numbers, strings,
    /// null and objects of those can be written.
    pub fn serialize(&self) -> (r: Vec<u8>)
        requires
            forall|i: int| 0 <= i < self@.len() ==> serializable(#[trigger] self@[i]),
        ensures
            r@ == spec_serialize_sequence(self@),
    {
        let mut buf: Vec<u8> = Vec::new();
        let mut i: usize = 0;
        assert(values_view(self.inner@.take(0)) =~= Seq::<ValueView>::empty());
        while i < self.inner.len()
            invariant
                i <= self.inner@.len(),
                forall|j: int| 0 <= j < self@.len() ==> serializable(#[trigger] self@[j]),
                self@ == values_view(self.inner@),
                buf@ == spec_serialize_sequence(values_view(self.inner@.take(i as int))),
            decreases self.inner@.len() - i,
        {
            assert(self@[i as int] == self.inner@[i as int]@);
            let bytes = self.inner[i].serialize();
            let ghost next = values_view(self.inner@.take(i + 1));
            assert(next.drop_last() =~= values_view(self.inner@.take(i as int)));
            assert(next.last() == self.inner@[i as int]@);
            push_all(&mut buf, bytes.as_slice());
            i = i + 1;
        }
        assert(self.inner@.take(i as int) =~= self.inner@);
        buf
    }
}

/// The bytes of values put in front of others are the first value's bytes
/// followed by the others' bytes.
proof fn lemma_serialize_sequence_front(v: ValueView, vs: Seq<ValueView>)
    ensures
        spec_serialize_sequence(seq![v] + vs) == spec_serialize_value(v) + spec_serialize_sequence(vs),
    decreases vs.len(),
{
    if vs.len() == 0 {
        assert((seq![v] + vs).drop_last() =~= Seq::<ValueView>::empty());
        assert((seq![v] + vs).last() == v);
        assert(spec_serialize_sequence(Seq::<ValueView>::empty()) == Seq::<u8>::empty());
        assert(Seq::<u8>::empty() + spec_serialize_value(v) =~= spec_serialize_value(v));
        assert(spec_serialize_value(v) + Seq::<u8>::empty() =~= spec_serialize_value(v));
    } else {
        assert((seq![v] + vs).drop_last() =~= seq![v] + vs.drop_last());
        assert((seq![v] + vs).last() == vs.last());
        lemma_serialize_sequence_front(v, vs.drop_last());
        assert(spec_serialize_value(v) + spec_serialize_sequence(vs.drop_last())
            + spec_serialize_value(vs.last()) =~= spec_serialize_value(v) + (spec_serialize_sequence(
            vs.drop_last(),
        ) + spec_serialize_value(vs.last())));
    }
}

/// Reading back the bytes of numbers, strings and nulls gives the values.
pub proof fn lemma_sequence_roundtrip(vs: Seq<ValueView>)
    requires
        forall|i: int| 0 <= i < vs.len() ==> roundtrips(#[trigger] vs[i]),
    ensures
        spec_parse_sequence(spec_serialize_sequence(vs)) == Ok::<_, AmfError>(vs),
    decreases vs.len(),
{
    if vs.len() > 0 {
        let v = vs[0];
        let rest = vs.drop_first();
        assert(vs =~= seq![v] + rest);
        lemma_serialize_sequence_front(v, rest);
        let s = spec_serialize_sequence(vs);
        assert(roundtrips(v));
        lemma_value_roundtrip(v, spec_serialize_sequence(rest));
        let n = spec_serialize_value(v).len() as int;
        assert(n > 0);
        assert(s == spec_serialize_value(v) + spec_serialize_sequence(rest));
        assert(spec_parse_value(s) == Ok::<_, AmfError>((v, n)));
        assert(s.skip(n) =~= spec_serialize_sequence(rest));
        assert forall|i: int| 0 <= i < rest.len() implies roundtrips(#[trigger] rest[i]) by {
            assert(rest[i] == vs[i + 1]);
        }
        lemma_sequence_roundtrip(rest);
        assert(spec_parse_sequence(s.skip(n)) == Ok::<_, AmfError>(rest));
        assert(s.len() > 0);
        assert(spec_parse_sequence(s) == Ok::<_, AmfError>(seq![v] + rest));
        assert(seq![v] + rest == vs);
    } else {
        assert(spec_serialize_sequence(vs) == Seq::<u8>::empty());
        assert(vs =~= Seq::<ValueView>::empty());
    }
}

} // verus!
