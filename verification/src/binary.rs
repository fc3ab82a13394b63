//! Typed scalars and their packing into byte strings.
//!
//! A tuple is packed field by field. A field is one tag byte, the length of
//! its payload as eight big-endian bytes, and the payload. Integers are
//! written with the sign bit flipped, most significant byte first, so that
//! the order of the bytes is the order of the numbers.

use crate::bytes_order::{
    be_bytes, be_value, lemma_be_bytes_len, lemma_be_bytes_of_value, lemma_be_bytes_ordered,
    lemma_be_value_of_bytes, lemma_lex_lt_irreflexive, lemma_lex_lt_prefixed, lemma_pow256_values,
    lex_lt, pow256, push_be, read_be,
};
use vstd::prelude::*;
use vstd::utf8::*;

verus! {

/// A single typed scalar.
#[derive(Debug, Clone, PartialEq, Eq)]
pub enum Datum {
    Null,
    Bool(bool),
    Int16(i16),
    Int32(i32),
    Int64(i64),
    UInt64(u64),
    Str(String),
}

/// The mathematical value of a [`Datum`].
pub enum DatumView {
    Null,
    Bool(bool),
    Int16(i16),
    Int32(i32),
    Int64(i64),
    UInt64(u64),
    Str(Seq<char>),
}

impl View for Datum {
    type V = DatumView;

    open spec fn view(&self) -> DatumView {
        match self {
            Datum::Null => DatumView::Null,
            Datum::Bool(b) => DatumView::Bool(*b),
            Datum::Int16(v) => DatumView::Int16(*v),
            Datum::Int32(v) => DatumView::Int32(*v),
            Datum::Int64(v) => DatumView::Int64(*v),
            Datum::UInt64(v) => DatumView::UInt64(*v),
            Datum::Str(s) => DatumView::Str(s@),
        }
    }
}

/// A packed tuple of datums.
#[derive(Debug, Clone, PartialEq, Eq, PartialOrd, Ord, Hash)]
pub struct Binary {
    bytes: Vec<u8>,
}

impl View for Binary {
    type V = Seq<u8>;

    closed spec fn view(&self) -> Seq<u8> {
        self.bytes@
    }
}

pub const TAG_NULL: u8 = 0;

pub const TAG_BOOL: u8 = 1;

pub const TAG_INT16: u8 = 2;

pub const TAG_INT32: u8 = 3;

pub const TAG_INT64: u8 = 4;

pub const TAG_UINT64: u8 = 5;

pub const TAG_STR: u8 = 6;

/// The bytes of a field before its payload: the tag and the length.
pub const HEADER_LEN: usize = 9;

/// The views of a sequence of datums.
pub open spec fn datums_view(datums: Seq<Datum>) -> Seq<DatumView> {
    datums.map_values(|d: Datum| d@)
}

pub open spec fn tag_of(d: DatumView) -> u8 {
    match d {
        DatumView::Null => TAG_NULL,
        DatumView::Bool(_) => TAG_BOOL,
        DatumView::Int16(_) => TAG_INT16,
        DatumView::Int32(_) => TAG_INT32,
        DatumView::Int64(_) => TAG_INT64,
        DatumView::UInt64(_) => TAG_UINT64,
        DatumView::Str(_) => TAG_STR,
    }
}

pub open spec fn payload_of(d: DatumView) -> Seq<u8> {
    match d {
        DatumView::Null => Seq::empty(),
        DatumView::Bool(b) => seq![if b { 1u8 } else { 0u8 }],
        DatumView::Int16(v) => be_bytes((v + 0x8000) as nat, 2),
        DatumView::Int32(v) => be_bytes((v + 0x8000_0000) as nat, 4),
        DatumView::Int64(v) => be_bytes((v + 0x8000_0000_0000_0000) as nat, 8),
        DatumView::UInt64(v) => be_bytes(v as nat, 8),
        DatumView::Str(s) => encode_utf8(s),
    }
}

/// One packed field: tag, length of the payload, payload.
pub open spec fn encode_datum(d: DatumView) -> Seq<u8> {
    seq![tag_of(d)] + be_bytes(payload_of(d).len(), 8) + payload_of(d)
}

/// The packing of a tuple: its fields one after the other.
pub open spec fn spec_pack(datums: Seq<DatumView>) -> Seq<u8>
    decreases datums.len(),
{
    if datums.len() == 0 {
        Seq::empty()
    } else {
        encode_datum(datums[0]) + spec_pack(datums.drop_first())
    }
}

/// The datum that a payload stands for under a tag, if it is well formed.
pub open spec fn decode_payload(tag: u8, payload: Seq<u8>) -> Option<DatumView> {
    if tag == TAG_NULL && payload.len() == 0 {
        Some(DatumView::Null)
    } else if tag == TAG_BOOL && payload.len() == 1 && payload[0] <= 1 {
        Some(DatumView::Bool(payload[0] == 1))
    } else if tag == TAG_INT16 && payload.len() == 2 {
        Some(DatumView::Int16((be_value(payload) - 0x8000) as i16))
    } else if tag == TAG_INT32 && payload.len() == 4 {
        Some(DatumView::Int32((be_value(payload) - 0x8000_0000) as i32))
    } else if tag == TAG_INT64 && payload.len() == 8 {
        Some(DatumView::Int64((be_value(payload) - 0x8000_0000_0000_0000) as i64))
    } else if tag == TAG_UINT64 && payload.len() == 8 {
        Some(DatumView::UInt64(be_value(payload) as u64))
    } else if tag == TAG_STR && valid_utf8(payload) {
        Some(DatumView::Str(decode_utf8(payload)))
    } else {
        None
    }
}

/// The first field of a byte string and the number of bytes it takes.
pub open spec fn decode_first(bytes: Seq<u8>) -> Option<(DatumView, int)> {
    if bytes.len() < HEADER_LEN {
        None
    } else {
        let len = be_value(bytes.subrange(1, HEADER_LEN as int)) as int;
        if HEADER_LEN + len > bytes.len() {
            None
        } else {
            match decode_payload(bytes[0], bytes.subrange(HEADER_LEN as int, HEADER_LEN + len)) {
                Some(d) => Some((d, HEADER_LEN + len)),
                None => None,
            }
        }
    }
}

/// The tuple that a byte string packs, if it packs one.
pub open spec fn spec_unpack(bytes: Seq<u8>) -> Option<Seq<DatumView>>
    decreases bytes.len(),
{
    if bytes.len() == 0 {
        Some(Seq::empty())
    } else {
        match decode_first(bytes) {
            Some((d, used)) => if 0 < used <= bytes.len() {
                match spec_unpack(bytes.skip(used)) {
                    Some(rest) => Some(seq![d] + rest),
                    None => None,
                }
            } else {
                None
            },
            None => None,
        }
    }
}

/// The key under which the record with the given id is stored.
pub open spec fn spec_key(record_id: u64) -> Seq<u8> {
    spec_pack(seq![DatumView::UInt64(record_id)])
}

/// Whether the payload of a datum is short enough for its length to be
/// written in the eight bytes of the header.
pub open spec fn packable(d: DatumView) -> bool {
    payload_of(d).len() < pow256(8)
}

pub proof fn lemma_payload_len(d: DatumView)
    ensures
        d is Null ==> payload_of(d).len() == 0,
        d is Bool ==> payload_of(d).len() == 1,
        d is Int16 ==> payload_of(d).len() == 2,
        d is Int32 ==> payload_of(d).len() == 4,
        d is Int64 ==> payload_of(d).len() == 8,
        d is UInt64 ==> payload_of(d).len() == 8,
        !(d is Str) ==> packable(d),
        encode_datum(d).len() == HEADER_LEN + payload_of(d).len(),
{
    lemma_pow256_values();
    lemma_be_bytes_len(payload_of(d).len(), 8);
    match d {
        DatumView::Int16(v) => lemma_be_bytes_len((v + 0x8000) as nat, 2),
        DatumView::Int32(v) => lemma_be_bytes_len((v + 0x8000_0000) as nat, 4),
        DatumView::Int64(v) => lemma_be_bytes_len((v + 0x8000_0000_0000_0000) as nat, 8),
        DatumView::UInt64(v) => lemma_be_bytes_len(v as nat, 8),
        _ => {},
    }
}

/// A well-formed payload is the payload of the datum it decodes to.
pub proof fn lemma_payload_of_decoded(tag: u8, payload: Seq<u8>)
    requires
        decode_payload(tag, payload) is Some,
    ensures
        tag_of(decode_payload(tag, payload).unwrap()) == tag,
        payload_of(decode_payload(tag, payload).unwrap()) == payload,
{
    lemma_pow256_values();
    lemma_be_bytes_of_value(payload);
    let d = decode_payload(tag, payload).unwrap();
    if tag == TAG_NULL && payload.len() == 0 {
        assert(payload_of(d) =~= payload);
    } else if tag == TAG_BOOL && payload.len() == 1 && payload[0] <= 1 {
        assert(payload_of(d) =~= payload);
    } else if tag == TAG_INT16 && payload.len() == 2 {
    } else if tag == TAG_INT32 && payload.len() == 4 {
    } else if tag == TAG_INT64 && payload.len() == 8 {
    } else if tag == TAG_UINT64 && payload.len() == 8 {
    } else {
        decode_utf8_encode_utf8(payload);
    }
}

/// The payload of a datum decodes to the datum.
pub proof fn lemma_decode_of_payload(d: DatumView)
    ensures
        decode_payload(tag_of(d), payload_of(d)) == Some(d),
{
    lemma_pow256_values();
    lemma_payload_len(d);
    match d {
        DatumView::Null => {},
        DatumView::Bool(b) => {},
        DatumView::Int16(v) => lemma_be_value_of_bytes((v + 0x8000) as nat, 2),
        DatumView::Int32(v) => lemma_be_value_of_bytes((v + 0x8000_0000) as nat, 4),
        DatumView::Int64(v) => lemma_be_value_of_bytes((v + 0x8000_0000_0000_0000) as nat, 8),
        DatumView::UInt64(v) => lemma_be_value_of_bytes(v as nat, 8),
        DatumView::Str(s) => {
            encode_utf8_valid_utf8(s);
            encode_utf8_decode_utf8(s);
        },
    }
}

/// A packed field in front of any bytes is read back as that field.
pub proof fn lemma_decode_first_of_encoded(d: DatumView, rest: Seq<u8>)
    requires
        packable(d),
    ensures
        decode_first(encode_datum(d) + rest) == Some((d, encode_datum(d).len() as int)),
{
    let payload = payload_of(d);
    let bytes = encode_datum(d) + rest;
    lemma_payload_len(d);
    lemma_be_bytes_len(payload.len(), 8);
    lemma_be_value_of_bytes(payload.len(), 8);
    lemma_decode_of_payload(d);
    assert(bytes.subrange(1, HEADER_LEN as int) =~= be_bytes(payload.len(), 8));
    assert(bytes.subrange(HEADER_LEN as int, HEADER_LEN + payload.len()) =~= payload);
    assert(bytes[0] == tag_of(d));
}

/// The first field of a byte string is packed exactly as the bytes it took.
pub proof fn lemma_encoded_of_decode_first(bytes: Seq<u8>)
    requires
        decode_first(bytes) is Some,
    ensures
        HEADER_LEN <= decode_first(bytes).unwrap().1 <= bytes.len(),
        encode_datum(decode_first(bytes).unwrap().0) == bytes.subrange(
            0,
            decode_first(bytes).unwrap().1,
        ),
        packable(decode_first(bytes).unwrap().0),
{
    let (d, used) = decode_first(bytes).unwrap();
    let len_bytes = bytes.subrange(1, HEADER_LEN as int);
    let len = be_value(len_bytes) as int;
    let payload = bytes.subrange(HEADER_LEN as int, HEADER_LEN + len);
    lemma_be_bytes_of_value(len_bytes);
    lemma_payload_of_decoded(bytes[0], payload);
    assert(encode_datum(d) =~= bytes.subrange(0, used));
}

/// Unpacking undoes packing: a tuple whose fields fit the header is read
/// back from its packing.
pub proof fn lemma_unpack_pack(datums: Seq<DatumView>)
    requires
        forall|i: int| 0 <= i < datums.len() ==> packable(#[trigger] datums[i]),
    ensures
        spec_unpack(spec_pack(datums)) == Some(datums),
    decreases datums.len(),
{
    if datums.len() > 0 {
        let d = datums[0];
        let rest = datums.drop_first();
        let bytes = spec_pack(datums);
        assert forall|i: int| 0 <= i < rest.len() implies packable(#[trigger] rest[i]) by {
            assert(rest[i] == datums[i + 1]);
        }
        lemma_unpack_pack(rest);
        lemma_decode_first_of_encoded(d, spec_pack(rest));
        lemma_payload_len(d);
        assert(bytes.skip(encode_datum(d).len() as int) =~= spec_pack(rest));
        assert(seq![d] + rest =~= datums);
    }
}

/// Packing undoes unpacking: a byte string that packs a tuple is the
/// packing of that tuple, so no two byte strings pack the same tuple.
pub proof fn lemma_pack_unpack(bytes: Seq<u8>)
    requires
        spec_unpack(bytes) is Some,
    ensures
        spec_pack(spec_unpack(bytes).unwrap()) == bytes,
    decreases bytes.len(),
{
    if bytes.len() > 0 {
        let (d, used) = decode_first(bytes).unwrap();
        let tail = bytes.skip(used);
        let rest = spec_unpack(tail).unwrap();
        lemma_encoded_of_decode_first(bytes);
        lemma_pack_unpack(tail);
        let datums = seq![d] + rest;
        assert(datums.drop_first() =~= rest);
        assert(bytes.subrange(0, used) + tail =~= bytes);
    } else {
        assert(spec_pack(Seq::<DatumView>::empty()) =~= bytes);
    }
}

/// The key of a record is the field that holds its id: seventeen bytes.
pub proof fn lemma_key_shape(record_id: u64)
    ensures
        spec_key(record_id) == seq![TAG_UINT64] + be_bytes(8, 8) + be_bytes(record_id as nat, 8),
        spec_key(record_id).len() == 17,
{
    let d = DatumView::UInt64(record_id);
    let datums = seq![d];
    lemma_payload_len(d);
    lemma_be_bytes_len(8, 8);
    assert(datums.drop_first() =~= Seq::<DatumView>::empty());
    assert(spec_pack(datums.drop_first()) =~= Seq::<u8>::empty());
    assert(spec_pack(datums) =~= encode_datum(d));
}

/// Keys are ordered as the record ids are: the record that was stored
/// earlier has the smaller key.
pub proof fn lemma_keys_ordered(a: u64, b: u64)
    requires
        a < b,
    ensures
        lex_lt(spec_key(a), spec_key(b)),
{
    lemma_key_shape(a);
    lemma_key_shape(b);
    lemma_pow256_values();
    lemma_be_bytes_ordered(a as nat, b as nat, 8);
    lemma_lex_lt_prefixed(
        seq![TAG_UINT64] + be_bytes(8, 8),
        be_bytes(a as nat, 8),
        be_bytes(b as nat, 8),
    );
}

/// Different records have different keys.
pub proof fn lemma_keys_injective(a: u64, b: u64)
    requires
        spec_key(a) == spec_key(b),
    ensures
        a == b,
{
    if a < b {
        lemma_keys_ordered(a, b);
        lemma_lex_lt_irreflexive(spec_key(a));
    } else if b < a {
        lemma_keys_ordered(b, a);
        lemma_lex_lt_irreflexive(spec_key(a));
    }
}

/// `String::from_utf8`: the string made of exactly the given bytes where
/// they are valid UTF-8, and no string where they are not.
#[verifier::external_body]
fn string_from_utf8(bytes: Vec<u8>) -> (text: Option<String>)
    ensures
        text is Some <==> valid_utf8(bytes@),
        text is Some ==> encode_utf8(text.unwrap()@) == bytes@,
{
    String::from_utf8(bytes).ok()
}

/// A copy of `bytes[from .. to]`.
pub fn copy_range(bytes: &Vec<u8>, from: usize, to: usize) -> (copy: Vec<u8>)
    requires
        from <= to <= bytes.len(),
    ensures
        copy@ == bytes@.subrange(from as int, to as int),
{
    let mut copy: Vec<u8> = Vec::new();
    let mut i: usize = from;
    while i < to
        invariant
            from <= i <= to <= bytes.len(),
            copy@ == bytes@.subrange(from as int, i as int),
        decreases to - i,
    {
        copy.push(bytes[i]);
        i = i + 1;
        assert(copy@ =~= bytes@.subrange(from as int, i as int));
    }
    copy
}

impl Datum {
    pub fn from_null() -> (datum: Datum)
        ensures
            datum@ == DatumView::Null,
    {
        Datum::Null
    }

    pub fn from_bool(value: bool) -> (datum: Datum)
        ensures
            datum@ == DatumView::Bool(value),
    {
        Datum::Bool(value)
    }

    pub fn from_i16(value: i16) -> (datum: Datum)
        ensures
            datum@ == DatumView::Int16(value),
    {
        Datum::Int16(value)
    }

    pub fn from_i32(value: i32) -> (datum: Datum)
        ensures
            datum@ == DatumView::Int32(value),
    {
        Datum::Int32(value)
    }

    pub fn from_i64(value: i64) -> (datum: Datum)
        ensures
            datum@ == DatumView::Int64(value),
    {
        Datum::Int64(value)
    }

    pub fn from_u64(value: u64) -> (datum: Datum)
        ensures
            datum@ == DatumView::UInt64(value),
    {
        Datum::UInt64(value)
    }

    pub fn from_str(value: &str) -> (datum: Datum)
        ensures
            datum@ == DatumView::Str(value@),
    {
        Datum::Str(value.to_owned())
    }

    pub fn from_string(value: String) -> (datum: Datum)
        ensures
            datum@ == DatumView::Str(value@),
    {
        Datum::Str(value)
    }

    /// Appends the packed field of this datum.
    fn pack_into(&self, out: &mut Vec<u8>)
        ensures
            final(out)@ == old(out)@ + encode_datum(self@),
            packable(self@),
    {
        proof {
            lemma_payload_len(self@);
            lemma_pow256_values();
        }
        match self {
            Datum::Null => {
                out.push(TAG_NULL);
                push_be(out, 0, 8);
            },
            Datum::Bool(b) => {
                out.push(TAG_BOOL);
                push_be(out, 1, 8);
                out.push(if *b { 1 } else { 0 });
            },
            Datum::Int16(v) => {
                out.push(TAG_INT16);
                push_be(out, 2, 8);
                push_be(out, (*v as i64 + 0x8000) as u64, 2);
            },
            Datum::Int32(v) => {
                out.push(TAG_INT32);
                push_be(out, 4, 8);
                push_be(out, (*v as i64 + 0x8000_0000) as u64, 4);
            },
            Datum::Int64(v) => {
                out.push(TAG_INT64);
                push_be(out, 8, 8);
                push_be(out, (*v as i128 + 0x8000_0000_0000_0000) as u64, 8);
            },
            Datum::UInt64(v) => {
                out.push(TAG_UINT64);
                push_be(out, 8, 8);
                push_be(out, *v, 8);
            },
            Datum::Str(s) => {
                let text = s.as_str().as_bytes();
                let len = text.len();
                out.push(TAG_STR);
                push_be(out, len as u64, 8);
                let ghost before = out@;
                let mut i: usize = 0;
                while i < len
                    invariant
                        i <= len == text@.len(),
                        out@ == before + text@.subrange(0, i as int),
                    decreases len - i,
                {
                    out.push(text[i]);
                    i = i + 1;
                    assert(out@ =~= before + text@.subrange(0, i as int));
                }
                assert(text@.subrange(0, len as int) =~= text@);
            },
        }
        assert(out@ =~= old(out)@ + encode_datum(self@));
    }
}

impl Binary {
    /// The packed tuple with exactly the given bytes.
    pub fn with_data(bytes: Vec<u8>) -> (binary: Binary)
        ensures
            binary@ == bytes@,
    {
        Binary { bytes }
    }

    /// The bytes of the packed tuple.
    pub fn to_bytes(&self) -> (bytes: Vec<u8>)
        ensures
            bytes@ == self@,
    {
        copy_range(&self.bytes, 0, self.bytes.len())
    }

    /// A copy with the same bytes.
    pub fn copy(&self) -> (binary: Binary)
        ensures
            binary@ == self@,
    {
        Binary { bytes: copy_range(&self.bytes, 0, self.bytes.len()) }
    }

    /// Whether two packed tuples have the same bytes.
    pub fn same_bytes(&self, other: &Binary) -> (same: bool)
        ensures
            same == (self@ == other@),
    {
        if self.bytes.len() != other.bytes.len() {
            return false;
        }
        let mut i: usize = 0;
        while i < self.bytes.len()
            invariant
                i <= self.bytes.len() == other.bytes.len(),
                self.bytes@.subrange(0, i as int) == other.bytes@.subrange(0, i as int),
            decreases self.bytes.len() - i,
        {
            if self.bytes[i] != other.bytes[i] {
                return false;
            }
            i = i + 1;
            assert(self.bytes@.subrange(0, i as int) =~= self.bytes@.subrange(0, i - 1).push(
                self.bytes@[i - 1],
            ));
            assert(other.bytes@.subrange(0, i as int) =~= other.bytes@.subrange(0, i - 1).push(
                other.bytes@[i - 1],
            ));
        }
        assert(self.bytes@ =~= self.bytes@.subrange(0, i as int));
        assert(other.bytes@ =~= other.bytes@.subrange(0, i as int));
        true
    }

    /// Packs a tuple: its fields one after the other, in order.
    pub fn pack(tuple: &[Datum]) -> (binary: Binary)
        ensures
            binary@ == spec_pack(datums_view(tuple@)),
            spec_unpack(binary@) == Some(datums_view(tuple@)),
    {
        let ghost datums = datums_view(tuple@);
        let mut bytes: Vec<u8> = Vec::new();
        let mut i: usize = 0;
        assert(datums.skip(0) =~= datums);
        while i < tuple.len()
            invariant
                i <= tuple.len(),
                datums == datums_view(tuple@),
                bytes@ + spec_pack(datums.skip(i as int)) == spec_pack(datums),
                forall|j: int| 0 <= j < i ==> packable(#[trigger] datums[j]),
            decreases tuple.len() - i,
        {
            let ghost before = bytes@;
            tuple[i].pack_into(&mut bytes);
            proof {
                let tail = datums.skip(i as int);
                assert(tail[0] == tuple@[i as int]@);
                assert(tail.drop_first() =~= datums.skip(i + 1));
                assert(bytes@ + spec_pack(datums.skip(i + 1)) =~= before + spec_pack(tail));
            }
            i = i + 1;
        }
        proof {
            assert(datums.skip(i as int) =~= Seq::<DatumView>::empty());
            assert(bytes@ =~= spec_pack(datums));
            lemma_unpack_pack(datums);
        }
        Binary { bytes }
    }

    /// Reads the field that starts at `pos`: the datum and the position
    /// after it, or nothing where no well-formed field starts there.
    fn unpack_field(&self, pos: usize) -> (field: Option<(Datum, usize)>)
        requires
            pos <= self@.len(),
        ensures
            match field {
                Some((datum, next)) => {
                    &&& pos < next <= self@.len()
                    &&& decode_first(self@.skip(pos as int)) == Some((datum@, next - pos))
                },
                None => decode_first(self@.skip(pos as int)) is None,
            },
    {
        let ghost rest = self@.skip(pos as int);
        let total = self.bytes.len();
        if total - pos < HEADER_LEN {
            return None;
        }
        let tag = self.bytes[pos];
        let len = read_be(&self.bytes, pos + 1, 8);
        proof {
            assert(rest.subrange(1, HEADER_LEN as int) =~= self@.subrange(pos + 1, pos + 1 + 8));
            assert(rest[0] == tag);
        }
        if len > (total - pos - HEADER_LEN) as u64 {
            return None;
        }
        let start = pos + HEADER_LEN;
        let len = len as usize;
        let end = start + len;
        let ghost payload = rest.subrange(HEADER_LEN as int, HEADER_LEN + len);
        proof {
            assert(payload =~= self@.subrange(start as int, end as int));
            lemma_be_bytes_of_value(payload);
            lemma_pow256_values();
        }
        if tag == TAG_NULL && len == 0 {
            Some((Datum::Null, end))
        } else if tag == TAG_BOOL && len == 1 && self.bytes[start] <= 1 {
            Some((Datum::Bool(self.bytes[start] == 1), end))
        } else if tag == TAG_INT16 && len == 2 {
            let raw = read_be(&self.bytes, start, 2);
            Some((Datum::Int16((raw as i64 - 0x8000) as i16), end))
        } else if tag == TAG_INT32 && len == 4 {
            let raw = read_be(&self.bytes, start, 4);
            Some((Datum::Int32((raw as i64 - 0x8000_0000) as i32), end))
        } else if tag == TAG_INT64 && len == 8 {
            let raw = read_be(&self.bytes, start, 8);
            Some((Datum::Int64((raw as i128 - 0x8000_0000_0000_0000) as i64), end))
        } else if tag == TAG_UINT64 && len == 8 {
            let raw = read_be(&self.bytes, start, 8);
            Some((Datum::UInt64(raw), end))
        } else if tag == TAG_STR {
            match string_from_utf8(copy_range(&self.bytes, start, end)) {
                Some(text) => {
                    proof {
                        encode_utf8_decode_utf8(text@);
                    }
                    Some((Datum::Str(text), end))
                },
                None => None,
            }
        } else {
            None
        }
    }

    /// Unpacks the tuple, or nothing where the bytes pack none.
    pub fn unpack(&self) -> (tuple: Option<Vec<Datum>>)
        ensures
            match tuple {
                Some(datums) => spec_unpack(self@) == Some(datums_view(datums@))
                    && spec_pack(datums_view(datums@)) == self@,
                None => spec_unpack(self@) is None,
            },
    {
        let mut datums: Vec<Datum> = Vec::new();
        let mut pos: usize = 0;
        assert(self@.skip(0) =~= self@);
        assert(datums_view(datums@) =~= Seq::<DatumView>::empty());
        while pos < self.bytes.len()
            invariant
                pos <= self@.len(),
                self@ == self.bytes@,
                spec_unpack(self@) == (match spec_unpack(self@.skip(pos as int)) {
                    Some(rest) => Some(datums_view(datums@) + rest),
                    None => None,
                }),
            decreases self@.len() - pos,
        {
            let ghost before = datums_view(datums@);
            match self.unpack_field(pos) {
                Some((datum, next)) => {
                    proof {
                        assert(self@.skip(pos as int).skip(next - pos) =~= self@.skip(next as int));
                        match spec_unpack(self@.skip(next as int)) {
                            Some(rest) => {
                                assert(before + (seq![datum@] + rest) =~= before.push(datum@)
                                    + rest);
                            },
                            None => {},
                        }
                    }
                    datums.push(datum);
                    assert(datums_view(datums@) =~= before.push(datum@));
                    pos = next;
                },
                None => {
                    return None;
                },
            }
        }
        proof {
            assert(self@.skip(pos as int) =~= Seq::<u8>::empty());
            assert(datums_view(datums@) + Seq::<DatumView>::empty() =~= datums_view(datums@));
            lemma_pack_unpack(self@);
        }
        Some(datums)
    }

    /// The key of the record with the given id.
    pub fn record_key(record_id: u64) -> (key: Binary)
        ensures
            key@ == spec_key(record_id),
    {
        let mut bytes: Vec<u8> = Vec::new();
        bytes.push(TAG_UINT64);
        push_be(&mut bytes, 8, 8);
        push_be(&mut bytes, record_id, 8);
        proof {
            lemma_key_shape(record_id);
            assert(bytes@ =~= spec_key(record_id));
        }
        Binary { bytes }
    }

    /// The id of the record whose key this is; nothing where this is no key.
    pub fn record_id(&self) -> (record_id: Option<u64>)
        ensures
            match record_id {
                Some(id) => self@ == spec_key(id),
                None => forall|id: u64| self@ != spec_key(id),
            },
    {
        proof {
            lemma_pow256_values();
            lemma_be_bytes_len(8, 8);
            lemma_be_value_of_bytes(8, 8);
            assert forall|id: u64| self@ == spec_key(id) implies {
                &&& self@.len() == 17
                &&& self@[0] == TAG_UINT64
                &&& be_value(self@.subrange(1, 9)) == 8
                &&& be_value(self@.subrange(9, 17)) == id
            } by {
                lemma_key_shape(id);
                lemma_be_bytes_len(id as nat, 8);
                lemma_be_value_of_bytes(id as nat, 8);
                assert(self@.subrange(1, 9) =~= be_bytes(8, 8));
                assert(self@.subrange(9, 17) =~= be_bytes(id as nat, 8));
            }
        }
        if self.bytes.len() != 17 || self.bytes[0] != TAG_UINT64 {
            return None;
        }
        if read_be(&self.bytes, 1, 8) != 8 {
            return None;
        }
        let id = read_be(&self.bytes, 9, 8);
        proof {
            lemma_key_shape(id);
            lemma_be_bytes_of_value(self@.subrange(1, 9));
            lemma_be_bytes_of_value(self@.subrange(9, 17));
            assert(self@ =~= seq![TAG_UINT64] + self@.subrange(1, 9) + self@.subrange(9, 17));
        }
        Some(id)
    }
}

} // verus!
