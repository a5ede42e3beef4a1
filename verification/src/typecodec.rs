//! The composable binary codec for protocol values.
//!
//! Every encodable type states its wire form as a sequence of bytes over its
//! mathematical view: fixed-width integers in big-endian order, strings as a
//! four-byte byte count followed by the UTF-8 bytes, sequences as a four-byte
//! element count followed by each element's own encoding, and composites as
//! the concatenation of their fields in declared order.  Decoding consumes
//! exactly the bytes its matching encode produced, and the contracts pin the
//! decoded value: feeding `encode(v)` plus any tail to `decode` must yield
//! `v` and leave the tail.

use vstd::prelude::*;
use vstd::string::StrSliceExecFns;
use vstd::utf8::{
    encode_utf8, decode_utf8, valid_utf8, encode_utf8_valid_utf8, encode_utf8_decode_utf8,
    decode_utf8_encode_utf8,
};
use crate::bytebuf::{
    BytesMut, contents, u16_be, u32_be, u64_be, lemma_u16_be_injective, lemma_u32_be_injective,
    lemma_u64_be_injective, buf_len, get_u8, get_u16, get_u32, get_u64, put_u8, put_u16, put_u32,
    put_u64, put_slice,
};
use crate::errors::BukrsError;

verus! {

/// The kind a value presents on the wire.
#[derive(Clone, Copy, Debug, PartialEq, Eq, Structural)]
pub enum BukrsNativeType {
    U8,
    U16,
    U32,
    U64,
    I8,
    I16,
    I32,
    I64,
    F32,
    F64,
    VECTOR,
    STRING,
    CUSTOM,
}

/// Splitting two equal concatenations at the same point gives equal parts.
pub proof fn lemma_concat_parts(a1: Seq<u8>, b1: Seq<u8>, a2: Seq<u8>, b2: Seq<u8>)
    requires
        a1 + b1 == a2 + b2,
        a1.len() == a2.len(),
    ensures
        a1 == a2,
        b1 == b2,
{
    assert forall|i: int| 0 <= i < a1.len() implies a1[i] == a2[i] by {
        assert((a1 + b1)[i] == a1[i]);
        assert((a2 + b2)[i] == a2[i]);
    }
    assert(a1 =~= a2);
    assert((a1 + b1).len() == a1.len() + b1.len());
    assert((a2 + b2).len() == a2.len() + b2.len());
    assert(b1.len() == b2.len());
    assert forall|i: int| 0 <= i < b1.len() implies b1[i] == b2[i] by {
        assert((a1 + b1)[a1.len() + i] == b1[i]);
        assert((a2 + b2)[a2.len() + i] == b2[i]);
    }
    assert(b1 =~= b2);
}

/// A value's binary form, stated over its mathematical view.
///
/// `wire` is the encoding itself; `fits` says when the value can be encoded
/// at all (every length must fit its four-byte prefix).  `lemma_wire_unambiguous`
/// is the round-trip law's backbone: no encodable value's wire form is a
/// prefix of another's, so whatever `decode` recovers is the only value the
/// bytes could have meant.
pub trait BukrsType: DeepView + Sized {
    /// The bytes `encode` appends for a value with this view.
    spec fn wire(m: <Self as DeepView>::V) -> Seq<u8>;

    /// Whether a value with this view can be encoded at all.
    spec fn fits(m: <Self as DeepView>::V) -> bool;

    /// The wire kind `ty` reports.
    spec fn native_ty() -> BukrsNativeType;

    /// Distinct encodable values never share a wire prefix.
    proof fn lemma_wire_unambiguous(
        m1: <Self as DeepView>::V,
        m2: <Self as DeepView>::V,
        r1: Seq<u8>,
        r2: Seq<u8>,
    )
        requires
            Self::fits(m1),
            Self::fits(m2),
            Self::wire(m1) + r1 == Self::wire(m2) + r2,
        ensures
            m1 == m2,
            r1 == r2,
    ;

    fn ty(&self) -> (r: BukrsNativeType)
        ensures
            r == Self::native_ty(),
    ;

    fn encode(&self, bytes: &mut BytesMut) -> (r: Result<(), BukrsError>)
        ensures
            r is Ok <==> Self::fits(self.deep_view()),
            r is Ok ==> contents(*final(bytes)) == contents(*old(bytes)) + Self::wire(
                self.deep_view(),
            ),
            r matches Err(e) ==> e == BukrsError::InvalidEncoding,
    ;

    fn decode(bytes: &mut BytesMut) -> (r: Result<Self, BukrsError>)
        ensures
            r matches Ok(v) ==> Self::fits(v.deep_view()) && contents(*old(bytes)) == Self::wire(
                v.deep_view(),
            ) + contents(*final(bytes)),
            r matches Ok(v) ==> forall|m: <Self as DeepView>::V, rest: Seq<u8>|
                Self::fits(m) && contents(*old(bytes)) == #[trigger] (Self::wire(m) + rest) ==> m
                    == v.deep_view() && rest == contents(*final(bytes)),
            (exists|m: <Self as DeepView>::V, rest: Seq<u8>|
                Self::fits(m) && contents(*old(bytes)) == #[trigger] (Self::wire(m) + rest)) ==> r
                is Ok,
            r matches Err(e) ==> e == BukrsError::TruncatedInput || e
                == BukrsError::InvalidEncoding,
    ;
}

impl BukrsType for u8 {
    open spec fn wire(m: u8) -> Seq<u8> {
        seq![m]
    }

    open spec fn fits(m: u8) -> bool {
        true
    }

    open spec fn native_ty() -> BukrsNativeType {
        BukrsNativeType::U8
    }

    proof fn lemma_wire_unambiguous(m1: u8, m2: u8, r1: Seq<u8>, r2: Seq<u8>) {
        lemma_concat_parts(seq![m1], r1, seq![m2], r2);
        assert(seq![m1][0] == seq![m2][0]);
    }

    fn ty(&self) -> BukrsNativeType {
        BukrsNativeType::U8
    }

    fn encode(&self, bytes: &mut BytesMut) -> Result<(), BukrsError> {
        put_u8(bytes, *self);
        proof {
            assert(contents(*bytes) =~= contents(*old(bytes)) + Self::wire(*self));
        }
        Ok(())
    }

    fn decode(bytes: &mut BytesMut) -> (r: Result<Self, BukrsError>) {
        let ghost orig = contents(*bytes);
        if buf_len(bytes) < 1 {
            proof {
                assert forall|m: u8, rest: Seq<u8>| orig != #[trigger] (Self::wire(m) + rest) by {}
            }
            return Err(BukrsError::TruncatedInput);
        }
        let v = get_u8(bytes);
        proof {
            assert(orig =~= Self::wire(v) + contents(*bytes));
            assert forall|m: u8, rest: Seq<u8>|
                Self::fits(m) && orig == #[trigger] (Self::wire(m) + rest) implies m == v && rest
                == contents(*bytes) by {
                lemma_concat_parts(seq![m], rest, seq![v], contents(*bytes));
                assert(seq![m][0] == seq![v][0]);
            }
        }
        Ok(v)
    }
}

impl BukrsType for u16 {
    open spec fn wire(m: u16) -> Seq<u8> {
        u16_be(m)
    }

    open spec fn fits(m: u16) -> bool {
        true
    }

    open spec fn native_ty() -> BukrsNativeType {
        BukrsNativeType::U16
    }

    proof fn lemma_wire_unambiguous(m1: u16, m2: u16, r1: Seq<u8>, r2: Seq<u8>) {
        lemma_concat_parts(u16_be(m1), r1, u16_be(m2), r2);
        lemma_u16_be_injective(m1, m2);
    }

    fn ty(&self) -> BukrsNativeType {
        BukrsNativeType::U16
    }

    fn encode(&self, bytes: &mut BytesMut) -> Result<(), BukrsError> {
        put_u16(bytes, *self);
        Ok(())
    }

    fn decode(bytes: &mut BytesMut) -> (r: Result<Self, BukrsError>) {
        let ghost orig = contents(*bytes);
        if buf_len(bytes) < 2 {
            proof {
                assert forall|m: u16, rest: Seq<u8>| orig != #[trigger] (Self::wire(m) + rest) by {}
            }
            return Err(BukrsError::TruncatedInput);
        }
        let v = get_u16(bytes);
        proof {
            assert(orig =~= orig.take(2) + orig.skip(2));
            assert forall|m: u16, rest: Seq<u8>|
                Self::fits(m) && orig == #[trigger] (Self::wire(m) + rest) implies m == v && rest
                == contents(*bytes) by {
                lemma_concat_parts(u16_be(m), rest, u16_be(v), contents(*bytes));
                lemma_u16_be_injective(m, v);
            }
        }
        Ok(v)
    }
}

impl BukrsType for u32 {
    open spec fn wire(m: u32) -> Seq<u8> {
        u32_be(m)
    }

    open spec fn fits(m: u32) -> bool {
        true
    }

    open spec fn native_ty() -> BukrsNativeType {
        BukrsNativeType::U32
    }

    proof fn lemma_wire_unambiguous(m1: u32, m2: u32, r1: Seq<u8>, r2: Seq<u8>) {
        lemma_concat_parts(u32_be(m1), r1, u32_be(m2), r2);
        lemma_u32_be_injective(m1, m2);
    }

    fn ty(&self) -> BukrsNativeType {
        BukrsNativeType::U32
    }

    fn encode(&self, bytes: &mut BytesMut) -> Result<(), BukrsError> {
        put_u32(bytes, *self);
        Ok(())
    }

    fn decode(bytes: &mut BytesMut) -> (r: Result<Self, BukrsError>) {
        let ghost orig = contents(*bytes);
        if buf_len(bytes) < 4 {
            proof {
                assert forall|m: u32, rest: Seq<u8>| orig != #[trigger] (Self::wire(m) + rest) by {}
            }
            return Err(BukrsError::TruncatedInput);
        }
        let v = get_u32(bytes);
        proof {
            assert(orig =~= orig.take(4) + orig.skip(4));
            assert forall|m: u32, rest: Seq<u8>|
                Self::fits(m) && orig == #[trigger] (Self::wire(m) + rest) implies m == v && rest
                == contents(*bytes) by {
                lemma_concat_parts(u32_be(m), rest, u32_be(v), contents(*bytes));
                lemma_u32_be_injective(m, v);
            }
        }
        Ok(v)
    }
}

impl BukrsType for u64 {
    open spec fn wire(m: u64) -> Seq<u8> {
        u64_be(m)
    }

    open spec fn fits(m: u64) -> bool {
        true
    }

    open spec fn native_ty() -> BukrsNativeType {
        BukrsNativeType::U64
    }

    proof fn lemma_wire_unambiguous(m1: u64, m2: u64, r1: Seq<u8>, r2: Seq<u8>) {
        lemma_concat_parts(u64_be(m1), r1, u64_be(m2), r2);
        lemma_u64_be_injective(m1, m2);
    }

    fn ty(&self) -> BukrsNativeType {
        BukrsNativeType::U64
    }

    fn encode(&self, bytes: &mut BytesMut) -> Result<(), BukrsError> {
        put_u64(bytes, *self);
        Ok(())
    }

    fn decode(bytes: &mut BytesMut) -> (r: Result<Self, BukrsError>) {
        let ghost orig = contents(*bytes);
        if buf_len(bytes) < 8 {
            proof {
                assert forall|m: u64, rest: Seq<u8>| orig != #[trigger] (Self::wire(m) + rest) by {}
            }
            return Err(BukrsError::TruncatedInput);
        }
        let v = get_u64(bytes);
        proof {
            assert(orig =~= orig.take(8) + orig.skip(8));
            assert forall|m: u64, rest: Seq<u8>|
                Self::fits(m) && orig == #[trigger] (Self::wire(m) + rest) implies m == v && rest
                == contents(*bytes) by {
                lemma_concat_parts(u64_be(m), rest, u64_be(v), contents(*bytes));
                lemma_u64_be_injective(m, v);
            }
        }
        Ok(v)
    }
}

impl BukrsType for i8 {
    open spec fn wire(m: i8) -> Seq<u8> {
        seq![m as u8]
    }

    open spec fn fits(m: i8) -> bool {
        true
    }

    open spec fn native_ty() -> BukrsNativeType {
        BukrsNativeType::I8
    }

    proof fn lemma_wire_unambiguous(m1: i8, m2: i8, r1: Seq<u8>, r2: Seq<u8>) {
        lemma_concat_parts(seq![m1 as u8], r1, seq![m2 as u8], r2);
        assert(seq![m1 as u8][0] == seq![m2 as u8][0]);
        assert(m1 as u8 == m2 as u8 ==> m1 == m2) by (bit_vector);
    }

    fn ty(&self) -> BukrsNativeType {
        BukrsNativeType::I8
    }

    fn encode(&self, bytes: &mut BytesMut) -> Result<(), BukrsError> {
        put_u8(bytes, *self as u8);
        proof {
            assert(contents(*bytes) =~= contents(*old(bytes)) + Self::wire(*self));
        }
        Ok(())
    }

    fn decode(bytes: &mut BytesMut) -> (r: Result<Self, BukrsError>) {
        let ghost orig = contents(*bytes);
        if buf_len(bytes) < 1 {
            proof {
                assert forall|m: i8, rest: Seq<u8>| orig != #[trigger] (Self::wire(m) + rest) by {}
            }
            return Err(BukrsError::TruncatedInput);
        }
        let b = get_u8(bytes);
        let v = b as i8;
        proof {
            assert((b as i8) as u8 == b) by (bit_vector);
            assert(orig =~= Self::wire(v) + contents(*bytes));
            assert forall|m: i8, rest: Seq<u8>|
                Self::fits(m) && orig == #[trigger] (Self::wire(m) + rest) implies m == v && rest
                == contents(*bytes) by {
                lemma_concat_parts(seq![m as u8], rest, seq![v as u8], contents(*bytes));
                assert(seq![m as u8][0] == seq![v as u8][0]);
                assert(m as u8 == v as u8 ==> m == v) by (bit_vector);
            }
        }
        Ok(v)
    }
}

impl BukrsType for i16 {
    open spec fn wire(m: i16) -> Seq<u8> {
        u16_be(m as u16)
    }

    open spec fn fits(m: i16) -> bool {
        true
    }

    open spec fn native_ty() -> BukrsNativeType {
        BukrsNativeType::I16
    }

    proof fn lemma_wire_unambiguous(m1: i16, m2: i16, r1: Seq<u8>, r2: Seq<u8>) {
        lemma_concat_parts(u16_be(m1 as u16), r1, u16_be(m2 as u16), r2);
        lemma_u16_be_injective(m1 as u16, m2 as u16);
        assert(m1 as u16 == m2 as u16 ==> m1 == m2) by (bit_vector);
    }

    fn ty(&self) -> BukrsNativeType {
        BukrsNativeType::I16
    }

    fn encode(&self, bytes: &mut BytesMut) -> Result<(), BukrsError> {
        put_u16(bytes, *self as u16);
        Ok(())
    }

    fn decode(bytes: &mut BytesMut) -> (r: Result<Self, BukrsError>) {
        let ghost orig = contents(*bytes);
        if buf_len(bytes) < 2 {
            proof {
                assert forall|m: i16, rest: Seq<u8>| orig != #[trigger] (Self::wire(m) + rest) by {}
            }
            return Err(BukrsError::TruncatedInput);
        }
        let b = get_u16(bytes);
        let v = b as i16;
        proof {
            assert((b as i16) as u16 == b) by (bit_vector);
            assert(orig =~= orig.take(2) + orig.skip(2));
            assert forall|m: i16, rest: Seq<u8>|
                Self::fits(m) && orig == #[trigger] (Self::wire(m) + rest) implies m == v && rest
                == contents(*bytes) by {
                lemma_concat_parts(u16_be(m as u16), rest, u16_be(v as u16), contents(*bytes));
                lemma_u16_be_injective(m as u16, v as u16);
                assert(m as u16 == v as u16 ==> m == v) by (bit_vector);
            }
        }
        Ok(v)
    }
}

impl BukrsType for i32 {
    open spec fn wire(m: i32) -> Seq<u8> {
        u32_be(m as u32)
    }

    open spec fn fits(m: i32) -> bool {
        true
    }

    open spec fn native_ty() -> BukrsNativeType {
        BukrsNativeType::I32
    }

    proof fn lemma_wire_unambiguous(m1: i32, m2: i32, r1: Seq<u8>, r2: Seq<u8>) {
        lemma_concat_parts(u32_be(m1 as u32), r1, u32_be(m2 as u32), r2);
        lemma_u32_be_injective(m1 as u32, m2 as u32);
        assert(m1 as u32 == m2 as u32 ==> m1 == m2) by (bit_vector);
    }

    fn ty(&self) -> BukrsNativeType {
        BukrsNativeType::I32
    }

    fn encode(&self, bytes: &mut BytesMut) -> Result<(), BukrsError> {
        put_u32(bytes, *self as u32);
        Ok(())
    }

    fn decode(bytes: &mut BytesMut) -> (r: Result<Self, BukrsError>) {
        let ghost orig = contents(*bytes);
        if buf_len(bytes) < 4 {
            proof {
                assert forall|m: i32, rest: Seq<u8>| orig != #[trigger] (Self::wire(m) + rest) by {}
            }
            return Err(BukrsError::TruncatedInput);
        }
        let b = get_u32(bytes);
        let v = b as i32;
        proof {
            assert((b as i32) as u32 == b) by (bit_vector);
            assert(orig =~= orig.take(4) + orig.skip(4));
            assert forall|m: i32, rest: Seq<u8>|
                Self::fits(m) && orig == #[trigger] (Self::wire(m) + rest) implies m == v && rest
                == contents(*bytes) by {
                lemma_concat_parts(u32_be(m as u32), rest, u32_be(v as u32), contents(*bytes));
                lemma_u32_be_injective(m as u32, v as u32);
                assert(m as u32 == v as u32 ==> m == v) by (bit_vector);
            }
        }
        Ok(v)
    }
}

impl BukrsType for i64 {
    open spec fn wire(m: i64) -> Seq<u8> {
        u64_be(m as u64)
    }

    open spec fn fits(m: i64) -> bool {
        true
    }

    open spec fn native_ty() -> BukrsNativeType {
        BukrsNativeType::I64
    }

    proof fn lemma_wire_unambiguous(m1: i64, m2: i64, r1: Seq<u8>, r2: Seq<u8>) {
        lemma_concat_parts(u64_be(m1 as u64), r1, u64_be(m2 as u64), r2);
        lemma_u64_be_injective(m1 as u64, m2 as u64);
        assert(m1 as u64 == m2 as u64 ==> m1 == m2) by (bit_vector);
    }

    fn ty(&self) -> BukrsNativeType {
        BukrsNativeType::I64
    }

    fn encode(&self, bytes: &mut BytesMut) -> Result<(), BukrsError> {
        put_u64(bytes, *self as u64);
        Ok(())
    }

    fn decode(bytes: &mut BytesMut) -> (r: Result<Self, BukrsError>) {
        let ghost orig = contents(*bytes);
        if buf_len(bytes) < 8 {
            proof {
                assert forall|m: i64, rest: Seq<u8>| orig != #[trigger] (Self::wire(m) + rest) by {}
            }
            return Err(BukrsError::TruncatedInput);
        }
        let b = get_u64(bytes);
        let v = b as i64;
        proof {
            assert((b as i64) as u64 == b) by (bit_vector);
            assert(orig =~= orig.take(8) + orig.skip(8));
            assert forall|m: i64, rest: Seq<u8>|
                Self::fits(m) && orig == #[trigger] (Self::wire(m) + rest) implies m == v && rest
                == contents(*bytes) by {
                lemma_concat_parts(u64_be(m as u64), rest, u64_be(v as u64), contents(*bytes));
                lemma_u64_be_injective(m as u64, v as u64);
                assert(m as u64 == v as u64 ==> m == v) by (bit_vector);
            }
        }
        Ok(v)
    }
}

/// Relies on String::from_utf8: it succeeds exactly on valid UTF-8 input and
/// returns the string those bytes spell.
#[verifier::external_body]
fn vec_to_string(v: Vec<u8>) -> (r: Option<String>)
    ensures
        r matches Some(s) ==> valid_utf8(v@) && s@ == decode_utf8(v@),
        r is None ==> !valid_utf8(v@),
{
    String::from_utf8(v).ok()
}

impl BukrsType for String {
    open spec fn wire(m: Seq<char>) -> Seq<u8> {
        u32_be(encode_utf8(m).len() as u32) + encode_utf8(m)
    }

    open spec fn fits(m: Seq<char>) -> bool {
        encode_utf8(m).len() <= u32::MAX
    }

    open spec fn native_ty() -> BukrsNativeType {
        BukrsNativeType::STRING
    }

    proof fn lemma_wire_unambiguous(m1: Seq<char>, m2: Seq<char>, r1: Seq<u8>, r2: Seq<u8>) {
        let b1 = encode_utf8(m1);
        let b2 = encode_utf8(m2);
        assert((u32_be(b1.len() as u32) + b1) + r1 =~= u32_be(b1.len() as u32) + (b1 + r1));
        assert((u32_be(b2.len() as u32) + b2) + r2 =~= u32_be(b2.len() as u32) + (b2 + r2));
        lemma_concat_parts(u32_be(b1.len() as u32), b1 + r1, u32_be(b2.len() as u32), b2 + r2);
        lemma_u32_be_injective(b1.len() as u32, b2.len() as u32);
        lemma_concat_parts(b1, r1, b2, r2);
        encode_utf8_decode_utf8(m1);
        encode_utf8_decode_utf8(m2);
    }

    fn ty(&self) -> BukrsNativeType {
        BukrsNativeType::STRING
    }

    fn encode(&self, bytes: &mut BytesMut) -> Result<(), BukrsError> {
        let str_bytes = self.as_str().as_bytes_vec();
        if str_bytes.len() > u32::MAX as usize {
            return Err(BukrsError::InvalidEncoding);
        }
        put_u32(bytes, str_bytes.len() as u32);
        put_slice(bytes, str_bytes.as_slice());
        proof {
            assert(contents(*bytes) =~= contents(*old(bytes)) + Self::wire(self.deep_view()));
        }
        Ok(())
    }

    fn decode(bytes: &mut BytesMut) -> (r: Result<Self, BukrsError>) {
        let ghost orig = contents(*bytes);
        if buf_len(bytes) < 4 {
            proof {
                assert forall|m: Seq<char>, rest: Seq<u8>|
                    orig != #[trigger] (Self::wire(m) + rest) by {}
            }
            return Err(BukrsError::TruncatedInput);
        }
        let n = get_u32(bytes);
        if (buf_len(bytes) as u64) < (n as u64) {
            proof {
                assert forall|m: Seq<char>, rest: Seq<u8>|
                    !(Self::fits(m) && orig == #[trigger] (Self::wire(m) + rest)) by {
                    if Self::fits(m) && orig == Self::wire(m) + rest {
                        let b = encode_utf8(m);
                        assert(Self::wire(m) + rest =~= u32_be(b.len() as u32) + (b + rest));
                        assert(orig =~= orig.take(4) + orig.skip(4));
                        lemma_concat_parts(orig.take(4), orig.skip(4), u32_be(b.len() as u32), b + rest);
                        lemma_u32_be_injective(n, b.len() as u32);
                    }
                }
            }
            return Err(BukrsError::TruncatedInput);
        }
        let mut str_bytes: Vec<u8> = Vec::new();
        let mut i: u32 = 0;
        let ghost start = contents(*bytes);
        while i < n
            invariant
                0 <= i <= n,
                orig == contents(*old(bytes)),
                start.len() >= n,
                str_bytes@.len() == i,
                str_bytes@ == start.take(i as int),
                contents(*bytes) == start.skip(i as int),
            decreases n - i,
        {
            let b = get_u8(bytes);
            str_bytes.push(b);
            i = i + 1;
            proof {
                assert(str_bytes@ =~= start.take(i as int));
                assert(contents(*bytes) =~= start.skip(i as int));
            }
        }
        match vec_to_string(str_bytes) {
            Some(s) => {
                proof {
                    decode_utf8_encode_utf8(start.take(n as int));
                    assert(encode_utf8(s@) == start.take(n as int));
                    assert(orig =~= Self::wire(s@) + contents(*bytes)) by {
                        assert(u32_be(n) == orig.take(4));
                        assert(start == orig.skip(4));
                        assert(Self::wire(s@) == u32_be(n) + start.take(n as int));
                        assert(orig =~= (orig.take(4) + start.take(n as int)) + start.skip(
                            n as int,
                        ));
                    }
                    assert forall|m: Seq<char>, rest: Seq<u8>|
                        Self::fits(m) && orig == #[trigger] (Self::wire(m) + rest) implies m == s@
                        && rest == contents(*bytes) by {
                        let b = encode_utf8(m);
                        assert(Self::wire(m) + rest =~= u32_be(b.len() as u32) + (b + rest));
                        assert(Self::wire(s@) + contents(*bytes) =~= u32_be(
                            encode_utf8(s@).len() as u32,
                        ) + (encode_utf8(s@) + contents(*bytes)));
                        lemma_concat_parts(
                            u32_be(b.len() as u32),
                            b + rest,
                            u32_be(encode_utf8(s@).len() as u32),
                            encode_utf8(s@) + contents(*bytes),
                        );
                        lemma_u32_be_injective(b.len() as u32, encode_utf8(s@).len() as u32);
                        lemma_concat_parts(b, rest, encode_utf8(s@), contents(*bytes));
                        encode_utf8_decode_utf8(m);
                        encode_utf8_decode_utf8(s@);
                    }
                }
                Ok(s)
            },
            None => {
                proof {
                    assert forall|m: Seq<char>, rest: Seq<u8>|
                        !(Self::fits(m) && orig == #[trigger] (Self::wire(m) + rest)) by {
                        if Self::fits(m) && orig == Self::wire(m) + rest {
                            let b = encode_utf8(m);
                            assert(Self::wire(m) + rest =~= u32_be(b.len() as u32) + (b + rest));
                            assert(orig =~= orig.take(4) + orig.skip(4));
                            lemma_concat_parts(
                                orig.take(4),
                                orig.skip(4),
                                u32_be(b.len() as u32),
                                b + rest,
                            );
                            lemma_u32_be_injective(n, b.len() as u32);
                            assert(b =~= start.take(n as int));
                            encode_utf8_valid_utf8(m);
                        }
                    }
                }
                Err(BukrsError::InvalidEncoding)
            },
        }
    }
}

/// The concatenation of the wire forms of a sequence of element views.
pub open spec fn wire_concat<T: BukrsType>(m: Seq<<T as DeepView>::V>) -> Seq<u8>
    decreases m.len(),
{
    if m.len() == 0 {
        Seq::empty()
    } else {
        T::wire(m[0]) + wire_concat::<T>(m.skip(1))
    }
}

/// Every element of `m` can be encoded.
pub open spec fn all_fit<T: BukrsType>(m: Seq<<T as DeepView>::V>) -> bool {
    forall|i: int| 0 <= i < m.len() ==> T::fits(#[trigger] m[i])
}

/// Appending one element appends its wire form.
pub proof fn lemma_wire_concat_snoc<T: BukrsType>(m: Seq<<T as DeepView>::V>, x: <T as DeepView>::V)
    ensures
        wire_concat::<T>(m.push(x)) == wire_concat::<T>(m) + T::wire(x),
    decreases m.len(),
{
    if m.len() == 0 {
        assert(m.push(x).skip(1) =~= m);
        assert(wire_concat::<T>(m.push(x)) =~= wire_concat::<T>(m) + T::wire(x));
    } else {
        assert(m.push(x).skip(1) =~= m.skip(1).push(x));
        lemma_wire_concat_snoc::<T>(m.skip(1), x);
        assert(wire_concat::<T>(m.push(x)) =~= wire_concat::<T>(m) + T::wire(x));
    }
}

/// A decoded prefix of elements is pinned against any candidate sequence
/// whose concatenated wire form explains the same bytes.
pub proof fn lemma_wire_concat_pin<T: BukrsType>(
    p: Seq<<T as DeepView>::V>,
    q: Seq<<T as DeepView>::V>,
    bp: Seq<u8>,
    bq: Seq<u8>,
)
    requires
        all_fit::<T>(p),
        all_fit::<T>(q),
        p.len() <= q.len(),
        wire_concat::<T>(p) + bp == wire_concat::<T>(q) + bq,
    ensures
        p == q.take(p.len() as int),
        bp == wire_concat::<T>(q.skip(p.len() as int)) + bq,
    decreases p.len(),
{
    if p.len() == 0 {
        assert(p =~= q.take(0));
        assert(bp =~= wire_concat::<T>(q.skip(0)) + bq) by {
            assert(q.skip(0) =~= q);
        }
    } else {
        assert(T::fits(p[0]));
        assert(T::fits(q[0]));
        assert((T::wire(p[0]) + wire_concat::<T>(p.skip(1))) + bp =~= T::wire(p[0]) + (
        wire_concat::<T>(p.skip(1)) + bp));
        assert((T::wire(q[0]) + wire_concat::<T>(q.skip(1))) + bq =~= T::wire(q[0]) + (
        wire_concat::<T>(q.skip(1)) + bq));
        T::lemma_wire_unambiguous(
            p[0],
            q[0],
            wire_concat::<T>(p.skip(1)) + bp,
            wire_concat::<T>(q.skip(1)) + bq,
        );
        assert(all_fit::<T>(p.skip(1))) by {
            assert forall|i: int| 0 <= i < p.skip(1).len() implies T::fits(
                #[trigger] p.skip(1)[i],
            ) by {
                assert(p.skip(1)[i] == p[i + 1]);
            }
        }
        assert(all_fit::<T>(q.skip(1))) by {
            assert forall|i: int| 0 <= i < q.skip(1).len() implies T::fits(
                #[trigger] q.skip(1)[i],
            ) by {
                assert(q.skip(1)[i] == q[i + 1]);
            }
        }
        lemma_wire_concat_pin::<T>(
            p.skip(1),
            q.skip(1),
            bp,
            bq,
        );
        assert(p =~= q.take(p.len() as int)) by {
            assert(p.skip(1) == q.skip(1).take(p.len() - 1));
            assert forall|i: int| 0 <= i < p.len() implies p[i] == q.take(p.len() as int)[i] by {
                if i > 0 {
                    assert(p.skip(1)[i - 1] == q.skip(1).take(p.len() - 1)[i - 1]);
                }
            }
        }
        assert(q.skip(1).skip(p.len() - 1) =~= q.skip(p.len() as int));
    }
}

impl<T: BukrsType> BukrsType for Vec<T> {
    open spec fn wire(m: Seq<<T as DeepView>::V>) -> Seq<u8> {
        u32_be(m.len() as u32) + wire_concat::<T>(m)
    }

    open spec fn fits(m: Seq<<T as DeepView>::V>) -> bool {
        m.len() <= u32::MAX && all_fit::<T>(m)
    }

    open spec fn native_ty() -> BukrsNativeType {
        BukrsNativeType::VECTOR
    }

    proof fn lemma_wire_unambiguous(
        m1: Seq<<T as DeepView>::V>,
        m2: Seq<<T as DeepView>::V>,
        r1: Seq<u8>,
        r2: Seq<u8>,
    ) {
        let c1 = wire_concat::<T>(m1);
        let c2 = wire_concat::<T>(m2);
        assert((u32_be(m1.len() as u32) + c1) + r1 =~= u32_be(m1.len() as u32) + (c1 + r1));
        assert((u32_be(m2.len() as u32) + c2) + r2 =~= u32_be(m2.len() as u32) + (c2 + r2));
        lemma_concat_parts(u32_be(m1.len() as u32), c1 + r1, u32_be(m2.len() as u32), c2 + r2);
        lemma_u32_be_injective(m1.len() as u32, m2.len() as u32);
        if m1.len() <= m2.len() {
            lemma_wire_concat_pin::<T>(m1, m2, r1, r2);
            assert(m1 =~= m2) by {
                assert(m2.take(m1.len() as int) =~= m2);
            }
            assert(m2.skip(m1.len() as int).len() == 0);
        } else {
            lemma_wire_concat_pin::<T>(m2, m1, r2, r1);
            assert(m2 =~= m1) by {
                assert(m1.take(m2.len() as int) =~= m1);
            }
            assert(m1.skip(m2.len() as int).len() == 0);
        }
    }

    fn ty(&self) -> BukrsNativeType {
        BukrsNativeType::VECTOR
    }

    fn encode(&self, bytes: &mut BytesMut) -> (r: Result<(), BukrsError>) {
        if self.len() > u32::MAX as usize {
            return Err(BukrsError::InvalidEncoding);
        }
        put_u32(bytes, self.len() as u32);
        let ghost header_done = contents(*bytes);
        let mut idx: usize = 0;
        while idx < self.len()
            invariant
                0 <= idx <= self.len(),
                self.deep_view().len() == self@.len(),
                header_done == contents(*old(bytes)) + u32_be(self@.len() as u32),
                all_fit::<T>(self.deep_view().take(idx as int)),
                contents(*bytes) == header_done + wire_concat::<T>(
                    self.deep_view().take(idx as int),
                ),
            decreases self.len() - idx,
        {
            let ghost before = self.deep_view().take(idx as int);
            match self[idx].encode(bytes) {
                Ok(()) => {},
                Err(e) => {
                    proof {
                        assert(self.deep_view()[idx as int] == self[idx as int].deep_view());
                        assert(!Self::fits(self.deep_view()));
                    }
                    return Err(e);
                },
            }
            idx = idx + 1;
            proof {
                assert(self.deep_view()[idx - 1] == self[idx - 1].deep_view());
                assert(self.deep_view().take(idx as int) =~= before.push(
                    self.deep_view()[idx - 1],
                ));
                lemma_wire_concat_snoc::<T>(before, self.deep_view()[idx - 1]);
                assert(all_fit::<T>(self.deep_view().take(idx as int)));
            }
        }
        proof {
            assert(self.deep_view().take(self@.len() as int) =~= self.deep_view());
            assert(contents(*bytes) =~= contents(*old(bytes)) + Self::wire(self.deep_view()));
            assert(Self::fits(self.deep_view()));
        }
        Ok(())
    }

    fn decode(bytes: &mut BytesMut) -> (r: Result<Self, BukrsError>) {
        let ghost orig = contents(*bytes);
        if buf_len(bytes) < 4 {
            proof {
                assert forall|m: Seq<<T as DeepView>::V>, rest: Seq<u8>|
                    orig != #[trigger] (Self::wire(m) + rest) by {}
            }
            return Err(BukrsError::TruncatedInput);
        }
        let n = get_u32(bytes);
        let ghost start = contents(*bytes);
        proof {
            assert forall|m: Seq<<T as DeepView>::V>, rest: Seq<u8>|
                Self::fits(m) && orig == #[trigger] (Self::wire(m) + rest) implies m.len() == n
                && start == wire_concat::<T>(m) + rest by {
                let c = wire_concat::<T>(m);
                assert(Self::wire(m) + rest =~= u32_be(m.len() as u32) + (c + rest));
                assert(orig =~= orig.take(4) + orig.skip(4));
                lemma_concat_parts(orig.take(4), orig.skip(4), u32_be(m.len() as u32), c + rest);
                lemma_u32_be_injective(n, m.len() as u32);
            }
        }
        let mut out: Vec<T> = Vec::new();
        let mut i: u32 = 0;
        while i < n
            invariant
                0 <= i <= n,
                orig == contents(*old(bytes)),
                out.deep_view().len() == i,
                all_fit::<T>(out.deep_view()),
                start == wire_concat::<T>(out.deep_view()) + contents(*bytes),
                forall|m: Seq<<T as DeepView>::V>, rest: Seq<u8>|
                    Self::fits(m) && orig == #[trigger] (Self::wire(m) + rest) ==> m.len() == n
                        && start == wire_concat::<T>(m) + rest,
            decreases n - i,
        {
            let ghost prefix = out.deep_view();
            let ghost buf_before = contents(*bytes);
            let item = match T::decode(bytes) {
                Ok(item) => item,
                Err(e) => {
                    proof {
                        assert forall|m: Seq<<T as DeepView>::V>, rest: Seq<u8>|
                            !(Self::fits(m) && orig == #[trigger] (Self::wire(m) + rest)) by {
                            if Self::fits(m) && orig == Self::wire(m) + rest {
                                assert(prefix.len() == i as int);
                                lemma_wire_concat_pin::<T>(prefix, m, buf_before, rest);
                                assert(m.skip(i as int).len() > 0);
                                assert(m.skip(i as int)[0] == m[i as int]);
                                assert(T::fits(m[i as int]));
                                assert(wire_concat::<T>(m.skip(i as int)) == T::wire(
                                    m.skip(i as int)[0],
                                ) + wire_concat::<T>(m.skip(i as int).skip(1)));
                                assert(T::fits(m.skip(i as int)[0]));
                                assert(buf_before == T::wire(m.skip(i as int)[0]) + (wire_concat::<
                                    T,
                                >(m.skip(i as int).skip(1)) + rest)) by {
                                    assert((T::wire(m.skip(i as int)[0]) + wire_concat::<T>(
                                        m.skip(i as int).skip(1),
                                    )) + rest =~= T::wire(m.skip(i as int)[0]) + (wire_concat::<T>(
                                        m.skip(i as int).skip(1),
                                    ) + rest));
                                }
                            }
                        }
                    }
                    return Err(e);
                },
            };
            out.push(item);
            i = i + 1;
            proof {
                assert(out.deep_view() =~= prefix.push(item.deep_view()));
                lemma_wire_concat_snoc::<T>(prefix, item.deep_view());
                assert(start =~= wire_concat::<T>(out.deep_view()) + contents(*bytes)) by {
                    assert((wire_concat::<T>(prefix) + T::wire(item.deep_view())) + contents(
                        *bytes,
                    ) =~= wire_concat::<T>(prefix) + (T::wire(item.deep_view()) + contents(
                        *bytes,
                    )));
                }
                assert(all_fit::<T>(out.deep_view()));
            }
        }
        proof {
            assert(Self::fits(out.deep_view()));
            assert(orig =~= Self::wire(out.deep_view()) + contents(*bytes)) by {
                assert(u32_be(n) == orig.take(4));
                assert(start == orig.skip(4));
                assert(orig =~= orig.take(4) + orig.skip(4));
                assert((u32_be(n) + wire_concat::<T>(out.deep_view())) + contents(*bytes)
                    =~= u32_be(n) + (wire_concat::<T>(out.deep_view()) + contents(*bytes)));
            }
            assert forall|m: Seq<<T as DeepView>::V>, rest: Seq<u8>|
                Self::fits(m) && orig == #[trigger] (Self::wire(m) + rest) implies m
                == out.deep_view() && rest == contents(*bytes) by {
                lemma_wire_concat_pin::<T>(out.deep_view(), m, contents(*bytes), rest);
                assert(m.take(n as int) =~= m);
                assert(m.skip(n as int).len() == 0);
                assert(wire_concat::<T>(m.skip(n as int)) =~= Seq::<u8>::empty());
                assert(out.deep_view() =~= m);
                assert(contents(*bytes) =~= rest);
            }
        }
        Ok(out)
    }
}

/// Two values in sequence: the composite building block.  A composite struct
/// encodes as the concatenation of its fields in declared order, which is
/// exactly the wire form of the nested pairs of its fields.
impl<A: BukrsType, B: BukrsType> BukrsType for (A, B) {
    open spec fn wire(m: (<A as DeepView>::V, <B as DeepView>::V)) -> Seq<u8> {
        A::wire(m.0) + B::wire(m.1)
    }

    open spec fn fits(m: (<A as DeepView>::V, <B as DeepView>::V)) -> bool {
        A::fits(m.0) && B::fits(m.1)
    }

    open spec fn native_ty() -> BukrsNativeType {
        BukrsNativeType::CUSTOM
    }

    proof fn lemma_wire_unambiguous(
        m1: (<A as DeepView>::V, <B as DeepView>::V),
        m2: (<A as DeepView>::V, <B as DeepView>::V),
        r1: Seq<u8>,
        r2: Seq<u8>,
    ) {
        assert((A::wire(m1.0) + B::wire(m1.1)) + r1 =~= A::wire(m1.0) + (B::wire(m1.1) + r1));
        assert((A::wire(m2.0) + B::wire(m2.1)) + r2 =~= A::wire(m2.0) + (B::wire(m2.1) + r2));
        A::lemma_wire_unambiguous(m1.0, m2.0, B::wire(m1.1) + r1, B::wire(m2.1) + r2);
        B::lemma_wire_unambiguous(m1.1, m2.1, r1, r2);
    }

    fn ty(&self) -> BukrsNativeType {
        BukrsNativeType::CUSTOM
    }

    fn encode(&self, bytes: &mut BytesMut) -> (r: Result<(), BukrsError>) {
        match self.0.encode(bytes) {
            Ok(()) => {},
            Err(e) => {
                return Err(e);
            },
        }
        match self.1.encode(bytes) {
            Ok(()) => {},
            Err(e) => {
                return Err(e);
            },
        }
        proof {
            assert(contents(*bytes) =~= contents(*old(bytes)) + Self::wire(self.deep_view()));
        }
        Ok(())
    }

    fn decode(bytes: &mut BytesMut) -> (r: Result<Self, BukrsError>) {
        let ghost orig = contents(*bytes);
        let a = match A::decode(bytes) {
            Ok(a) => a,
            Err(e) => {
                proof {
                    assert forall|m: (<A as DeepView>::V, <B as DeepView>::V), rest: Seq<u8>|
                        !(Self::fits(m) && orig == #[trigger] (Self::wire(m) + rest)) by {
                        if Self::fits(m) && orig == Self::wire(m) + rest {
                            assert(orig == A::wire(m.0) + (B::wire(m.1) + rest)) by {
                                assert((A::wire(m.0) + B::wire(m.1)) + rest =~= A::wire(m.0) + (
                                B::wire(m.1) + rest));
                            }
                        }
                    }
                }
                return Err(e);
            },
        };
        let ghost mid = contents(*bytes);
        let b = match B::decode(bytes) {
            Ok(b) => b,
            Err(e) => {
                proof {
                    assert forall|m: (<A as DeepView>::V, <B as DeepView>::V), rest: Seq<u8>|
                        !(Self::fits(m) && orig == #[trigger] (Self::wire(m) + rest)) by {
                        if Self::fits(m) && orig == Self::wire(m) + rest {
                            assert(orig == A::wire(m.0) + (B::wire(m.1) + rest)) by {
                                assert((A::wire(m.0) + B::wire(m.1)) + rest =~= A::wire(m.0) + (
                                B::wire(m.1) + rest));
                            }
                            assert(mid == B::wire(m.1) + rest);
                        }
                    }
                }
                return Err(e);
            },
        };
        proof {
            assert(self_pair_view(&a, &b) == (a.deep_view(), b.deep_view()));
            assert(orig =~= Self::wire((a.deep_view(), b.deep_view())) + contents(*bytes)) by {
                assert((A::wire(a.deep_view()) + B::wire(b.deep_view())) + contents(*bytes)
                    =~= A::wire(a.deep_view()) + (B::wire(b.deep_view()) + contents(*bytes)));
            }
            assert forall|m: (<A as DeepView>::V, <B as DeepView>::V), rest: Seq<u8>|
                Self::fits(m) && orig == #[trigger] (Self::wire(m) + rest) implies m == (
            a.deep_view(), b.deep_view()) && rest == contents(*bytes) by {
                assert(orig == A::wire(m.0) + (B::wire(m.1) + rest)) by {
                    assert((A::wire(m.0) + B::wire(m.1)) + rest =~= A::wire(m.0) + (B::wire(m.1)
                        + rest));
                }
                assert(m.0 == a.deep_view() && B::wire(m.1) + rest == mid);
                assert(m.1 == b.deep_view() && rest == contents(*bytes));
            }
        }
        Ok((a, b))
    }
}

/// The deep view of a pair built from `a` and `b`.
pub open spec fn self_pair_view<A: DeepView, B: DeepView>(a: &A, b: &B) -> (
    <A as DeepView>::V,
    <B as DeepView>::V,
) {
    (a.deep_view(), b.deep_view())
}

} // verus!
