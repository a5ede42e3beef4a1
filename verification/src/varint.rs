//! Variable-length encoding of 32-bit integers, used for the frame length
//! prefix: seven data bits per byte, least-significant group first, and the
//! high bit of a byte set exactly when more bytes follow.  No value needs
//! more than five bytes.

use vstd::prelude::*;
use crate::bytebuf::BytesMut;
use crate::bytebuf::{contents, get_u8, put_u8, buf_len};
use crate::errors::BukrsError;

verus! {

pub const SEGMENT_BITS: u32 = 0x7F;

pub const CONTINUE_BIT: u32 = 0x80;

/// The varint encoding of `v`.
pub open spec fn varint_wire(v: u32) -> Seq<u8>
    decreases v,
    via varint_wire_decreases
{
    if v < 0x80 {
        seq![v as u8]
    } else {
        seq![((v & 0x7F) | 0x80) as u8] + varint_wire(v >> 7)
    }
}

#[via_fn]
proof fn varint_wire_decreases(v: u32) {
    assert(v >= 0x80 ==> (v >> 7) < v) by (bit_vector);
}

/// Every byte of `s` before position `k` has its continuation bit set.
pub open spec fn all_continue(s: Seq<u8>, k: int) -> bool {
    forall|i: int| 0 <= i < k ==> s[i] >= 0x80
}

/// No varint runs past five bytes.
pub proof fn lemma_varint_wire_len(v: u32)
    ensures
        1 <= varint_wire(v).len() <= 5,
{
    let v1 = v >> 7;
    let v2 = v1 >> 7;
    let v3 = v2 >> 7;
    let v4 = v3 >> 7;
    assert(v4 < 0x80) by (bit_vector)
        requires
            v1 == v >> 7 && v2 == v1 >> 7 && v3 == v2 >> 7 && v4 == v3 >> 7,
    ;
    if v < 0x80 {
        assert(varint_wire(v).len() == 1);
    } else if v1 < 0x80 {
        assert(varint_wire(v1).len() == 1);
        assert(varint_wire(v).len() == 2);
    } else if v2 < 0x80 {
        assert(varint_wire(v2).len() == 1);
        assert(varint_wire(v1).len() == 2);
        assert(varint_wire(v).len() == 3);
    } else if v3 < 0x80 {
        assert(varint_wire(v3).len() == 1);
        assert(varint_wire(v2).len() == 2);
        assert(varint_wire(v1).len() == 3);
        assert(varint_wire(v).len() == 4);
    } else {
        assert(varint_wire(v4).len() == 1);
        assert(varint_wire(v3).len() == 2);
        assert(varint_wire(v2).len() == 3);
        assert(varint_wire(v1).len() == 4);
        assert(varint_wire(v).len() == 5);
    }
}

fn write_varint_u32(v: u32, buffer: &mut BytesMut)
    ensures
        contents(*final(buffer)) == contents(*old(buffer)) + varint_wire(v),
    decreases v,
{
    if v < CONTINUE_BIT {
        put_u8(buffer, v as u8);
        proof {
            assert(contents(*buffer) =~= contents(*old(buffer)) + varint_wire(v));
        }
    } else {
        put_u8(buffer, ((v & SEGMENT_BITS) | CONTINUE_BIT) as u8);
        proof {
            assert((v >> 7) < v) by (bit_vector)
                requires
                    v >= 0x80,
            ;
        }
        write_varint_u32(v >> 7, buffer);
        proof {
            assert(contents(*buffer) =~= contents(*old(buffer)) + varint_wire(v));
        }
    }
}

/// Writes the varint encoding of `value`, reinterpreted as unsigned, to the
/// end of `buffer`.
pub fn write_varint(value: i32, buffer: &mut BytesMut)
    ensures
        contents(*final(buffer)) == contents(*old(buffer)) + varint_wire(value as u32),
{
    write_varint_u32(value as u32, buffer);
}

/// Reads one varint of at most `groups` bytes from the front of `src`,
/// consuming what it reads.  The contract pins the value on every canonically
/// encoded input and classifies both failures exactly.
fn read_varint_groups(src: &mut BytesMut, groups: u8) -> (r: Result<u32, BukrsError>)
    requires
        1 <= groups <= 5,
    ensures
        r matches Ok(v) ==> exists|k: int|
            1 <= k <= groups && k <= contents(*old(src)).len() && contents(*final(src))
                == contents(*old(src)).skip(k),
        forall|v: u32, rest: Seq<u8>|
            contents(*old(src)) == varint_wire(v) + rest && varint_wire(v).len() <= groups
                ==> r == Ok::<u32, BukrsError>(v) && contents(*final(src)) == rest,
        r == Err::<u32, BukrsError>(BukrsError::TruncatedInput) <==> (contents(*old(src)).len()
            < groups && all_continue(contents(*old(src)), contents(*old(src)).len() as int)),
        r == Err::<u32, BukrsError>(BukrsError::VarintOverflow) <==> (contents(*old(src)).len()
            >= groups && all_continue(contents(*old(src)), groups as int)),
        r is Err ==> r == Err::<u32, BukrsError>(BukrsError::TruncatedInput) || r == Err::<
            u32,
            BukrsError,
        >(BukrsError::VarintOverflow),
    decreases groups,
{
    let ghost orig = contents(*src);
    if buf_len(src) == 0 {
        proof {
            assert forall|v: u32, rest: Seq<u8>| orig != varint_wire(v) + rest by {
                lemma_varint_wire_len(v);
            }
        }
        return Err(BukrsError::TruncatedInput);
    }
    let b = get_u8(src);
    if b < 0x80 {
        proof {
            assert(!all_continue(orig, orig.len() as int));
            assert(!all_continue(orig, groups as int));
            assert forall|v: u32, rest: Seq<u8>|
                orig == varint_wire(v) + rest && varint_wire(v).len() <= groups implies (
            b as u32) == v && contents(*src) == rest by {
                if v < 0x80 {
                    assert(orig[0] == v as u8);
                    assert(contents(*src) =~= rest);
                } else {
                    assert(orig[0] == ((v & 0x7F) | 0x80) as u8);
                    assert(((v & 0x7F) | 0x80) as u8 >= 0x80) by (bit_vector);
                }
            }
        }
        return Ok(b as u32);
    }
    if groups == 1 {
        proof {
            assert(all_continue(orig, 1));
            assert forall|v: u32, rest: Seq<u8>|
                orig == varint_wire(v) + rest implies varint_wire(v).len() > 1 by {
                if v < 0x80 {
                    assert(orig[0] == v as u8);
                } else {
                    lemma_varint_wire_len(v >> 7);
                }
            }
        }
        return Err(BukrsError::VarintOverflow);
    }
    let ghost after_first = contents(*src);
    proof {
        assert(after_first =~= orig.skip(1));
    }
    let hi = match read_varint_groups(src, groups - 1) {
        Ok(hi) => hi,
        Err(e) => {
            proof {
                // the continuation byte in front extends both failure windows
                if e == BukrsError::TruncatedInput {
                    assert(all_continue(after_first, after_first.len() as int));
                    assert forall|i: int| 0 <= i < orig.len() implies orig[i] >= 0x80 by {
                        if i > 0 {
                            assert(after_first[i - 1] >= 0x80);
                        }
                    }
                } else {
                    assert(all_continue(after_first, groups - 1));
                    assert forall|i: int| 0 <= i < groups as int implies orig[i] >= 0x80 by {
                        if i > 0 {
                            assert(after_first[i - 1] >= 0x80);
                        }
                    }
                }
                // no candidate decodes from a buffer the recursion refused
                assert forall|v: u32, rest: Seq<u8>|
                    !(orig == varint_wire(v) + rest && varint_wire(v).len() <= groups) by {
                    if orig == varint_wire(v) + rest && varint_wire(v).len() <= groups {
                        if v < 0x80 {
                            assert(orig[0] == v as u8);
                        } else {
                            assert(after_first =~= varint_wire(v >> 7) + rest);
                        }
                    }
                }
            }
            return Err(e);
        },
    };
    let low: u32 = (b as u32) & 0x7F;
    let value: u32 = low | (hi << 7);
    proof {
        let k_inner = choose|k: int|
            1 <= k <= groups - 1 && k <= after_first.len() && contents(*src) == after_first.skip(
                k,
            );
        assert(contents(*src) =~= orig.skip(k_inner + 1));
        assert(1 <= k_inner + 1 <= groups && k_inner + 1 <= orig.len() && contents(*src)
            == orig.skip(k_inner + 1));
        assert forall|v: u32, rest: Seq<u8>|
            orig == varint_wire(v) + rest && varint_wire(v).len() <= groups implies value == v
            && contents(*src) == rest by {
            if v < 0x80 {
                assert(orig[0] == v as u8);
            } else {
                assert(varint_wire(v) == seq![((v & 0x7F) | 0x80) as u8] + varint_wire(v >> 7));
                assert(orig[0] == ((v & 0x7F) | 0x80) as u8);
                assert(after_first =~= varint_wire(v >> 7) + rest);
                assert(varint_wire(v >> 7).len() <= groups - 1);
                assert(hi == v >> 7 && contents(*src) == rest);
                assert((((((v & 0x7F) | 0x80) as u8) as u32) & 0x7F) | ((v >> 7) << 7)
                    == v) by (bit_vector);
            }
        }
        // succeeding rules out both failure windows
        assert(!(orig.len() >= groups && all_continue(orig, groups as int))) by {
            if orig.len() >= groups && all_continue(orig, groups as int) {
                assert forall|i: int| 0 <= i < groups - 1 implies after_first[i] >= 0x80 by {
                    assert(orig[i + 1] >= 0x80);
                }
            }
        }
        assert(!(orig.len() < groups && all_continue(orig, orig.len() as int))) by {
            if orig.len() < groups && all_continue(orig, orig.len() as int) {
                assert forall|i: int| 0 <= i < after_first.len() as int implies after_first[i]
                    >= 0x80 by {
                    assert(orig[i + 1] >= 0x80);
                }
            }
        }
    }
    Ok(value)
}

/// Reads one varint from the front of `src`, consuming what it reads.
///
/// On every canonically encoded input the value and the bytes left behind are
/// pinned exactly; `TruncatedInput` comes when the buffer ends while every
/// byte so far asks for more, and `VarintOverflow` when five bytes in a row
/// do, and in no other case.
pub fn read_varint(src: &mut BytesMut) -> (r: Result<i32, BukrsError>)
    ensures
        r matches Ok(v) ==> exists|k: int|
            1 <= k <= 5 && k <= contents(*old(src)).len() && contents(*final(src)) == contents(
                *old(src),
            ).skip(k),
        forall|v: u32, rest: Seq<u8>|
            contents(*old(src)) == varint_wire(v) + rest ==> r == Ok::<i32, BukrsError>(
                v as i32,
            ) && contents(*final(src)) == rest,
        r == Err::<i32, BukrsError>(BukrsError::TruncatedInput) <==> (contents(*old(src)).len() < 5
            && all_continue(contents(*old(src)), contents(*old(src)).len() as int)),
        r == Err::<i32, BukrsError>(BukrsError::VarintOverflow) <==> (contents(*old(src)).len()
            >= 5 && all_continue(contents(*old(src)), 5)),
        r is Err ==> r == Err::<i32, BukrsError>(BukrsError::TruncatedInput) || r == Err::<
            i32,
            BukrsError,
        >(BukrsError::VarintOverflow),
{
    let ghost orig = contents(*src);
    match read_varint_groups(src, 5) {
        Ok(v) => {
            proof {
                assert forall|w: u32, rest: Seq<u8>| orig == varint_wire(w) + rest implies v == w
                    && contents(*src) == rest by {
                    lemma_varint_wire_len(w);
                }
            }
            Ok(v as i32)
        },
        Err(e) => {
            proof {
                assert forall|w: u32, rest: Seq<u8>| orig != varint_wire(w) + rest by {
                    lemma_varint_wire_len(w);
                }
            }
            Err(e)
        },
    }
}

} // verus!
