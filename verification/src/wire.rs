//! The protobuf wire format of the signer's messages.
//!
//! Decoding follows the protobuf rules as the Rust protobuf runtime applies
//! them: fields may come in any order and repeat (the last value wins, and a
//! repeated nested message is merged into the earlier one), unknown fields
//! of every wire type are skipped (groups included, up to the recursion
//! limit), and any malformed key, varint or length refuses the whole
//! message. Encoding is canonical: fields in the order of their tags, and
//! fields holding their default value left out.

use vstd::prelude::*;
use vstd::bytes::{lemma_auto_spec_u64_to_from_le_bytes, spec_u64_from_le_bytes, spec_u64_to_le_bytes, u64_from_le_bytes, u64_to_le_bytes};
use vstd::slice::slice_subrange;

use crate::proto;
use crate::proto::Uint256;

verus! {

/// The recursion budget of a decoder at the outermost message.
pub const RECURSION_LIMIT: u32 = 100;

/// The wire type of varints.
pub const WIRE_VARINT: u8 = 0;

/// The wire type of 64-bit little-endian values.
pub const WIRE_FIXED64: u8 = 1;

/// The wire type of length-delimited values.
pub const WIRE_LEN: u8 = 2;

/// The wire type that opens a group.
pub const WIRE_START_GROUP: u8 = 3;

/// The wire type that closes a group.
pub const WIRE_END_GROUP: u8 = 4;

/// The wire type of 32-bit little-endian values.
pub const WIRE_FIXED32: u8 = 5;

/// Reads a varint at `pos`, having already read `count` of its bytes into
/// `acc`: its value and the position after it, or `None` when the buffer
/// ends first, the varint is longer than ten bytes, or its tenth byte
/// carries more than the last bit of a 64-bit value.
pub open spec fn spec_varint_from(buf: Seq<u8>, pos: int, count: u64, acc: u64) -> Option<(u64, int)>
    decreases 10 - count,
{
    if count >= 10 || pos + count >= buf.len() || pos < 0 {
        None
    } else {
        let b = buf[pos + count];
        let value = acc | (((b & 0x7fu8) as u64) << ((7 * count) as u64));
        if b < 0x80u8 {
            if count == 9 && b >= 2u8 {
                None
            } else {
                Some((value, pos + count + 1))
            }
        } else {
            spec_varint_from(buf, pos, (count + 1) as u64, value)
        }
    }
}

/// Reads a varint at `pos`.
pub open spec fn spec_varint(buf: Seq<u8>, pos: int) -> Option<(u64, int)> {
    spec_varint_from(buf, pos, 0, 0)
}

/// A varint read at `pos` ends after `pos` and within the buffer.
pub proof fn lemma_varint_from_advances(buf: Seq<u8>, pos: int, count: u64, acc: u64)
    ensures
        spec_varint_from(buf, pos, count, acc) matches Some((_, next)) ==> pos < next <= buf.len(),
    decreases 10 - count,
{
    if !(count >= 10 || pos + count >= buf.len() || pos < 0) {
        let b = buf[pos + count];
        let value = acc | (((b & 0x7fu8) as u64) << ((7 * count) as u64));
        if b >= 0x80u8 {
            lemma_varint_from_advances(buf, pos, (count + 1) as u64, value);
        }
    }
}

/// Reads a field key at `pos`: the field's tag, its wire type and the
/// position after the key. A key above `u32::MAX`, a wire type above 5 or a
/// tag of 0 is refused.
pub open spec fn spec_key(buf: Seq<u8>, pos: int) -> Option<(u32, u8, int)> {
    match spec_varint(buf, pos) {
        None => None,
        Some((key, next)) => if key > u32::MAX as u64 || key & 7 > 5 || key >> 3u64 == 0 {
            None
        } else {
            Some(((key >> 3u64) as u32, (key & 7) as u8, next))
        },
    }
}

/// A key read at `pos` ends after `pos` and within the buffer.
pub proof fn lemma_key_advances(buf: Seq<u8>, pos: int)
    ensures
        spec_key(buf, pos) matches Some((_, _, next)) ==> pos < next <= buf.len(),
{
    lemma_varint_from_advances(buf, pos, 0, 0);
}

/// Skips the value of a field of wire type `wire_type` and tag `tag` that
/// starts at `pos`, with `depth` levels of recursion left: the position
/// after it, or `None` when it is malformed, overruns the buffer, is a stray
/// end of group, or the recursion budget is spent.
pub open spec fn spec_skip_field(buf: Seq<u8>, pos: int, wire_type: u8, tag: u32, depth: u32) -> Option<int>
    decreases depth, buf.len() - pos, 1int,
{
    if depth == 0 || pos < 0 || pos > buf.len() {
        None
    } else if wire_type == WIRE_VARINT {
        match spec_varint(buf, pos) {
            Some((_, next)) => Some(next),
            None => None,
        }
    } else if wire_type == WIRE_FIXED64 {
        if pos + 8 <= buf.len() {
            Some(pos + 8)
        } else {
            None
        }
    } else if wire_type == WIRE_FIXED32 {
        if pos + 4 <= buf.len() {
            Some(pos + 4)
        } else {
            None
        }
    } else if wire_type == WIRE_LEN {
        match spec_varint(buf, pos) {
            Some((len, next)) => if len <= buf.len() - next {
                Some(next + len)
            } else {
                None
            },
            None => None,
        }
    } else if wire_type == WIRE_START_GROUP {
        spec_skip_group(buf, pos, tag, (depth - 1) as u32)
    } else {
        None
    }
}

/// Skips the fields of a group with tag `tag` that start at `pos`, each with
/// `depth` levels of recursion left, up to and including the group's end:
/// the position after the end, or `None` when a field is malformed or the
/// group ends with another tag.
pub open spec fn spec_skip_group(buf: Seq<u8>, pos: int, tag: u32, depth: u32) -> Option<int>
    decreases depth + 1, buf.len() - pos, 0int,
{
    if pos < 0 || pos > buf.len() {
        None
    } else {
        match spec_key(buf, pos) {
            None => None,
            Some((inner_tag, inner_wire_type, after_key)) => {
                if inner_wire_type == WIRE_END_GROUP {
                    if inner_tag == tag {
                        Some(after_key)
                    } else {
                        None
                    }
                } else {
                    proof {
                        lemma_key_advances(buf, pos);
                    }
                    match spec_skip_field(buf, after_key, inner_wire_type, inner_tag, depth) {
                        None => None,
                        Some(next) => if next <= pos || next > buf.len() {
                            None
                        } else {
                            spec_skip_group(buf, next, tag, depth)
                        },
                    }
                }
            },
        }
    }
}

/// Reads a varint at `pos`.
fn decode_varint(buf: &[u8], pos: usize) -> (r: Option<(u64, usize)>)
    ensures
        match r {
            Some((value, next)) => spec_varint(buf@, pos as int) == Some((value, next as int)) && pos < next
                <= buf.len(),
            None => spec_varint(buf@, pos as int) is None,
        },
{
    proof {
        lemma_varint_from_advances(buf@, pos as int, 0, 0);
    }
    let mut value: u64 = 0;
    let mut count: u64 = 0;
    while count < 10
        invariant
            count <= 10,
            spec_varint(buf@, pos as int) == spec_varint_from(buf@, pos as int, count, value),
        decreases 10 - count,
    {
        if pos >= buf.len() || count as usize >= buf.len() - pos {
            return None;
        }
        let b = buf[pos + count as usize];
        value = value | (((b & 0x7f) as u64) << (7 * count));
        if b < 0x80 {
            if count == 9 && b >= 2 {
                return None;
            }
            return Some((value, pos + count as usize + 1));
        }
        count = count + 1;
    }
    None
}

/// Reads a field key at `pos`.
fn decode_key(buf: &[u8], pos: usize) -> (r: Option<(u32, u8, usize)>)
    ensures
        match r {
            Some((tag, wire_type, next)) => spec_key(buf@, pos as int) == Some((tag, wire_type, next as int)),
            None => spec_key(buf@, pos as int) is None,
        },
{
    match decode_varint(buf, pos) {
        None => None,
        Some((key, next)) => {
            if key > 0xffff_ffffu64 || key & 7 > 5 || key >> 3u64 == 0 {
                None
            } else {
                Some(((key >> 3u64) as u32, (key & 7) as u8, next))
            }
        },
    }
}

/// Skips the value of a field that starts at `pos`.
fn skip_field(buf: &[u8], pos: usize, wire_type: u8, tag: u32, depth: u32) -> (r: Option<usize>)
    requires
        pos <= buf.len(),
    ensures
        match r {
            Some(next) => spec_skip_field(buf@, pos as int, wire_type, tag, depth) == Some(next as int) && pos
                <= next <= buf.len(),
            None => spec_skip_field(buf@, pos as int, wire_type, tag, depth) is None,
        },
    decreases depth, buf.len() - pos, 1int,
{
    proof {
        lemma_varint_from_advances(buf@, pos as int, 0, 0);
    }
    if depth == 0 {
        None
    } else if wire_type == 0 {
        match decode_varint(buf, pos) {
            Some((_, next)) => Some(next),
            None => None,
        }
    } else if wire_type == 1 {
        if 8 <= buf.len() - pos {
            Some(pos + 8)
        } else {
            None
        }
    } else if wire_type == 5 {
        if 4 <= buf.len() - pos {
            Some(pos + 4)
        } else {
            None
        }
    } else if wire_type == 2 {
        match decode_varint(buf, pos) {
            Some((len, next)) => {
                if len <= (buf.len() - next) as u64 {
                    Some(next + len as usize)
                } else {
                    None
                }
            },
            None => None,
        }
    } else if wire_type == 3 {
        skip_group(buf, pos, tag, depth - 1)
    } else {
        None
    }
}

/// Skips the fields of a group that start at `pos`, up to its end.
fn skip_group(buf: &[u8], pos: usize, tag: u32, depth: u32) -> (r: Option<usize>)
    requires
        pos <= buf.len(),
    ensures
        match r {
            Some(next) => spec_skip_group(buf@, pos as int, tag, depth) == Some(next as int) && pos <= next
                <= buf.len(),
            None => spec_skip_group(buf@, pos as int, tag, depth) is None,
        },
    decreases depth + 1, buf.len() - pos, 0int,
{
    proof {
        lemma_key_advances(buf@, pos as int);
    }
    match decode_key(buf, pos) {
        None => None,
        Some((inner_tag, inner_wire_type, after_key)) => {
            if inner_wire_type == 4 {
                if inner_tag == tag {
                    Some(after_key)
                } else {
                    None
                }
            } else {
                match skip_field(buf, after_key, inner_wire_type, inner_tag, depth) {
                    None => None,
                    Some(next) => skip_group(buf, next, tag, depth),
                }
            }
        },
    }
}

/// The number with all limbs zero, the default value of a `Uint256`.
pub open spec fn spec_uint256_zero() -> Uint256 {
    Uint256 { bits_part0: 0, bits_part1: 0, bits_part2: 0, bits_part3: 0 }
}

/// The number with the limb of field `tag` (1 to 4) replaced by `v`.
pub open spec fn spec_uint256_with(value: Uint256, tag: u32, v: u64) -> Uint256 {
    if tag == 1 {
        Uint256 { bits_part0: v, ..value }
    } else if tag == 2 {
        Uint256 { bits_part1: v, ..value }
    } else if tag == 3 {
        Uint256 { bits_part2: v, ..value }
    } else {
        Uint256 { bits_part3: v, ..value }
    }
}

/// Merges the fields of a `Uint256` message that start at `pos` and end at
/// `limit` into `value`: its four limbs are the `fixed64` fields 1 to 4, and
/// other fields are skipped with `depth` levels of recursion left. Gives the
/// merged number and `limit`, or `None` when a field is malformed or the
/// last field does not end exactly at `limit`.
pub open spec fn spec_merge_uint256(buf: Seq<u8>, pos: int, limit: int, value: Uint256, depth: u32) -> Option<(Uint256, int)>
    decreases buf.len() - pos,
{
    if pos < 0 || pos > buf.len() {
        None
    } else if pos >= limit {
        if pos == limit {
            Some((value, pos))
        } else {
            None
        }
    } else {
        match spec_key(buf, pos) {
            None => None,
            Some((tag, wire_type, after_key)) => {
                proof {
                    lemma_key_advances(buf, pos);
                }
                if 1 <= tag <= 4 {
                    if wire_type != WIRE_FIXED64 || after_key + 8 > buf.len() {
                        None
                    } else {
                        let v = spec_u64_from_le_bytes(buf.subrange(after_key, after_key + 8));
                        spec_merge_uint256(buf, after_key + 8, limit, spec_uint256_with(value, tag, v), depth)
                    }
                } else {
                    match spec_skip_field(buf, after_key, wire_type, tag, depth) {
                        None => None,
                        Some(next) => if next <= pos || next > buf.len() {
                            None
                        } else {
                            spec_merge_uint256(buf, next, limit, value, depth)
                        },
                    }
                }
            },
        }
    }
}

/// Merges the fields of a `PublicKey` message that start at `pos` and run to
/// the end of the buffer into `message`: field 1 is the x-coordinate, a
/// nested `Uint256` message merged into the one already read, and field 2
/// the parity, a varint that is true when not zero. Other fields are
/// skipped. `None` when a field is malformed.
pub open spec fn spec_merge_public_key(buf: Seq<u8>, pos: int, message: proto::PublicKey) -> Option<proto::PublicKey>
    decreases buf.len() - pos,
{
    if pos < 0 || pos > buf.len() {
        None
    } else if pos == buf.len() {
        Some(message)
    } else {
        match spec_key(buf, pos) {
            None => None,
            Some((tag, wire_type, after_key)) => {
                proof {
                    lemma_key_advances(buf, pos);
                }
                if tag == 1 {
                    if wire_type != WIRE_LEN {
                        None
                    } else {
                        match spec_varint(buf, after_key) {
                            None => None,
                            Some((len, start)) => if len > buf.len() - start {
                                None
                            } else {
                                let current = match message.x_only_public_key {
                                    Some(x) => x,
                                    None => spec_uint256_zero(),
                                };
                                match spec_merge_uint256(buf, start, start + len, current, (RECURSION_LIMIT - 1) as u32) {
                                    None => None,
                                    Some((x, next)) => if next <= pos || next > buf.len() {
                                        None
                                    } else {
                                        spec_merge_public_key(
                                            buf,
                                            next,
                                            proto::PublicKey { x_only_public_key: Some(x), ..message },
                                        )
                                    },
                                }
                            },
                        }
                    }
                } else if tag == 2 {
                    if wire_type != WIRE_VARINT {
                        None
                    } else {
                        proof {
                            lemma_varint_from_advances(buf, after_key, 0, 0);
                        }
                        match spec_varint(buf, after_key) {
                            None => None,
                            Some((v, next)) => spec_merge_public_key(
                                buf,
                                next,
                                proto::PublicKey { parity_is_odd: v != 0, ..message },
                            ),
                        }
                    }
                } else {
                    match spec_skip_field(buf, after_key, wire_type, tag, RECURSION_LIMIT) {
                        None => None,
                        Some(next) => if next <= pos || next > buf.len() {
                            None
                        } else {
                            spec_merge_public_key(buf, next, message)
                        },
                    }
                }
            },
        }
    }
}

/// The `PublicKey` message that the bytes encode, or `None` when they are
/// not a well-formed encoding.
pub open spec fn spec_decode_public_key(buf: Seq<u8>) -> Option<proto::PublicKey> {
    spec_merge_public_key(buf, 0, proto::PublicKey { x_only_public_key: None, parity_is_odd: false })
}


/// Merges the fields of a `Uint256` message between `pos` and `limit`.
fn merge_uint256(buf: &[u8], pos: usize, limit: usize, value: Uint256, depth: u32) -> (r: Option<(Uint256, usize)>)
    requires
        pos <= buf.len(),
    ensures
        match r {
            Some((merged, next)) => spec_merge_uint256(buf@, pos as int, limit as int, value, depth) == Some(
                (merged, next as int),
            ) && next <= buf.len(),
            None => spec_merge_uint256(buf@, pos as int, limit as int, value, depth) is None,
        },
    decreases buf.len() - pos,
{
    if pos >= limit {
        if pos == limit {
            return Some((value, pos));
        } else {
            return None;
        }
    }
    proof {
        lemma_key_advances(buf@, pos as int);
    }
    match decode_key(buf, pos) {
        None => None,
        Some((tag, wire_type, after_key)) => {
            if 1 <= tag && tag <= 4 {
                if wire_type != 1 || 8 > buf.len() - after_key {
                    None
                } else {
                    let v = u64_from_le_bytes(slice_subrange(buf, after_key, after_key + 8));
                    let merged = if tag == 1 {
                        Uint256 { bits_part0: v, ..value }
                    } else if tag == 2 {
                        Uint256 { bits_part1: v, ..value }
                    } else if tag == 3 {
                        Uint256 { bits_part2: v, ..value }
                    } else {
                        Uint256 { bits_part3: v, ..value }
                    };
                    merge_uint256(buf, after_key + 8, limit, merged, depth)
                }
            } else {
                match skip_field(buf, after_key, wire_type, tag, depth) {
                    None => None,
                    Some(next) => merge_uint256(buf, next, limit, value, depth),
                }
            }
        },
    }
}

/// Merges the fields of a `PublicKey` message from `pos` to the end.
fn merge_public_key(buf: &[u8], pos: usize, message: proto::PublicKey) -> (r: Option<proto::PublicKey>)
    requires
        pos <= buf.len(),
    ensures
        r == spec_merge_public_key(buf@, pos as int, message),
    decreases buf.len() - pos,
{
    if pos == buf.len() {
        return Some(message);
    }
    proof {
        lemma_key_advances(buf@, pos as int);
    }
    match decode_key(buf, pos) {
        None => None,
        Some((tag, wire_type, after_key)) => {
            if tag == 1 {
                if wire_type != 2 {
                    return None;
                }
                match decode_varint(buf, after_key) {
                    None => None,
                    Some((len, start)) => {
                        if len > (buf.len() - start) as u64 {
                            return None;
                        }
                        let current = match message.x_only_public_key {
                            Some(x) => x,
                            None => Uint256 { bits_part0: 0, bits_part1: 0, bits_part2: 0, bits_part3: 0 },
                        };
                        match merge_uint256(buf, start, start + len as usize, current, 99) {
                            None => None,
                            Some((x, next)) => {
                                if next <= pos {
                                    return None;
                                }
                                merge_public_key(
                                    buf,
                                    next,
                                    proto::PublicKey { x_only_public_key: Some(x), ..message },
                                )
                            },
                        }
                    },
                }
            } else if tag == 2 {
                if wire_type != 0 {
                    return None;
                }
                proof {
                    lemma_varint_from_advances(buf@, after_key as int, 0, 0);
                }
                match decode_varint(buf, after_key) {
                    None => None,
                    Some((v, next)) => merge_public_key(
                        buf,
                        next,
                        proto::PublicKey { parity_is_odd: v != 0, ..message },
                    ),
                }
            } else {
                match skip_field(buf, after_key, wire_type, tag, 100) {
                    None => None,
                    Some(next) => {
                        if next <= pos {
                            return None;
                        }
                        merge_public_key(buf, next, message)
                    },
                }
            }
        },
    }
}

/// Decodes a `PublicKey` message.
pub fn decode_public_key(buf: &[u8]) -> (r: Option<proto::PublicKey>)
    ensures
        r == spec_decode_public_key(buf@),
{
    merge_public_key(buf, 0, proto::PublicKey { x_only_public_key: None, parity_is_odd: false })
}

/// The encoding of a `fixed64` field with the given key byte: nothing when
/// the value is zero, otherwise the key and the value's eight
/// little-endian bytes.
pub open spec fn spec_encode_fixed64_field(key: u8, value: u64) -> Seq<u8> {
    if value == 0 {
        seq![]
    } else {
        seq![key] + spec_u64_to_le_bytes(value)
    }
}

/// The encoding of a `Uint256` message: its non-zero limbs as the `fixed64`
/// fields 1 to 4, in order.
pub open spec fn spec_encode_uint256(value: Uint256) -> Seq<u8> {
    spec_encode_fixed64_field(0x09, value.bits_part0) + spec_encode_fixed64_field(0x11, value.bits_part1)
        + spec_encode_fixed64_field(0x19, value.bits_part2) + spec_encode_fixed64_field(
        0x21,
        value.bits_part3,
    )
}

/// The encoding of a `PublicKey` message: the x-coordinate, when present,
/// as the length-delimited field 1, then the parity, when odd, as the varint
/// field 2.
pub open spec fn spec_encode_public_key(message: proto::PublicKey) -> Seq<u8> {
    (match message.x_only_public_key {
        Some(x) => seq![0x0Au8, spec_encode_uint256(x).len() as u8] + spec_encode_uint256(x),
        None => seq![],
    }) + (if message.parity_is_odd {
        seq![0x10u8, 0x01u8]
    } else {
        seq![]
    })
}

/// A `Uint256` message takes at most 36 bytes.
pub proof fn lemma_encode_uint256_len(value: Uint256)
    ensures
        spec_encode_uint256(value).len() <= 36,
{
    lemma_auto_spec_u64_to_from_le_bytes();
}

/// Whether a byte is the key of one of the four `fixed64` fields of a
/// `Uint256` message (tags 1 to 4).
pub open spec fn spec_is_uint256_key(key: u8) -> bool {
    key == 0x09u8 || key == 0x11u8 || key == 0x19u8 || key == 0x21u8
}

/// The limb of a `Uint256` that the field with this key carries.
pub open spec fn spec_uint256_limb_of_key(value: Uint256, key: u8) -> u64 {
    if key == 0x09u8 {
        value.bits_part0
    } else if key == 0x11u8 {
        value.bits_part1
    } else if key == 0x19u8 {
        value.bits_part2
    } else {
        value.bits_part3
    }
}

/// Whether `bytes` is a run of 9-byte `fixed64` fields of `value` whose keys
/// strictly increase, each a key of a `Uint256` field followed by the
/// little-endian bytes of its limb, which is not zero.
pub open spec fn spec_uint256_fields_in_order(bytes: Seq<u8>, value: Uint256) -> bool {
    &&& bytes.len() % 9 == 0
    &&& forall|i: int, j: int|
        0 <= i < j < bytes.len() && i % 9 == 0 && j % 9 == 0 ==> #[trigger] bytes[i] < #[trigger] bytes[j]
    &&& forall|i: int|
        0 <= i < bytes.len() && i % 9 == 0 ==> {
            &&& spec_is_uint256_key(#[trigger] bytes[i])
            &&& spec_uint256_limb_of_key(value, bytes[i]) != 0
            &&& bytes.subrange(i + 1, i + 9) == spec_u64_to_le_bytes(spec_uint256_limb_of_key(value, bytes[i]))
        }
}

/// Appending the field of a key above every key so far keeps the fields in
/// order, and the key is then present when its limb is not zero.
proof fn lemma_append_uint256_field(bytes: Seq<u8>, value: Uint256, key: u8)
    requires
        spec_uint256_fields_in_order(bytes, value),
        spec_is_uint256_key(key),
        forall|i: int| 0 <= i < bytes.len() && i % 9 == 0 ==> #[trigger] bytes[i] < key,
    ensures
        spec_uint256_fields_in_order(
            bytes + spec_encode_fixed64_field(key, spec_uint256_limb_of_key(value, key)),
            value,
        ),
        forall|i: int|
            0 <= i < (bytes + spec_encode_fixed64_field(key, spec_uint256_limb_of_key(value, key))).len() && i
                % 9 == 0 ==> #[trigger] (bytes + spec_encode_fixed64_field(
                key,
                spec_uint256_limb_of_key(value, key),
            ))[i] <= key,
        forall|i: int|
            0 <= i < bytes.len() ==> #[trigger] (bytes + spec_encode_fixed64_field(
                key,
                spec_uint256_limb_of_key(value, key),
            ))[i] == bytes[i],
        spec_uint256_limb_of_key(value, key) != 0 ==> (bytes + spec_encode_fixed64_field(
            key,
            spec_uint256_limb_of_key(value, key),
        ))[bytes.len() as int] == key,
{
    lemma_auto_spec_u64_to_from_le_bytes();
    let limb = spec_uint256_limb_of_key(value, key);
    let field = spec_encode_fixed64_field(key, limb);
    let all = bytes + field;
    if limb == 0 {
        assert(all =~= bytes);
    } else {
        assert(field.len() == 9);
        assert forall|i: int, j: int|
            0 <= i < j < all.len() && i % 9 == 0 && j % 9 == 0 implies #[trigger] all[i] < #[trigger] all[j] by {
            if j < bytes.len() {
                assert(all[i] == bytes[i]);
                assert(all[j] == bytes[j]);
            } else {
                assert(j == bytes.len());
                assert(all[j] == key);
                assert(all[i] == bytes[i]);
            }
        }
        assert forall|i: int| 0 <= i < all.len() && i % 9 == 0 implies {
            &&& spec_is_uint256_key(#[trigger] all[i])
            &&& spec_uint256_limb_of_key(value, all[i]) != 0
            &&& all.subrange(i + 1, i + 9) == spec_u64_to_le_bytes(spec_uint256_limb_of_key(value, all[i]))
        } by {
            if i < bytes.len() {
                assert(i + 9 <= bytes.len());
                assert(all[i] == bytes[i]);
                assert(all.subrange(i + 1, i + 9) =~= bytes.subrange(i + 1, i + 9));
            } else {
                assert(i == bytes.len());
                assert(all[i] == key);
                assert(all.subrange(i + 1, i + 9) =~= spec_u64_to_le_bytes(limb));
            }
        }
        assert forall|i: int| 0 <= i < all.len() && i % 9 == 0 implies #[trigger] all[i] <= key by {
            if i < bytes.len() {
                assert(all[i] == bytes[i]);
            }
        }
    }
}

/// The canonical encoding of a `Uint256` message writes its fields in the
/// order of their tags: it is a run of 9-byte `fixed64` fields whose keys
/// strictly increase, each followed by the little-endian bytes of the limb
/// that its tag names; the fields of zero limbs are left out and those of
/// all other limbs are present.
pub proof fn lemma_uint256_encoding_fields_in_tag_order(value: Uint256)
    ensures
        spec_uint256_fields_in_order(spec_encode_uint256(value), value),
        forall|key: u8|
            spec_is_uint256_key(key) && spec_uint256_limb_of_key(value, key) != 0 ==> exists|i: int|
                0 <= i < spec_encode_uint256(value).len() && i % 9 == 0 && #[trigger] spec_encode_uint256(
                    value,
                )[i] == key,
{
    let e0 = Seq::<u8>::empty();
    assert(spec_uint256_fields_in_order(e0, value));
    lemma_append_uint256_field(e0, value, 0x09u8);
    let e1 = e0 + spec_encode_fixed64_field(0x09u8, value.bits_part0);
    lemma_append_uint256_field(e1, value, 0x11u8);
    let e2 = e1 + spec_encode_fixed64_field(0x11u8, value.bits_part1);
    lemma_append_uint256_field(e2, value, 0x19u8);
    let e3 = e2 + spec_encode_fixed64_field(0x19u8, value.bits_part2);
    lemma_append_uint256_field(e3, value, 0x21u8);
    let e4 = e3 + spec_encode_fixed64_field(0x21u8, value.bits_part3);
    assert(e4 =~= spec_encode_uint256(value));
    let e = spec_encode_uint256(value);
    assert forall|key: u8| spec_is_uint256_key(key) && spec_uint256_limb_of_key(value, key) != 0 implies exists|
        i: int,
    | 0 <= i < e.len() && i % 9 == 0 && #[trigger] e[i] == key by {
        if key == 0x09u8 {
            assert(e[e0.len() as int] == key);
        } else if key == 0x11u8 {
            assert(e[e1.len() as int] == key);
        } else if key == 0x19u8 {
            assert(e[e2.len() as int] == key);
        } else {
            assert(e[e3.len() as int] == key);
        }
    }
}

/// The canonical encoding of a `Uint256` message with no zero limb is 36
/// bytes: the keys of tags 1, 2, 3 and 4 at bytes 0, 9, 18 and 27, each
/// followed by the little-endian bytes of limbs 0, 1, 2 and 3.
pub proof fn lemma_uint256_encoding_layout(value: Uint256)
    requires
        value.bits_part0 != 0,
        value.bits_part1 != 0,
        value.bits_part2 != 0,
        value.bits_part3 != 0,
    ensures
        spec_encode_uint256(value).len() == 36,
        spec_encode_uint256(value)[0] == 0x09u8,
        spec_encode_uint256(value)[9] == 0x11u8,
        spec_encode_uint256(value)[18] == 0x19u8,
        spec_encode_uint256(value)[27] == 0x21u8,
        spec_encode_uint256(value).subrange(1, 9) == spec_u64_to_le_bytes(value.bits_part0),
        spec_encode_uint256(value).subrange(10, 18) == spec_u64_to_le_bytes(value.bits_part1),
        spec_encode_uint256(value).subrange(19, 27) == spec_u64_to_le_bytes(value.bits_part2),
        spec_encode_uint256(value).subrange(28, 36) == spec_u64_to_le_bytes(value.bits_part3),
{
    lemma_auto_spec_u64_to_from_le_bytes();
    let e = spec_encode_uint256(value);
    let f0 = spec_encode_fixed64_field(0x09u8, value.bits_part0);
    let f1 = spec_encode_fixed64_field(0x11u8, value.bits_part1);
    let f2 = spec_encode_fixed64_field(0x19u8, value.bits_part2);
    let f3 = spec_encode_fixed64_field(0x21u8, value.bits_part3);
    assert(e =~= f0 + f1 + f2 + f3);
    assert(e.subrange(1, 9) =~= f0.subrange(1, 9));
    assert(e.subrange(10, 18) =~= f1.subrange(1, 9));
    assert(e.subrange(19, 27) =~= f2.subrange(1, 9));
    assert(e.subrange(28, 36) =~= f3.subrange(1, 9));
    assert(f0.subrange(1, 9) =~= spec_u64_to_le_bytes(value.bits_part0));
    assert(f1.subrange(1, 9) =~= spec_u64_to_le_bytes(value.bits_part1));
    assert(f2.subrange(1, 9) =~= spec_u64_to_le_bytes(value.bits_part2));
    assert(f3.subrange(1, 9) =~= spec_u64_to_le_bytes(value.bits_part3));
}

/// Appends a `fixed64` field with the given key byte.
fn encode_fixed64_field(buf: &mut Vec<u8>, key: u8, value: u64)
    ensures
        final(buf)@ == old(buf)@ + spec_encode_fixed64_field(key, value),
{
    if value != 0 {
        buf.push(key);
        let bytes = u64_to_le_bytes(value);
        let mut i: usize = 0;
        let ghost start = buf@;
        while i < 8
            invariant
                bytes@ == spec_u64_to_le_bytes(value),
                bytes.len() == 8,
                i <= 8,
                buf@ == start + bytes@.take(i as int),
            decreases 8 - i,
        {
            buf.push(bytes[i]);
            assert(bytes@.take(i + 1) =~= bytes@.take(i as int).push(bytes@[i as int]));
            i = i + 1;
        }
        assert(bytes@.take(8) =~= bytes@);
    } else {
        assert(buf@ =~= buf@ + spec_encode_fixed64_field(key, value));
    }
}

/// Encodes a `Uint256` message.
pub fn encode_uint256(value: &Uint256) -> (r: Vec<u8>)
    ensures
        r@ == spec_encode_uint256(*value),
{
    let mut buf: Vec<u8> = Vec::new();
    encode_fixed64_field(&mut buf, 0x09, value.bits_part0);
    encode_fixed64_field(&mut buf, 0x11, value.bits_part1);
    encode_fixed64_field(&mut buf, 0x19, value.bits_part2);
    encode_fixed64_field(&mut buf, 0x21, value.bits_part3);
    assert(buf@ =~= spec_encode_uint256(*value));
    buf
}

/// Encodes a `PublicKey` message.
pub fn encode_public_key(message: &proto::PublicKey) -> (r: Vec<u8>)
    ensures
        r@ == spec_encode_public_key(*message),
{
    let mut buf: Vec<u8> = Vec::new();
    if let Some(x) = &message.x_only_public_key {
        let inner = encode_uint256(x);
        proof {
            lemma_encode_uint256_len(*x);
        }
        buf.push(0x0A);
        buf.push(inner.len() as u8);
        let mut i: usize = 0;
        while i < inner.len()
            invariant
                i <= inner.len(),
                inner@ == spec_encode_uint256(*x),
                buf@ == seq![0x0Au8, inner.len() as u8] + inner@.take(i as int),
            decreases inner.len() - i,
        {
            buf.push(inner[i]);
            assert(inner@.take(i + 1) =~= inner@.take(i as int).push(inner@[i as int]));
            i = i + 1;
        }
        assert(inner@.take(inner.len() as int) =~= inner@);
    }
    let ghost head = buf@;
    if message.parity_is_odd {
        buf.push(0x10);
        buf.push(0x01);
    }
    assert(buf@ =~= spec_encode_public_key(*message));
    buf
}

/// A byte below `0x80` is a one-byte varint.
proof fn lemma_varint_byte(buf: Seq<u8>, pos: int)
    requires
        0 <= pos < buf.len(),
        buf[pos] < 0x80u8,
    ensures
        spec_varint(buf, pos) == Some((buf[pos] as u64, pos + 1)),
{
    let b = buf[pos];
    assert((0u64 | (((b & 0x7fu8) as u64) << 0u64)) == b as u64) by (bit_vector)
        requires
            b < 0x80u8,
    ;
    assert(((7 * 0u64) as u64) == 0u64);
}

/// The keys that the canonical encoding writes are read back as their tag
/// and wire type.
proof fn lemma_key_byte(buf: Seq<u8>, pos: int, tag: u32, wire_type: u8)
    requires
        0 <= pos < buf.len(),
        (tag == 1 || tag == 2 || tag == 3 || tag == 4) && (wire_type == 0 || wire_type == 1 || wire_type == 2),
        buf[pos] == (tag * 8 + wire_type) as u8,
    ensures
        spec_key(buf, pos) == Some((tag, wire_type, pos + 1)),
{
    let k = buf[pos];
    assert(k < 0x80u8);
    lemma_varint_byte(buf, pos);
    let key = k as u64;
    assert(key & 7 == wire_type as u64 && key >> 3u64 == tag as u64) by (bit_vector)
        requires
            key == (tag * 8 + wire_type) as u64,
            tag <= 4,
            wire_type <= 2,
    ;
}

/// Merging one canonical `fixed64` field of a `Uint256` sets that limb.
proof fn lemma_merge_uint256_step(
    buf: Seq<u8>,
    pos: int,
    limit: int,
    value: Uint256,
    depth: u32,
    tag: u32,
    part: u64,
)
    requires
        tag == 1 || tag == 2 || tag == 3 || tag == 4,
        0 <= pos,
        pos + spec_encode_fixed64_field((tag * 8 + 1) as u8, part).len() <= limit <= buf.len(),
        buf.subrange(pos, pos + spec_encode_fixed64_field((tag * 8 + 1) as u8, part).len()) == spec_encode_fixed64_field(
            (tag * 8 + 1) as u8,
            part,
        ),
        part == 0 ==> spec_uint256_with(value, tag, part) == value,
    ensures
        spec_merge_uint256(buf, pos, limit, value, depth) == spec_merge_uint256(
            buf,
            pos + spec_encode_fixed64_field((tag * 8 + 1) as u8, part).len(),
            limit,
            spec_uint256_with(value, tag, part),
            depth,
        ),
{
    lemma_auto_spec_u64_to_from_le_bytes();
    let field = spec_encode_fixed64_field((tag * 8 + 1) as u8, part);
    if part != 0 {
        assert(field.len() == 9);
        assert(buf[pos] == field[0]);
        lemma_key_byte(buf, pos, tag, 1);
        let le = spec_u64_to_le_bytes(part);
        assert(field == seq![(tag * 8 + 1) as u8] + le);
        assert forall|i: int| 0 <= i < 8 implies #[trigger] buf.subrange(pos + 1, pos + 9)[i] == le[i] by {
            assert(buf.subrange(pos, pos + 9)[i + 1] == field[i + 1]);
        }
        assert(buf.subrange(pos + 1, pos + 9) =~= le);
    }
}

/// Merging the canonical encoding of a `Uint256` into zero gives that
/// number and ends at the end of the encoding.
proof fn lemma_merge_uint256_encoding(buf: Seq<u8>, start: int, value: Uint256, depth: u32)
    requires
        0 <= start,
        start + spec_encode_uint256(value).len() <= buf.len(),
        buf.subrange(start, start + spec_encode_uint256(value).len()) == spec_encode_uint256(value),
    ensures
        spec_merge_uint256(buf, start, start + spec_encode_uint256(value).len(), spec_uint256_zero(), depth)
            == Some((value, start + spec_encode_uint256(value).len())),
{
    let f0 = spec_encode_fixed64_field(0x09, value.bits_part0);
    let f1 = spec_encode_fixed64_field(0x11, value.bits_part1);
    let f2 = spec_encode_fixed64_field(0x19, value.bits_part2);
    let f3 = spec_encode_fixed64_field(0x21, value.bits_part3);
    let enc = spec_encode_uint256(value);
    assert(enc == f0 + f1 + f2 + f3);
    let limit = start + enc.len();
    let q1 = start + f0.len();
    let q2 = q1 + f1.len();
    let q3 = q2 + f2.len();
    let v0 = spec_uint256_zero();
    let v1 = spec_uint256_with(v0, 1, value.bits_part0);
    let v2 = spec_uint256_with(v1, 2, value.bits_part1);
    let v3 = spec_uint256_with(v2, 3, value.bits_part2);
    let v4 = spec_uint256_with(v3, 4, value.bits_part3);
    assert(buf.subrange(start, q1) =~= f0) by {
        assert(enc.subrange(0, f0.len() as int) =~= f0);
    }
    assert(buf.subrange(q1, q2) =~= f1) by {
        assert(enc.subrange(f0.len() as int, (f0.len() + f1.len()) as int) =~= f1);
    }
    assert(buf.subrange(q2, q3) =~= f2) by {
        assert(enc.subrange((f0.len() + f1.len()) as int, (f0.len() + f1.len() + f2.len()) as int) =~= f2);
    }
    assert(buf.subrange(q3, limit) =~= f3) by {
        assert(enc.subrange((f0.len() + f1.len() + f2.len()) as int, enc.len() as int) =~= f3);
    }
    lemma_merge_uint256_step(buf, start, limit, v0, depth, 1, value.bits_part0);
    lemma_merge_uint256_step(buf, q1, limit, v1, depth, 2, value.bits_part1);
    lemma_merge_uint256_step(buf, q2, limit, v2, depth, 3, value.bits_part2);
    lemma_merge_uint256_step(buf, q3, limit, v3, depth, 4, value.bits_part3);
    assert(v4 == value);
}

/// Merging a canonical x-coordinate field at the start of the buffer sets
/// the x-coordinate.
proof fn lemma_merge_public_key_x_field(buf: Seq<u8>, x: Uint256, message: proto::PublicKey)
    requires
        message.x_only_public_key is None,
        spec_encode_uint256(x).len() <= 36,
        2 + spec_encode_uint256(x).len() <= buf.len(),
        buf[0] == 0x0Au8,
        buf[1] == spec_encode_uint256(x).len() as u8,
        buf.subrange(2, 2 + spec_encode_uint256(x).len() as int) == spec_encode_uint256(x),
    ensures
        spec_merge_public_key(buf, 0, message) == spec_merge_public_key(
            buf,
            2 + spec_encode_uint256(x).len() as int,
            proto::PublicKey { x_only_public_key: Some(x), ..message },
        ),
{
    lemma_key_byte(buf, 0, 1, 2);
    lemma_varint_byte(buf, 1);
    lemma_merge_uint256_encoding(buf, 2, x, (RECURSION_LIMIT - 1) as u32);
}

/// Merging a canonical parity field that ends the buffer sets the parity.
proof fn lemma_merge_public_key_parity_field(buf: Seq<u8>, pos: int, message: proto::PublicKey)
    requires
        0 <= pos,
        pos + 2 == buf.len(),
        buf[pos] == 0x10u8,
        buf[pos + 1] == 0x01u8,
    ensures
        spec_merge_public_key(buf, pos, message) == Some(proto::PublicKey { parity_is_odd: true, ..message }),
{
    lemma_key_byte(buf, pos, 2, 0);
    lemma_varint_byte(buf, pos + 1);
    let odd = proto::PublicKey { parity_is_odd: true, ..message };
    assert(spec_merge_public_key(buf, pos + 2, odd) == Some(odd));
    assert(spec_varint(buf, pos + 1) == Some((1u64, pos + 2)));
}

/// Decoding the canonical encoding of a `PublicKey` message gives back the
/// message.
pub proof fn lemma_public_key_encoding_round_trip(message: proto::PublicKey)
    ensures
        spec_decode_public_key(spec_encode_public_key(message)) == Some(message),
{
    let buf = spec_encode_public_key(message);
    let parity_part: Seq<u8> = if message.parity_is_odd {
        seq![0x10u8, 0x01u8]
    } else {
        seq![]
    };
    let empty = proto::PublicKey { x_only_public_key: None, parity_is_odd: false };
    let after_x = proto::PublicKey { x_only_public_key: message.x_only_public_key, parity_is_odd: false };
    let p = buf.len() - parity_part.len();
    match message.x_only_public_key {
        Some(x) => {
            let enc = spec_encode_uint256(x);
            lemma_encode_uint256_len(x);
            assert(buf == seq![0x0Au8, enc.len() as u8] + enc + parity_part);
            assert(buf.subrange(2, 2 + enc.len() as int) =~= enc);
            lemma_merge_public_key_x_field(buf, x, empty);
        },
        None => {
            assert(buf =~= parity_part);
        },
    }
    assert(spec_merge_public_key(buf, 0, empty) == spec_merge_public_key(buf, p, after_x));
    if message.parity_is_odd {
        lemma_merge_public_key_parity_field(buf, p, after_x);
    }
}

} // verus!
