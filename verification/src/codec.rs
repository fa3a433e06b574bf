//! Header codec: the pure mapping between an 8-bit opcode and a decoded
//! command or reply descriptor.
//!
//! A command header packs, from the most significant bits down: a command
//! kind (3 bits), an address-size class (2 bits, the log2 of a width
//! restricted to 1, 2, 4 or 8 bytes), and a data-size class (3 bits, where 0
//! means no payload and a nonzero value `c` means a payload of `1 << (c - 1)`
//! bytes). Numerically, `header == 32 * kind + 8 * addr_class + data_class`.
//!
//! A reply header packs a data-length class in its low 3 bits (0 for a
//! control reply, nonzero `c` for `1 << (c - 1)` payload bytes) and uses the
//! remaining 5 bits for the control-reply kind when the length is 0, or for
//! the signed tag delta when it is not.
//!
//! Decoding is total over all 256 byte values: every byte is classified,
//! unrepresentable combinations as an explicit `Invalid` variant. Over valid
//! descriptors, encoding and decoding are mutual inverses.

use vstd::prelude::*;
use vstd::arithmetic::div_mod::{
    lemma_fundamental_div_mod, lemma_fundamental_div_mod_converse_div,
    lemma_fundamental_div_mod_converse_mod,
};

verus! {

/// A decoded command header, as carried initiator to responder.
#[derive(Clone, Copy, Debug, PartialEq, Eq, Structural)]
pub enum CommandHeader {
    /// No work this cycle.
    Idle,
    /// Request a state reset; answered by a `Synced` reply.
    Sync,
    /// An opcode set aside by the wire format: kind 0 with a nonzero body.
    Reserved,
    /// A read of `width` bytes; an address of `addr_width` bytes follows.
    Read { width: u8, addr_width: u8 },
    /// A write of `width` bytes; address then payload follow.
    Write { width: u8, addr_width: u8 },
    /// A combination the format cannot express, e.g. a read with a payload
    /// class that does not match its kind, or a width beyond 8 bytes.
    Invalid,
}

/// A decoded reply header, as carried responder to initiator.
#[derive(Clone, Copy, Debug, PartialEq, Eq, Structural)]
pub enum ReplyHeader {
    /// No completion this cycle; back-credits may ride along as payload.
    Idle,
    /// Acknowledges a `Sync` after the responder reset its state.
    Synced,
    /// Coarse flow control: stop issuing reads and writes.
    Pause,
    /// Coarse flow control: issuing may continue.
    Resume,
    /// A completion of `width` payload bytes for the read whose tag is
    /// `delta` away from the next expected in-order completion.
    Data { width: u8, delta: i8 },
    /// A control-reply kind the format does not define.
    Invalid,
}

/// The transfer widths the protocol supports, in bytes.
pub open spec fn valid_width(w: u8) -> bool {
    w == 1 || w == 2 || w == 4 || w == 8
}

/// Log2 of a valid width: the 2-bit size class carried on the wire.
pub open spec fn size_class(w: u8) -> u8
    recommends
        valid_width(w),
{
    if w == 1 {
        0
    } else if w == 2 {
        1
    } else if w == 4 {
        2
    } else {
        3
    }
}

/// The width a 2-bit size class denotes: `1 << c`.
pub open spec fn class_width(c: u8) -> u8
    recommends
        c < 4,
{
    if c == 0 {
        1
    } else if c == 1 {
        2
    } else if c == 2 {
        4
    } else {
        8
    }
}

/// Command descriptors that the wire format can express.
pub open spec fn valid_command(c: CommandHeader) -> bool {
    match c {
        CommandHeader::Idle => true,
        CommandHeader::Sync => true,
        CommandHeader::Read { width, addr_width } => valid_width(width) && valid_width(addr_width),
        CommandHeader::Write { width, addr_width } => valid_width(width) && valid_width(
            addr_width,
        ),
        CommandHeader::Reserved => false,
        CommandHeader::Invalid => false,
    }
}

/// Total classification of a command opcode byte.
pub open spec fn decode_command_spec(h: u8) -> CommandHeader {
    let kind = h / 32;
    let ac = (h / 8) % 4;
    let dc = h % 8;
    if h == 0 {
        CommandHeader::Idle
    } else if h == 1 {
        CommandHeader::Sync
    } else if kind == 0 {
        CommandHeader::Reserved
    } else if kind > 4 {
        CommandHeader::Invalid
    } else if dc == 0 {
        CommandHeader::Read { width: class_width((kind - 1) as u8), addr_width: class_width(ac) }
    } else if dc == kind {
        CommandHeader::Write { width: class_width((kind - 1) as u8), addr_width: class_width(ac) }
    } else {
        CommandHeader::Invalid
    }
}

/// The opcode byte of a valid command descriptor.
pub open spec fn encode_command_spec(c: CommandHeader) -> u8
    recommends
        valid_command(c),
{
    match c {
        CommandHeader::Idle => 0,
        CommandHeader::Sync => 1,
        CommandHeader::Read { width, addr_width } => (32 * (size_class(width) + 1) + 8
            * size_class(addr_width)) as u8,
        CommandHeader::Write { width, addr_width } => (32 * (size_class(width) + 1) + 8
            * size_class(addr_width) + (size_class(width) + 1)) as u8,
        CommandHeader::Reserved => 0,
        CommandHeader::Invalid => 0,
    }
}

/// A byte is the weighted sum of the three command-header fields read out of
/// it, and each field is in range.
proof fn lemma_command_fields(h: u8)
    ensures
        h == 32 * (h / 32) + 8 * ((h / 8) % 4) + h % 8,
        h / 32 < 8,
        (h / 8) % 4 < 4,
        h % 8 < 8,
{
    lemma_fundamental_div_mod(h as int, 8);
    lemma_fundamental_div_mod(h as int / 8, 4);
    lemma_fundamental_div_mod_converse_div(h as int, 32, (h as int / 8) / 4, 8 * ((h as int / 8)
        % 4) + h as int % 8);
}

/// A weighted sum of in-range command-header fields divides back into those
/// fields.
proof fn lemma_command_assemble(kind: int, ac: int, dc: int)
    requires
        0 <= kind < 8,
        0 <= ac < 4,
        0 <= dc < 8,
    ensures
        (32 * kind + 8 * ac + dc) / 32 == kind,
        ((32 * kind + 8 * ac + dc) / 8) % 4 == ac,
        (32 * kind + 8 * ac + dc) % 8 == dc,
{
    let h = 32 * kind + 8 * ac + dc;
    lemma_fundamental_div_mod_converse_div(h, 32, kind, 8 * ac + dc);
    lemma_fundamental_div_mod_converse_div(h, 8, 4 * kind + ac, dc);
    lemma_fundamental_div_mod_converse_mod(h, 8, 4 * kind + ac, dc);
    lemma_fundamental_div_mod_converse_mod(4 * kind + ac, 4, kind, ac);
}

/// Decoding is a left inverse of encoding: every valid command descriptor
/// survives a trip through its opcode byte unchanged.
pub proof fn lemma_command_round_trip(c: CommandHeader)
    requires
        valid_command(c),
    ensures
        decode_command_spec(encode_command_spec(c)) == c,
{
    match c {
        CommandHeader::Read { width, addr_width } => {
            let kind = size_class(width) + 1;
            let ac = size_class(addr_width) as int;
            lemma_command_assemble(kind as int, ac, 0);
        },
        CommandHeader::Write { width, addr_width } => {
            let kind = size_class(width) + 1;
            let ac = size_class(addr_width) as int;
            lemma_command_assemble(kind as int, ac, kind as int);
        },
        _ => {},
    }
}

/// Encoding is a left inverse of decoding: every byte that decodes to a
/// valid command descriptor is recovered by encoding that descriptor. With
/// [`lemma_command_round_trip`] this makes the codec a bijection between
/// valid descriptors and their opcodes.
pub proof fn lemma_command_decode_inverse(h: u8)
    requires
        valid_command(decode_command_spec(h)),
    ensures
        encode_command_spec(decode_command_spec(h)) == h,
{
    lemma_command_fields(h);
}

/// Decodes a command opcode byte; total over all 256 values.
pub fn decode_command(h: u8) -> (c: CommandHeader)
    ensures
        c == decode_command_spec(h),
{
    let kind = h / 32;
    let ac = (h / 8) % 4;
    let dc = h % 8;
    if h == 0 {
        CommandHeader::Idle
    } else if h == 1 {
        CommandHeader::Sync
    } else if kind == 0 {
        CommandHeader::Reserved
    } else if kind > 4 {
        CommandHeader::Invalid
    } else if dc == 0 {
        CommandHeader::Read { width: width_of_class(kind - 1), addr_width: width_of_class(ac) }
    } else if dc == kind {
        CommandHeader::Write { width: width_of_class(kind - 1), addr_width: width_of_class(ac) }
    } else {
        CommandHeader::Invalid
    }
}

/// Encodes a valid command descriptor to its opcode byte.
pub fn encode_command(c: &CommandHeader) -> (h: u8)
    requires
        valid_command(*c),
    ensures
        h == encode_command_spec(*c),
        decode_command_spec(h) == *c,
{
    proof {
        lemma_command_round_trip(*c);
    }
    match c {
        CommandHeader::Idle => 0,
        CommandHeader::Sync => 1,
        CommandHeader::Read { width, addr_width } => 32 * (class_of_width(*width) + 1) + 8
            * class_of_width(*addr_width),
        CommandHeader::Write { width, addr_width } => 32 * (class_of_width(*width) + 1) + 8
            * class_of_width(*addr_width) + (class_of_width(*width) + 1),
        CommandHeader::Reserved => 0,
        CommandHeader::Invalid => 0,
    }
}

/// Reply descriptors that the wire format can express.
pub open spec fn valid_reply(r: ReplyHeader) -> bool {
    match r {
        ReplyHeader::Idle => true,
        ReplyHeader::Synced => true,
        ReplyHeader::Pause => true,
        ReplyHeader::Resume => true,
        ReplyHeader::Data { width, delta } => valid_width(width) && -16 <= delta < 16,
        ReplyHeader::Invalid => false,
    }
}

/// Total classification of a reply opcode byte.
pub open spec fn decode_reply_spec(h: u8) -> ReplyHeader {
    let len = h % 8;
    let t = h / 8;
    if len == 0 {
        if t == 0 {
            ReplyHeader::Idle
        } else if t == 1 {
            ReplyHeader::Synced
        } else if t == 2 {
            ReplyHeader::Pause
        } else if t == 3 {
            ReplyHeader::Resume
        } else {
            ReplyHeader::Invalid
        }
    } else if len > 4 {
        ReplyHeader::Invalid
    } else {
        ReplyHeader::Data {
            width: class_width((len - 1) as u8),
            delta: if t < 16 {
                t as i8
            } else {
                (t - 32) as i8
            },
        }
    }
}

/// The opcode byte of a valid reply descriptor. The 5-bit delta field is
/// two's complement: a negative delta is carried as `delta + 32`.
pub open spec fn encode_reply_spec(r: ReplyHeader) -> u8
    recommends
        valid_reply(r),
{
    match r {
        ReplyHeader::Idle => 0,
        ReplyHeader::Synced => 8,
        ReplyHeader::Pause => 16,
        ReplyHeader::Resume => 24,
        ReplyHeader::Data { width, delta } => (8 * (
        if delta >= 0 {
            delta as int
        } else {
            delta + 32
        }) + (size_class(width) + 1)) as u8,
        ReplyHeader::Invalid => 0,
    }
}

/// A byte is the weighted sum of the two reply-header fields read out of it.
proof fn lemma_reply_assemble(t: int, len: int)
    requires
        0 <= t < 32,
        0 <= len < 8,
    ensures
        (8 * t + len) / 8 == t,
        (8 * t + len) % 8 == len,
{
    lemma_fundamental_div_mod_converse_div(8 * t + len, 8, t, len);
    lemma_fundamental_div_mod_converse_mod(8 * t + len, 8, t, len);
}

/// Decoding is a left inverse of encoding for reply headers.
pub proof fn lemma_reply_round_trip(r: ReplyHeader)
    requires
        valid_reply(r),
    ensures
        decode_reply_spec(encode_reply_spec(r)) == r,
{
    match r {
        ReplyHeader::Data { width, delta } => {
            let t = if delta >= 0 {
                delta as int
            } else {
                delta + 32
            };
            lemma_reply_assemble(t, size_class(width) + 1);
        },
        _ => {
            lemma_reply_assemble(encode_reply_spec(r) as int / 8, 0);
        },
    }
}

/// Encoding is a left inverse of decoding for reply headers: together with
/// [`lemma_reply_round_trip`], a bijection between valid reply descriptors
/// and their opcodes.
pub proof fn lemma_reply_decode_inverse(h: u8)
    requires
        valid_reply(decode_reply_spec(h)),
    ensures
        encode_reply_spec(decode_reply_spec(h)) == h,
{
    lemma_fundamental_div_mod(h as int, 8);
}

/// Decodes a reply opcode byte; total over all 256 values.
pub fn decode_reply(h: u8) -> (r: ReplyHeader)
    ensures
        r == decode_reply_spec(h),
{
    let len = h % 8;
    let t = h / 8;
    if len == 0 {
        if t == 0 {
            ReplyHeader::Idle
        } else if t == 1 {
            ReplyHeader::Synced
        } else if t == 2 {
            ReplyHeader::Pause
        } else if t == 3 {
            ReplyHeader::Resume
        } else {
            ReplyHeader::Invalid
        }
    } else if len > 4 {
        ReplyHeader::Invalid
    } else {
        let delta: i8 = if t < 16 {
            t as i8
        } else {
            (t as i8) - 32
        };
        ReplyHeader::Data { width: width_of_class(len - 1), delta }
    }
}

/// Encodes a valid reply descriptor to its opcode byte.
pub fn encode_reply(r: &ReplyHeader) -> (h: u8)
    requires
        valid_reply(*r),
    ensures
        h == encode_reply_spec(*r),
        decode_reply_spec(h) == *r,
{
    proof {
        lemma_reply_round_trip(*r);
    }
    match r {
        ReplyHeader::Idle => 0,
        ReplyHeader::Synced => 8,
        ReplyHeader::Pause => 16,
        ReplyHeader::Resume => 24,
        ReplyHeader::Data { width, delta } => {
            let t: u8 = if *delta >= 0 {
                *delta as u8
            } else {
                (*delta + 32) as u8
            };
            8 * t + (class_of_width(*width) + 1)
        },
        ReplyHeader::Invalid => 0,
    }
}

/// Whether `w` is a transfer width the protocol supports.
pub fn is_valid_width(w: u8) -> (r: bool)
    ensures
        r == valid_width(w),
{
    w == 1 || w == 2 || w == 4 || w == 8
}

/// The 2-bit size class of a valid width.
pub fn class_of_width(w: u8) -> (c: u8)
    requires
        valid_width(w),
    ensures
        c == size_class(w),
{
    if w == 1 {
        0
    } else if w == 2 {
        1
    } else if w == 4 {
        2
    } else {
        3
    }
}

/// The width a 2-bit size class denotes.
pub fn width_of_class(c: u8) -> (w: u8)
    requires
        c < 4,
    ensures
        w == class_width(c),
{
    if c == 0 {
        1
    } else if c == 1 {
        2
    } else if c == 2 {
        4
    } else {
        8
    }
}

} // verus!
