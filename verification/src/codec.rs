//! The wire form of an event: the bytes that carry it across the context
//! boundary.
//!
//! An encoded event is a version byte, a tag byte that names the variant, and
//! the variant's fields in their order, integers little-endian, signed ones
//! in two's complement, a flag as one byte 0 or 1.

use vstd::prelude::*;
use vstd::bytes::{
    lemma_auto_spec_u16_to_from_le_bytes, lemma_auto_spec_u32_to_from_le_bytes,
    lemma_auto_spec_u64_to_from_le_bytes, spec_u16_from_le_bytes, spec_u16_to_le_bytes,
    spec_u32_from_le_bytes, spec_u32_to_le_bytes, spec_u64_from_le_bytes, spec_u64_to_le_bytes,
    u16_from_le_bytes, u16_to_le_bytes, u32_from_le_bytes, u32_to_le_bytes, u64_from_le_bytes,
    u64_to_le_bytes,
};
use vstd::slice::slice_subrange;
use crate::event::{Event, Point};

verus! {

/// The version of the wire form, the first byte of every encoded event.
pub const VERSION: u8 = 1;

/// The two's complement of a 32-bit number.
pub open spec fn unsigned32(x: i32) -> u32 {
    if x >= 0 {
        x as u32
    } else {
        (x + 0x1_0000_0000) as u32
    }
}

/// The number that a 32-bit two's complement stands for.
pub open spec fn signed32(v: u32) -> i32 {
    if v <= 0x7fff_ffff {
        v as i32
    } else {
        (v - 0x1_0000_0000) as i32
    }
}

/// The two's complement of a 16-bit number.
pub open spec fn unsigned16(x: i16) -> u16 {
    if x >= 0 {
        x as u16
    } else {
        (x + 0x1_0000) as u16
    }
}

/// The number that a 16-bit two's complement stands for.
pub open spec fn signed16(v: u16) -> i16 {
    if v <= 0x7fff {
        v as i16
    } else {
        (v - 0x1_0000) as i16
    }
}

/// The byte of a flag.
pub open spec fn flag_byte(flag: bool) -> u8 {
    if flag {
        1
    } else {
        0
    }
}

/// The eight bytes of a point.
pub open spec fn point_bytes(p: Point) -> Seq<u8> {
    spec_u32_to_le_bytes(unsigned32(p.0)) + spec_u32_to_le_bytes(unsigned32(p.1))
}

/// The unsigned 32-bit number in the four bytes of `bytes` from `at` on.
pub open spec fn u32_at(bytes: Seq<u8>, at: int) -> u32 {
    spec_u32_from_le_bytes(bytes.subrange(at, at + 4))
}

/// The unsigned 64-bit number in the eight bytes of `bytes` from `at` on.
pub open spec fn u64_at(bytes: Seq<u8>, at: int) -> u64 {
    spec_u64_from_le_bytes(bytes.subrange(at, at + 8))
}

/// The signed 16-bit number in the two bytes of `bytes` from `at` on.
pub open spec fn i16_at(bytes: Seq<u8>, at: int) -> i16 {
    signed16(spec_u16_from_le_bytes(bytes.subrange(at, at + 2)))
}

/// The point in the eight bytes of `bytes` from `at` on.
pub open spec fn point_at(bytes: Seq<u8>, at: int) -> Point {
    (signed32(u32_at(bytes, at)), signed32(u32_at(bytes, at + 4)))
}

/// The tag byte of an event's variant.
pub open spec fn tag_of(event: Event) -> u8 {
    match event {
        Event::Resize { .. } => 0,
        Event::CursorEntered => 1,
        Event::CursorLeft => 2,
        Event::CursorMoved { .. } => 3,
        Event::MouseMotion { .. } => 4,
        Event::MouseWheel { .. } => 5,
        Event::MouseButton { .. } => 6,
    }
}

/// The bytes of an event's fields.
pub open spec fn payload(event: Event) -> Seq<u8> {
    match event {
        Event::Resize { width, height } => spec_u32_to_le_bytes(width) + spec_u32_to_le_bytes(height),
        Event::CursorEntered => Seq::empty(),
        Event::CursorLeft => Seq::empty(),
        Event::CursorMoved { delta, position } => match delta {
            Some(d) => point_bytes(position) + seq![1u8] + point_bytes(d),
            None => point_bytes(position) + seq![0u8],
        },
        Event::MouseMotion { delta } => point_bytes(delta),
        Event::MouseWheel { delta, unit } => spec_u64_to_le_bytes(delta.0) + spec_u64_to_le_bytes(delta.1)
            + spec_u32_to_le_bytes(unit),
        Event::MouseButton { pressed, button } => seq![flag_byte(pressed)] + spec_u16_to_le_bytes(
            unsigned16(button),
        ),
    }
}

/// The wire form of an event.
pub open spec fn encoding(event: Event) -> Seq<u8> {
    seq![VERSION, tag_of(event)] + payload(event)
}

/// The number of bytes in the wire form of an event.
pub open spec fn encoded_len(event: Event) -> nat {
    match event {
        Event::Resize { .. } => 10,
        Event::CursorEntered => 2,
        Event::CursorLeft => 2,
        Event::CursorMoved { delta, .. } => if delta is Some {
            19
        } else {
            11
        },
        Event::MouseMotion { .. } => 10,
        Event::MouseWheel { .. } => 22,
        Event::MouseButton { .. } => 5,
    }
}

/// The event whose fields `bytes` hold, read by the tag byte and by position
/// alone: no length and no version is looked at.
pub open spec fn parse(bytes: Seq<u8>) -> Event {
    let tag = bytes[1];
    if tag == 0 {
        Event::Resize { width: u32_at(bytes, 2), height: u32_at(bytes, 6) }
    } else if tag == 2 {
        Event::CursorLeft
    } else if tag == 3 {
        Event::CursorMoved {
            delta: if bytes.len() > 11 {
                Some(point_at(bytes, 11))
            } else {
                None
            },
            position: point_at(bytes, 2),
        }
    } else if tag == 4 {
        Event::MouseMotion { delta: point_at(bytes, 2) }
    } else if tag == 5 {
        Event::MouseWheel { delta: (u64_at(bytes, 2), u64_at(bytes, 10)), unit: u32_at(bytes, 18) }
    } else if tag == 6 {
        Event::MouseButton { pressed: bytes[2] == 1, button: i16_at(bytes, 3) }
    } else {
        Event::CursorEntered
    }
}

/// The event that `bytes` are the wire form of, if they are that of any:
/// the event that they parse as, where it encodes to just these bytes.
pub open spec fn decoding(bytes: Seq<u8>) -> Option<Event> {
    if encoding(parse(bytes)) == bytes {
        Some(parse(bytes))
    } else {
        None
    }
}

/// The length of an event's wire form and the bytes in it that say how to
/// read the rest.
pub proof fn lemma_encoding_shape(event: Event)
    ensures
        encoding(event).len() == encoded_len(event),
        encoding(event)[0] == VERSION,
        encoding(event)[1] == tag_of(event),
        event matches Event::CursorMoved { delta, .. } ==> encoding(event)[10] == flag_byte(delta is Some),
        event matches Event::MouseButton { pressed, .. } ==> encoding(event)[2] == flag_byte(pressed),
{
    lemma_auto_spec_u16_to_from_le_bytes();
    lemma_auto_spec_u32_to_from_le_bytes();
    lemma_auto_spec_u64_to_from_le_bytes();
}

/// An event's wire form parses as the event.
pub proof fn lemma_parse_encoding(event: Event)
    ensures
        parse(encoding(event)) == event,
{
    lemma_auto_spec_u16_to_from_le_bytes();
    lemma_auto_spec_u32_to_from_le_bytes();
    lemma_auto_spec_u64_to_from_le_bytes();
    lemma_encoding_shape(event);
    let bytes = encoding(event);
    match event {
        Event::Resize { width, height } => {
            assert(bytes.subrange(2, 6) =~= spec_u32_to_le_bytes(width));
            assert(bytes.subrange(6, 10) =~= spec_u32_to_le_bytes(height));
        },
        Event::CursorEntered => {},
        Event::CursorLeft => {},
        Event::CursorMoved { delta, position } => {
            assert(bytes.subrange(2, 6) =~= spec_u32_to_le_bytes(unsigned32(position.0)));
            assert(bytes.subrange(6, 10) =~= spec_u32_to_le_bytes(unsigned32(position.1)));
            if let Some(d) = delta {
                assert(bytes.subrange(11, 15) =~= spec_u32_to_le_bytes(unsigned32(d.0)));
                assert(bytes.subrange(15, 19) =~= spec_u32_to_le_bytes(unsigned32(d.1)));
            }
        },
        Event::MouseMotion { delta } => {
            assert(bytes.subrange(2, 6) =~= spec_u32_to_le_bytes(unsigned32(delta.0)));
            assert(bytes.subrange(6, 10) =~= spec_u32_to_le_bytes(unsigned32(delta.1)));
        },
        Event::MouseWheel { delta, unit } => {
            assert(bytes.subrange(2, 10) =~= spec_u64_to_le_bytes(delta.0));
            assert(bytes.subrange(10, 18) =~= spec_u64_to_le_bytes(delta.1));
            assert(bytes.subrange(18, 22) =~= spec_u32_to_le_bytes(unit));
        },
        Event::MouseButton { pressed, button } => {
            assert(bytes.subrange(3, 5) =~= spec_u16_to_le_bytes(unsigned16(button)));
        },
    }
}

/// Encoding and then decoding an event gives the event back.
pub proof fn lemma_round_trip(event: Event)
    ensures
        decoding(encoding(event)) == Some(event),
{
    lemma_parse_encoding(event);
}

/// Two events with the same wire form are the same event.
pub proof fn lemma_encoding_is_injective(a: Event, b: Event)
    requires
        encoding(a) == encoding(b),
    ensures
        a == b,
{
    lemma_parse_encoding(a);
    lemma_parse_encoding(b);
}

/// Bytes decode to an event exactly when they are its wire form.
pub proof fn lemma_decoding_inverts_encoding(bytes: Seq<u8>, event: Event)
    ensures
        decoding(bytes) == Some(event) <==> encoding(event) == bytes,
{
    if encoding(event) == bytes {
        lemma_parse_encoding(event);
    }
}

fn to_unsigned32(x: i32) -> (v: u32)
    ensures
        v == unsigned32(x),
{
    if x >= 0 {
        x as u32
    } else {
        (x as i64 + 0x1_0000_0000) as u32
    }
}

fn to_signed32(v: u32) -> (x: i32)
    ensures
        x == signed32(v),
        unsigned32(x) == v,
{
    if v <= 0x7fff_ffff {
        v as i32
    } else {
        (v as i64 - 0x1_0000_0000) as i32
    }
}

fn to_unsigned16(x: i16) -> (v: u16)
    ensures
        v == unsigned16(x),
{
    if x >= 0 {
        x as u16
    } else {
        (x as i32 + 0x1_0000) as u16
    }
}

fn to_signed16(v: u16) -> (x: i16)
    ensures
        x == signed16(v),
        unsigned16(x) == v,
{
    if v <= 0x7fff {
        v as i16
    } else {
        (v as i32 - 0x1_0000) as i16
    }
}

fn put_u32(out: &mut Vec<u8>, x: u32)
    ensures
        final(out)@ == old(out)@ + spec_u32_to_le_bytes(x),
{
    let mut bytes = u32_to_le_bytes(x);
    out.append(&mut bytes);
}

fn put_u64(out: &mut Vec<u8>, x: u64)
    ensures
        final(out)@ == old(out)@ + spec_u64_to_le_bytes(x),
{
    let mut bytes = u64_to_le_bytes(x);
    out.append(&mut bytes);
}

fn put_i16(out: &mut Vec<u8>, x: i16)
    ensures
        final(out)@ == old(out)@ + spec_u16_to_le_bytes(unsigned16(x)),
{
    let mut bytes = u16_to_le_bytes(to_unsigned16(x));
    out.append(&mut bytes);
}

fn put_point(out: &mut Vec<u8>, p: Point)
    ensures
        final(out)@ == old(out)@ + point_bytes(p),
{
    put_u32(out, to_unsigned32(p.0));
    put_u32(out, to_unsigned32(p.1));
    assert(out@ =~= old(out)@ + point_bytes(p));
}

fn get_u32(bytes: &[u8], at: usize) -> (x: u32)
    requires
        at + 4 <= bytes@.len() <= usize::MAX,
    ensures
        x == u32_at(bytes@, at as int),
        spec_u32_to_le_bytes(x) == bytes@.subrange(at as int, at + 4),
{
    proof {
        lemma_auto_spec_u32_to_from_le_bytes();
    }
    u32_from_le_bytes(slice_subrange(bytes, at, at + 4))
}

fn get_u64(bytes: &[u8], at: usize) -> (x: u64)
    requires
        at + 8 <= bytes@.len() <= usize::MAX,
    ensures
        x == u64_at(bytes@, at as int),
        spec_u64_to_le_bytes(x) == bytes@.subrange(at as int, at + 8),
{
    proof {
        lemma_auto_spec_u64_to_from_le_bytes();
    }
    u64_from_le_bytes(slice_subrange(bytes, at, at + 8))
}

fn get_i16(bytes: &[u8], at: usize) -> (x: i16)
    requires
        at + 2 <= bytes@.len() <= usize::MAX,
    ensures
        x == i16_at(bytes@, at as int),
        spec_u16_to_le_bytes(unsigned16(x)) == bytes@.subrange(at as int, at + 2),
{
    proof {
        lemma_auto_spec_u16_to_from_le_bytes();
    }
    to_signed16(u16_from_le_bytes(slice_subrange(bytes, at, at + 2)))
}

fn get_point(bytes: &[u8], at: usize) -> (p: Point)
    requires
        at + 8 <= bytes@.len() <= usize::MAX,
    ensures
        p == point_at(bytes@, at as int),
        point_bytes(p) == bytes@.subrange(at as int, at + 8),
{
    let x = to_signed32(get_u32(bytes, at));
    let y = to_signed32(get_u32(bytes, at + 4));
    assert(point_bytes((x, y)) =~= bytes@.subrange(at as int, at + 8));
    (x, y)
}

/// Encodes an event.
pub fn encode(event: &Event) -> (bytes: Vec<u8>)
    ensures
        bytes@ == encoding(*event),
{
    let mut out: Vec<u8> = Vec::new();
    out.push(VERSION);
    match event {
        Event::Resize { width, height } => {
            out.push(0);
            put_u32(&mut out, *width);
            put_u32(&mut out, *height);
        },
        Event::CursorEntered => {
            out.push(1);
        },
        Event::CursorLeft => {
            out.push(2);
        },
        Event::CursorMoved { delta, position } => {
            out.push(3);
            put_point(&mut out, *position);
            match delta {
                Some(d) => {
                    out.push(1);
                    put_point(&mut out, *d);
                },
                None => {
                    out.push(0);
                },
            }
        },
        Event::MouseMotion { delta } => {
            out.push(4);
            put_point(&mut out, *delta);
        },
        Event::MouseWheel { delta, unit } => {
            out.push(5);
            put_u64(&mut out, delta.0);
            put_u64(&mut out, delta.1);
            put_u32(&mut out, *unit);
        },
        Event::MouseButton { pressed, button } => {
            out.push(6);
            out.push(if *pressed { 1 } else { 0 });
            put_i16(&mut out, *button);
        },
    }
    assert(out@ =~= encoding(*event));
    out
}

/// Decodes an event: gives the event that `bytes` are the wire form of, and
/// nothing where they are the wire form of none.
pub fn decode(bytes: &[u8]) -> (event: Option<Event>)
    ensures
        event == decoding(bytes@),
        event matches Some(e) ==> encoding(e) == bytes@,
        event is None ==> forall|e: Event| encoding(e) != bytes@,
{
    proof {
        lemma_encoding_shape(parse(bytes@));
        assert forall|e: Event| encoding(e) == bytes@ implies decoding(bytes@) == Some(e) by {
            lemma_decoding_inverts_encoding(bytes@, e);
        }
    }
    let n: usize = bytes.len();
    if n < 2 || bytes[0] != VERSION {
        return None;
    }
    let tag = bytes[1];
    let found = if tag == 0 && n == 10 {
        Some(Event::Resize { width: get_u32(bytes, 2), height: get_u32(bytes, 6) })
    } else if tag == 1 && n == 2 {
        Some(Event::CursorEntered)
    } else if tag == 2 && n == 2 {
        Some(Event::CursorLeft)
    } else if tag == 3 && n == 11 && bytes[10] == 0 {
        Some(Event::CursorMoved { delta: None, position: get_point(bytes, 2) })
    } else if tag == 3 && n == 19 && bytes[10] == 1 {
        Some(Event::CursorMoved { delta: Some(get_point(bytes, 11)), position: get_point(bytes, 2) })
    } else if tag == 4 && n == 10 {
        Some(Event::MouseMotion { delta: get_point(bytes, 2) })
    } else if tag == 5 && n == 22 {
        Some(
            Event::MouseWheel {
                delta: (get_u64(bytes, 2), get_u64(bytes, 10)),
                unit: get_u32(bytes, 18),
            },
        )
    } else if tag == 6 && n == 5 && bytes[2] <= 1 {
        Some(Event::MouseButton { pressed: bytes[2] == 1, button: get_i16(bytes, 3) })
    } else {
        None
    };
    proof {
        if let Some(e) = found {
            assert(e == parse(bytes@));
            assert(encoding(e) =~= bytes@);
        }
    }
    found
}

} // verus!
