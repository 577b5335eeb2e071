//! The binary form of client commands: MessagePack, with a unit variant as
//! its name, a one-field variant as a one-entry map from its name to the
//! field, a two-field variant as a one-entry map from its name to an array,
//! an id as its integer and a position as an array of two doubles. Integers
//! take their most compact form; only that canonical form is accepted.
use vstd::prelude::*;
use crate::types::{GameMsg, Position, SoldierID};

verus! {

pub open spec fn u16_be(u: u16) -> Seq<u8> {
    seq![(u >> 8u16) as u8, u as u8]
}

pub open spec fn u32_be(u: u32) -> Seq<u8> {
    seq![(u >> 24u32) as u8, (u >> 16u32) as u8, (u >> 8u32) as u8, u as u8]
}

pub open spec fn u64_be(u: u64) -> Seq<u8> {
    seq![
        (u >> 56u64) as u8,
        (u >> 48u64) as u8,
        (u >> 40u64) as u8,
        (u >> 32u64) as u8,
        (u >> 24u64) as u8,
        (u >> 16u64) as u8,
        (u >> 8u64) as u8,
        u as u8,
    ]
}

/// The most compact MessagePack form of a signed integer.
pub open spec fn sint_bytes(v: i32) -> Seq<u8> {
    if 0 <= v < 128 {
        seq![v as u8]
    } else if 128 <= v < 256 {
        seq![0xccu8, v as u8]
    } else if 256 <= v < 65536 {
        seq![0xcdu8] + u16_be(v as u16)
    } else if 65536 <= v {
        seq![0xceu8] + u32_be(v as u32)
    } else if -32 <= v {
        seq![v as u8]
    } else if -128 <= v {
        seq![0xd0u8, v as u8]
    } else if -32768 <= v {
        seq![0xd1u8] + u16_be(v as u16)
    } else {
        seq![0xd2u8] + u32_be(v as u32)
    }
}

/// `QueryStatus`, as a string.
pub open spec fn query_bytes() -> Seq<u8> {
    seq![0xabu8, 0x51, 0x75, 0x65, 0x72, 0x79, 0x53, 0x74, 0x61, 0x74, 0x75, 0x73]
}

/// A one-entry map, then the key `Init`.
pub open spec fn init_head() -> Seq<u8> {
    seq![0x81u8, 0xa4, 0x49, 0x6e, 0x69, 0x74]
}

/// A one-entry map, then the key `TakeControl`.
pub open spec fn take_head() -> Seq<u8> {
    seq![0x81u8, 0xab, 0x54, 0x61, 0x6b, 0x65, 0x43, 0x6f, 0x6e, 0x74, 0x72, 0x6f, 0x6c]
}

/// A one-entry map, the key `MoveTo`, then a two-element array.
pub open spec fn move_head() -> Seq<u8> {
    seq![0x81u8, 0xa6, 0x4d, 0x6f, 0x76, 0x65, 0x54, 0x6f, 0x92]
}

/// The encoding of a command.
pub open spec fn command_bytes(m: GameMsg) -> Seq<u8> {
    match m {
        GameMsg::Init(n) => init_head() + sint_bytes(n),
        GameMsg::TakeControl(sid) => take_head() + sint_bytes(sid.0),
        GameMsg::QueryStatus => query_bytes(),
        GameMsg::MoveTo(sid, p) => move_head() + sint_bytes(sid.0) + seq![0x92u8, 0xcb] + u64_be(p.x)
            + seq![0xcbu8] + u64_be(p.y),
    }
}

pub open spec fn be16(b: Seq<u8>, i: int) -> u16 {
    ((b[i] as u16) << 8u16) | (b[i + 1] as u16)
}

pub open spec fn be32(b: Seq<u8>, i: int) -> u32 {
    ((b[i] as u32) << 24u32) | ((b[i + 1] as u32) << 16u32) | ((b[i + 2] as u32) << 8u32) | (b[i
        + 3] as u32)
}

pub open spec fn be64(b: Seq<u8>, i: int) -> u64 {
    ((b[i] as u64) << 56u64) | ((b[i + 1] as u64) << 48u64) | ((b[i + 2] as u64) << 40u64) | ((b[i
        + 3] as u64) << 32u64) | ((b[i + 4] as u64) << 24u64) | ((b[i + 5] as u64) << 16u64) | ((b[i
        + 6] as u64) << 8u64) | (b[i + 7] as u64)
}

/// Reads a signed integer at the start of `b`: its value and its length.
pub open spec fn parse_sint(b: Seq<u8>) -> Option<(i32, int)> {
    if b.len() == 0 {
        None
    } else {
        let m = b[0];
        if m < 0x80 {
            Some((m as i32, 1))
        } else if m >= 0xe0 {
            Some((m as i8 as i32, 1))
        } else if m == 0xcc && b.len() >= 2 {
            Some((b[1] as i32, 2))
        } else if m == 0xcd && b.len() >= 3 {
            Some((be16(b, 1) as i32, 3))
        } else if m == 0xce && b.len() >= 5 && be32(b, 1) < 0x8000_0000 {
            Some((be32(b, 1) as i32, 5))
        } else if m == 0xd0 && b.len() >= 2 {
            Some((b[1] as i8 as i32, 2))
        } else if m == 0xd1 && b.len() >= 3 {
            Some((be16(b, 1) as i16 as i32, 3))
        } else if m == 0xd2 && b.len() >= 5 {
            Some((be32(b, 1) as i32, 5))
        } else {
            None
        }
    }
}

/// Picks the command that `b` would encode, reading the variant from its
/// first bytes and its fields from their places.
pub open spec fn parse_command(b: Seq<u8>) -> Option<GameMsg> {
    if b.len() >= 1 && b[0] == 0xab {
        Some(GameMsg::QueryStatus)
    } else if b.len() >= 6 && b[0] == 0x81 && b[1] == 0xa4 {
        match parse_sint(b.skip(6)) {
            Some((n, _)) => Some(GameMsg::Init(n)),
            None => None,
        }
    } else if b.len() >= 13 && b[0] == 0x81 && b[1] == 0xab {
        match parse_sint(b.skip(13)) {
            Some((n, _)) => Some(GameMsg::TakeControl(SoldierID(n))),
            None => None,
        }
    } else if b.len() >= 9 && b[0] == 0x81 && b[1] == 0xa6 {
        match parse_sint(b.skip(9)) {
            Some((n, k)) => {
                let q = 9 + k;
                if b.len() >= q + 19 {
                    Some(GameMsg::MoveTo(SoldierID(n), Position { x: be64(b, q + 2), y: be64(b, q + 11) }))
                } else {
                    None
                }
            },
            None => None,
        }
    } else {
        None
    }
}

/// The command that `b` encodes, if it is the canonical encoding of one.
pub open spec fn decoded(b: Seq<u8>) -> Option<GameMsg> {
    match parse_command(b) {
        Some(m) => if command_bytes(m) == b {
            Some(m)
        } else {
            None
        },
        None => None,
    }
}

proof fn lemma_u16_bytes(u: u16)
    ensures
        be16(seq![0u8] + u16_be(u), 1) == u,
{
    let b = seq![0u8] + u16_be(u);
    assert(b[1] == (u >> 8u16) as u8 && b[2] == u as u8);
    assert(((((u >> 8u16) as u8) as u16) << 8u16) | ((u as u8) as u16) == u) by (bit_vector);
}

proof fn lemma_u32_bytes(u: u32)
    ensures
        be32(seq![0u8] + u32_be(u), 1) == u,
{
    let b = seq![0u8] + u32_be(u);
    assert(b[1] == (u >> 24u32) as u8 && b[2] == (u >> 16u32) as u8 && b[3] == (u >> 8u32) as u8 && b[4]
        == u as u8);
    assert(((((u >> 24u32) as u8) as u32) << 24u32) | ((((u >> 16u32) as u8) as u32) << 16u32) | ((((u
        >> 8u32) as u8) as u32) << 8u32) | ((u as u8) as u32) == u) by (bit_vector);
}

/// Reading eight bytes in network order gives back the number they encode.
proof fn lemma_u64_bytes(u: u64, b: Seq<u8>, i: int)
    requires
        0 <= i,
        i + 8 <= b.len(),
        b.subrange(i, i + 8) == u64_be(u),
    ensures
        be64(b, i) == u,
{
    let e = u64_be(u);
    assert forall|k: int| 0 <= k < 8 implies b[i + k] == e[k] by {
        assert(b.subrange(i, i + 8)[k] == b[i + k]);
    }
    assert(b[i] == e[0] && b[i + 1] == e[1] && b[i + 2] == e[2] && b[i + 3] == e[3]);
    assert(b[i + 4] == e[4] && b[i + 5] == e[5] && b[i + 6] == e[6] && b[i + 7] == e[7]);
    assert(((((u >> 56u64) as u8) as u64) << 56u64) | ((((u >> 48u64) as u8) as u64) << 48u64) | ((((u
        >> 40u64) as u8) as u64) << 40u64) | ((((u >> 32u64) as u8) as u64) << 32u64) | ((((u
        >> 24u64) as u8) as u64) << 24u64) | ((((u >> 16u64) as u8) as u64) << 16u64) | ((((u
        >> 8u64) as u8) as u64) << 8u64) | ((u as u8) as u64) == u) by (bit_vector);
}

/// Reading an integer back from its encoding, whatever follows it.
proof fn lemma_parse_sint(v: i32, rest: Seq<u8>)
    ensures
        parse_sint(sint_bytes(v) + rest) == Some((v, sint_bytes(v).len() as int)),
{
    let e = sint_bytes(v);
    let b = e + rest;
    assert(b[0] == e[0]);
    if 0 <= v < 128 {
        assert((v as u8) < 0x80u8 && ((v as u8) as i32) == v) by (bit_vector)
            requires
                0 <= v < 128,
        ;
    } else if 128 <= v < 256 {
        assert(b[1] == e[1]);
        assert((v as u8) as i32 == v) by (bit_vector)
            requires
                128 <= v < 256,
        ;
    } else if 256 <= v < 65536 {
        let u = v as u16;
        lemma_u16_bytes(u);
        assert(b[1] == e[1] && b[2] == e[2]);
        assert(be16(b, 1) == be16(seq![0u8] + u16_be(u), 1));
        assert(u as i32 == v) by (bit_vector)
            requires
                256 <= v < 65536,
                u == v as u16,
        ;
    } else if 65536 <= v {
        let u = v as u32;
        lemma_u32_bytes(u);
        assert(b[1] == e[1] && b[2] == e[2] && b[3] == e[3] && b[4] == e[4]);
        assert(be32(b, 1) == be32(seq![0u8] + u32_be(u), 1));
        assert(u < 0x8000_0000u32 && u as i32 == v) by (bit_vector)
            requires
                65536 <= v,
                u == v as u32,
        ;
    } else if -32 <= v {
        assert((v as u8) >= 0xe0u8 && ((v as u8) as i8) as i32 == v) by (bit_vector)
            requires
                -32 <= v < 0,
        ;
    } else if -128 <= v {
        assert(b[1] == e[1]);
        assert(((v as u8) as i8) as i32 == v) by (bit_vector)
            requires
                -128 <= v < -32,
        ;
    } else if -32768 <= v {
        let u = v as u16;
        lemma_u16_bytes(u);
        assert(b[1] == e[1] && b[2] == e[2]);
        assert(be16(b, 1) == be16(seq![0u8] + u16_be(u), 1));
        assert((u as i16) as i32 == v) by (bit_vector)
            requires
                -32768 <= v < -128,
                u == v as u16,
        ;
    } else {
        let u = v as u32;
        lemma_u32_bytes(u);
        assert(b[1] == e[1] && b[2] == e[2] && b[3] == e[3] && b[4] == e[4]);
        assert(be32(b, 1) == be32(seq![0u8] + u32_be(u), 1));
        assert(u as i32 == v) by (bit_vector)
            requires
                u == v as u32,
        ;
    }
}

proof fn lemma_parse_init(n: i32)
    ensures
        parse_command(command_bytes(GameMsg::Init(n))) == Some(GameMsg::Init(n)),
{
    let b = command_bytes(GameMsg::Init(n));
    let e = sint_bytes(n);
    assert(b.len() >= 6 && b[0] == 0x81u8 && b[1] == 0xa4u8);
    assert(b.skip(6) =~= e + Seq::<u8>::empty());
    lemma_parse_sint(n, Seq::empty());
}

proof fn lemma_parse_take(n: i32)
    ensures
        parse_command(command_bytes(GameMsg::TakeControl(SoldierID(n)))) == Some(
            GameMsg::TakeControl(SoldierID(n)),
        ),
{
    let b = command_bytes(GameMsg::TakeControl(SoldierID(n)));
    let e = sint_bytes(n);
    assert(b.len() >= 13 && b[0] == 0x81u8 && b[1] == 0xabu8);
    assert(b.skip(13) =~= e + Seq::<u8>::empty());
    lemma_parse_sint(n, Seq::empty());
}

#[verifier::rlimit(40)]
proof fn lemma_parse_move(n: i32, p: Position)
    ensures
        parse_command(command_bytes(GameMsg::MoveTo(SoldierID(n), p))) == Some(
            GameMsg::MoveTo(SoldierID(n), p),
        ),
{
    let b = command_bytes(GameMsg::MoveTo(SoldierID(n), p));
    let e = sint_bytes(n);
    let rest = seq![0x92u8, 0xcb] + u64_be(p.x) + seq![0xcbu8] + u64_be(p.y);
    assert(b =~= move_head() + (e + rest));
    assert(b.len() >= 9 && b[0] == 0x81u8 && b[1] == 0xa6u8);
    assert(b.skip(9) =~= e + rest);
    lemma_parse_sint(n, rest);
    let q: int = 9 + e.len() as int;
    assert(b.len() == q + 19);
    assert(b.subrange(q + 2, q + 10) =~= u64_be(p.x));
    assert(b.subrange(q + 11, q + 19) =~= u64_be(p.y));
    lemma_u64_bytes(p.x, b, q + 2);
    lemma_u64_bytes(p.y, b, q + 11);
}

/// The parser reads every command back from its encoding.
proof fn lemma_parse_command(m: GameMsg)
    ensures
        parse_command(command_bytes(m)) == Some(m),
{
    match m {
        GameMsg::Init(n) => lemma_parse_init(n),
        GameMsg::TakeControl(sid) => lemma_parse_take(sid.0),
        GameMsg::QueryStatus => {},
        GameMsg::MoveTo(sid, p) => lemma_parse_move(sid.0, p),
    }
}

/// Round trip: decoding an encoded command gives the command back, and
/// whatever decodes re-encodes to the very same bytes.
pub proof fn lemma_round_trip(m: GameMsg, b: Seq<u8>)
    ensures
        decoded(command_bytes(m)) == Some(m),
        decoded(b) == Some(m) ==> command_bytes(m) == b,
        command_bytes(m) == b <==> decoded(b) == Some(m),
{
    lemma_parse_command(m);
}

fn init_head_bytes() -> (r: Vec<u8>)
    ensures
        r@ == init_head(),
{
    let r = vec![0x81u8, 0xa4, 0x49, 0x6e, 0x69, 0x74];
    assert(r@ =~= init_head());
    r
}

fn take_head_bytes() -> (r: Vec<u8>)
    ensures
        r@ == take_head(),
{
    let r = vec![0x81u8, 0xab, 0x54, 0x61, 0x6b, 0x65, 0x43, 0x6f, 0x6e, 0x74, 0x72, 0x6f, 0x6c];
    assert(r@ =~= take_head());
    r
}

fn move_head_bytes() -> (r: Vec<u8>)
    ensures
        r@ == move_head(),
{
    let r = vec![0x81u8, 0xa6, 0x4d, 0x6f, 0x76, 0x65, 0x54, 0x6f, 0x92];
    assert(r@ =~= move_head());
    r
}

fn query_bytes_vec() -> (r: Vec<u8>)
    ensures
        r@ == query_bytes(),
{
    let r = vec![0xabu8, 0x51, 0x75, 0x65, 0x72, 0x79, 0x53, 0x74, 0x61, 0x74, 0x75, 0x73];
    assert(r@ =~= query_bytes());
    r
}

fn write_u16(out: &mut Vec<u8>, u: u16)
    ensures
        final(out)@ == old(out)@ + u16_be(u),
{
    out.push((u >> 8u16) as u8);
    out.push(u as u8);
    assert(final(out)@ =~= old(out)@ + u16_be(u));
}

fn write_u32(out: &mut Vec<u8>, u: u32)
    ensures
        final(out)@ == old(out)@ + u32_be(u),
{
    out.push((u >> 24u32) as u8);
    out.push((u >> 16u32) as u8);
    out.push((u >> 8u32) as u8);
    out.push(u as u8);
    assert(final(out)@ =~= old(out)@ + u32_be(u));
}

fn write_u64(out: &mut Vec<u8>, u: u64)
    ensures
        final(out)@ == old(out)@ + u64_be(u),
{
    out.push((u >> 56u64) as u8);
    out.push((u >> 48u64) as u8);
    out.push((u >> 40u64) as u8);
    out.push((u >> 32u64) as u8);
    out.push((u >> 24u64) as u8);
    out.push((u >> 16u64) as u8);
    out.push((u >> 8u64) as u8);
    out.push(u as u8);
    assert(final(out)@ =~= old(out)@ + u64_be(u));
}

/// Appends the most compact encoding of `v`.
fn write_sint(out: &mut Vec<u8>, v: i32)
    ensures
        final(out)@ == old(out)@ + sint_bytes(v),
{
    if 0 <= v && v < 128 {
        out.push(v as u8);
    } else if 128 <= v && v < 256 {
        out.push(0xcc);
        out.push(v as u8);
    } else if 256 <= v && v < 65536 {
        out.push(0xcd);
        write_u16(out, v as u16);
    } else if 65536 <= v {
        out.push(0xce);
        write_u32(out, v as u32);
    } else if -32 <= v {
        out.push(v as u8);
    } else if -128 <= v {
        out.push(0xd0);
        out.push(v as u8);
    } else if -32768 <= v {
        out.push(0xd1);
        write_u16(out, v as u16);
    } else {
        out.push(0xd2);
        write_u32(out, v as u32);
    }
    assert(final(out)@ =~= old(out)@ + sint_bytes(v));
}

/// The wire form of a command.
pub fn encode_command(m: GameMsg) -> (r: Vec<u8>)
    ensures
        r@ == command_bytes(m),
{
    match m {
        GameMsg::Init(n) => {
            let mut out = init_head_bytes();
            write_sint(&mut out, n);
            out
        },
        GameMsg::TakeControl(sid) => {
            let mut out = take_head_bytes();
            write_sint(&mut out, sid.0);
            out
        },
        GameMsg::QueryStatus => query_bytes_vec(),
        GameMsg::MoveTo(sid, p) => {
            let mut out = move_head_bytes();
            write_sint(&mut out, sid.0);
            out.push(0x92);
            out.push(0xcb);
            write_u64(&mut out, p.x);
            out.push(0xcb);
            write_u64(&mut out, p.y);
            assert(out@ =~= command_bytes(m));
            out
        },
    }
}

fn read_u16(b: &[u8], i: usize) -> (r: u16)
    requires
        i + 2 <= b@.len(),
    ensures
        r == be16(b@, i as int),
{
    ((b[i] as u16) << 8u16) | (b[i + 1] as u16)
}

fn read_u32(b: &[u8], i: usize) -> (r: u32)
    requires
        i + 4 <= b@.len(),
    ensures
        r == be32(b@, i as int),
{
    ((b[i] as u32) << 24u32) | ((b[i + 1] as u32) << 16u32) | ((b[i + 2] as u32) << 8u32) | (b[i
        + 3] as u32)
}

fn read_u64(b: &[u8], i: usize) -> (r: u64)
    requires
        i + 8 <= b@.len(),
    ensures
        r == be64(b@, i as int),
{
    ((b[i] as u64) << 56u64) | ((b[i + 1] as u64) << 48u64) | ((b[i + 2] as u64) << 40u64) | ((b[i
        + 3] as u64) << 32u64) | ((b[i + 4] as u64) << 24u64) | ((b[i + 5] as u64) << 16u64) | ((b[i
        + 6] as u64) << 8u64) | (b[i + 7] as u64)
}

/// Reads a signed integer at offset `i`: its value and the offset after it.
fn read_sint(b: &[u8], i: usize) -> (r: Option<(i32, usize)>)
    requires
        i <= b@.len(),
    ensures
        r == match parse_sint(b@.skip(i as int)) {
            Some((v, k)) => Some((v, (i + k) as usize)),
            None => None,
        },
{
    let ghost t = b@.skip(i as int);
    if i >= b.len() {
        return None;
    }
    let m = b[i];
    let avail = b.len() - i;
    assert(t[0] == m);
    if m < 0x80 {
        Some((m as i32, i + 1))
    } else if m >= 0xe0 {
        Some((m as i8 as i32, i + 1))
    } else if m == 0xcc && avail >= 2 {
        assert(t[1] == b@[i + 1]);
        Some((b[i + 1] as i32, i + 2))
    } else if m == 0xcd && avail >= 3 {
        let u = read_u16(b, i + 1);
        assert(be16(t, 1) == u);
        Some((u as i32, i + 3))
    } else if m == 0xce && avail >= 5 && read_u32(b, i + 1) < 0x8000_0000 {
        let u = read_u32(b, i + 1);
        assert(be32(t, 1) == u);
        Some((u as i32, i + 5))
    } else if m == 0xd0 && avail >= 2 {
        assert(t[1] == b@[i + 1]);
        Some((b[i + 1] as i8 as i32, i + 2))
    } else if m == 0xd1 && avail >= 3 {
        let u = read_u16(b, i + 1);
        assert(be16(t, 1) == u);
        Some((u as i16 as i32, i + 3))
    } else if m == 0xd2 && avail >= 5 {
        let u = read_u32(b, i + 1);
        assert(be32(t, 1) == u);
        Some((u as i32, i + 5))
    } else {
        proof {
            if m == 0xce && avail >= 5 {
                assert(be32(t, 1) == be32(b@, i + 1));
            }
        }
        None
    }
}

fn parse_command_exec(b: &[u8]) -> (r: Option<GameMsg>)
    ensures
        r == parse_command(b@),
{
    let n = b.len();
    if n >= 1 && b[0] == 0xab {
        Some(GameMsg::QueryStatus)
    } else if n >= 6 && b[0] == 0x81 && b[1] == 0xa4 {
        match read_sint(b, 6) {
            Some((v, _)) => Some(GameMsg::Init(v)),
            None => None,
        }
    } else if n >= 13 && b[0] == 0x81 && b[1] == 0xab {
        match read_sint(b, 13) {
            Some((v, _)) => Some(GameMsg::TakeControl(SoldierID(v))),
            None => None,
        }
    } else if n >= 9 && b[0] == 0x81 && b[1] == 0xa6 {
        match read_sint(b, 9) {
            Some((v, q)) => {
                if n - q >= 19 {
                    let x = read_u64(b, q + 2);
                    let y = read_u64(b, q + 11);
                    Some(GameMsg::MoveTo(SoldierID(v), Position { x, y }))
                } else {
                    None
                }
            },
            None => None,
        }
    } else {
        None
    }
}

fn bytes_equal(a: &Vec<u8>, b: &[u8]) -> (r: bool)
    ensures
        r == (a@ == b@),
{
    if a.len() != b.len() {
        return false;
    }
    let mut i: usize = 0;
    while i < a.len()
        invariant
            a@.len() == b@.len(),
            0 <= i <= a@.len(),
            forall|k: int| 0 <= k < i ==> a@[k] == b@[k],
        decreases a@.len() - i,
    {
        if a[i] != b[i] {
            return false;
        }
        i += 1;
    }
    assert(a@ =~= b@);
    true
}

/// The command that `b` encodes; `None` unless `b` is exactly the
/// canonical encoding of a command.
pub fn decode_command(b: &[u8]) -> (r: Option<GameMsg>)
    ensures
        r == decoded(b@),
        match r {
            Some(m) => b@ == command_bytes(m),
            None => forall|m: GameMsg| b@ != #[trigger] command_bytes(m),
        },
{
    proof {
        assert forall|m: GameMsg| b@ == #[trigger] command_bytes(m) implies decoded(b@) == Some(m) by {
            lemma_round_trip(m, b@);
        }
    }
    match parse_command_exec(b) {
        Some(m) => {
            let e = encode_command(m);
            if bytes_equal(&e, b) {
                Some(m)
            } else {
                None
            }
        },
        None => None,
    }
}

} // verus!
