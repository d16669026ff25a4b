//! The way back: what a terminal reads out of the packets of an image is what was sent.

use vstd::prelude::*;
use vstd::utf8::is_ascii_chars_encode_utf8;

use crate::kitty::base64::b64;
use crate::kitty::base64::b64_decoded;
use crate::kitty::base64::lemma_b64_round_trip;
use crate::kitty::base64::lemma_b64_symbols;
use crate::kitty::medium::chunk_packets;
use crate::kitty::medium::data_chunks;
use crate::kitty::medium::lemma_chunks_flatten;
use crate::kitty::medium::ChunkSize;
use crate::kitty::medium::Medium;
use crate::kitty::tmux::BACKSLASH;
use crate::kitty::tmux::ESC;
use crate::text::text;

verus! {

/// Where the first escape of some bytes is, or their number where there is none.
pub open spec fn first_esc(s: Seq<u8>) -> nat
    decreases s.len(),
{
    if s.len() == 0 || s[0] == ESC {
        0
    } else {
        1 + first_esc(s.skip(1))
    }
}

/// The payload of a packet, the bytes up to the escape and backslash that end it, and what
/// follows the packet.
pub open spec fn packet_payload(s: Seq<u8>) -> Option<(Seq<u8>, Seq<u8>)> {
    let n = first_esc(s) as int;
    if n + 1 < s.len() && s[n + 1] == BACKSLASH {
        Some((s.take(n), s.skip(n + 2)))
    } else {
        None
    }
}

/// What a terminal reads out of the packets of an image that is sent in chunks, and what follows
/// them: each packet says whether another follows and carries base64. The first packet began
/// before, the others start with a mark of their own.
pub open spec fn received(s: Seq<u8>, first: bool) -> Option<(Seq<u8>, Seq<u8>)>
    decreases s.len(),
{
    let start = if first {
        seq![0x6du8, 0x3du8]
    } else {
        seq![ESC, 0x5fu8, 0x47u8, 0x6du8, 0x3du8]
    };
    let n = start.len() as int;
    if s.len() < n + 2 || s.take(n) != start || s[n + 1] != 0x3b {
        None
    } else {
        match packet_payload(s.skip(n + 2)) {
            None => None,
            Some((payload, rest)) => if s[n] == 0x30 {
                Some((b64_decoded(payload), rest))
            } else if s[n] == 0x31 && rest.len() < s.len() {
                match received(rest, false) {
                    Some((more, later)) => Some((b64_decoded(payload) + more, later)),
                    None => None,
                }
            } else {
                None
            },
        }
    }
}

/// The bytes of the marks.
proof fn lemma_marks()
    ensures
        text("m=") == seq![0x6du8, 0x3du8],
        text("\x1b_Gm=") == seq![ESC, 0x5fu8, 0x47u8, 0x6du8, 0x3du8],
        text("1;") == seq![0x31u8, 0x3bu8],
        text("0;") == seq![0x30u8, 0x3bu8],
        text("\x1b\\") == seq![ESC, BACKSLASH],
{
    reveal_strlit("m=");
    reveal_strlit("\x1b_Gm=");
    reveal_strlit("1;");
    reveal_strlit("0;");
    reveal_strlit("\x1b\\");
    is_ascii_chars_encode_utf8("m="@);
    is_ascii_chars_encode_utf8("\x1b_Gm="@);
    is_ascii_chars_encode_utf8("1;"@);
    is_ascii_chars_encode_utf8("0;"@);
    is_ascii_chars_encode_utf8("\x1b\\"@);
    assert(text("m=") =~= seq![0x6du8, 0x3du8]);
    assert(text("\x1b_Gm=") =~= seq![ESC, 0x5fu8, 0x47u8, 0x6du8, 0x3du8]);
    assert(text("1;") =~= seq![0x31u8, 0x3bu8]);
    assert(text("0;") =~= seq![0x30u8, 0x3bu8]);
    assert(text("\x1b\\") =~= seq![ESC, BACKSLASH]);
}

/// Bytes without an escape stand before the first escape that follows them.
proof fn lemma_first_esc(s: Seq<u8>, later: Seq<u8>)
    requires
        forall|i: int| 0 <= i < s.len() ==> #[trigger] s[i] != ESC,
    ensures
        first_esc(s + seq![ESC] + later) == s.len(),
    decreases s.len(),
{
    let t = s + seq![ESC] + later;
    if s.len() > 0 {
        assert(t[0] == s[0]);
        let rest = s.skip(1);
        assert forall|i: int| 0 <= i < rest.len() implies #[trigger] rest[i] != ESC by {
            assert(s[i + 1] != ESC);
        }
        lemma_first_esc(rest, later);
        assert(t.skip(1) =~= rest + seq![ESC] + later);
    }
}

/// The payload of a packet in base64 is read back whole.
proof fn lemma_payload(data: Seq<u8>, later: Seq<u8>)
    ensures
        packet_payload(b64(data) + seq![ESC, BACKSLASH] + later) == Some((b64(data), later)),
{
    let p = b64(data);
    let s = p + seq![ESC, BACKSLASH] + later;
    lemma_b64_symbols(data);
    assert forall|i: int| 0 <= i < p.len() implies #[trigger] p[i] != ESC by {
        let c = b64(data)[i];
    }
    lemma_first_esc(p, seq![BACKSLASH] + later);
    assert(s =~= p + seq![ESC] + (seq![BACKSLASH] + later));
    assert(s.take(p.len() as int) =~= p);
    assert(s.skip(p.len() as int + 2) =~= later);
}

/// The parts of a packet: its start, its flag, and its payload with what follows.
proof fn lemma_packet_parts(start: Seq<u8>, flag: u8, body: Seq<u8>)
    ensures
        ({
            let s = start + (seq![flag, 0x3bu8] + body);
            let n = start.len() as int;
            &&& s.len() == n + 2 + body.len()
            &&& s.take(n) == start
            &&& s[n] == flag
            &&& s[n + 1] == 0x3b
            &&& s.skip(n + 2) == body
        }),
{
    let s = start + (seq![flag, 0x3bu8] + body);
    let n = start.len() as int;
    assert(s.take(n) =~= start);
    assert(s.skip(n + 2) =~= body);
}

/// A packet with what follows, put together from its parts.
proof fn lemma_packet_shape(chunks: Seq<Seq<u8>>, first: bool, later: Seq<u8>)
    requires
        chunks.len() > 0,
    ensures
        chunk_packets(chunks, first) + later == (if first {
            text("m=")
        } else {
            text("\x1b_Gm=")
        }) + ((if chunks.len() > 1 {
            text("1;")
        } else {
            text("0;")
        }) + (b64(chunks[0]) + text("\x1b\\") + (chunk_packets(chunks.drop_first(), false)
            + later))),
{
    broadcast use crate::text::lemma_append;

}

/// Chunks are read back one after another.
#[verifier::rlimit(60)]
proof fn lemma_chunks_received(chunks: Seq<Seq<u8>>, first: bool, later: Seq<u8>)
    requires
        chunks.len() > 0,
    ensures
        received(chunk_packets(chunks, first) + later, first) == Some((chunks.flatten(), later)),
    decreases chunks.len(),
{
    lemma_marks();
    lemma_packet_shape(chunks, first, later);
    let start = if first {
        text("m=")
    } else {
        text("\x1b_Gm=")
    };
    let rest = chunk_packets(chunks.drop_first(), false) + later;
    let body = b64(chunks[0]) + seq![ESC, BACKSLASH] + rest;
    let flag: u8 = if chunks.len() > 1 {
        0x31
    } else {
        0x30
    };
    lemma_packet_parts(start, flag, body);
    lemma_payload(chunks[0], rest);
    lemma_b64_round_trip(chunks[0]);
    lemma_flatten_first(chunks);
    if chunks.len() > 1 {
        lemma_chunks_received(chunks.drop_first(), false, later);
    } else {
        assert(chunk_packets(chunks.drop_first(), false) =~= Seq::empty());
        assert(rest =~= later);
        assert(chunks[0] + chunks.drop_first().flatten() =~= chunks[0]);
    }
}

/// Sequences put together are the first one and the others put together.
proof fn lemma_flatten_first(chunks: Seq<Seq<u8>>)
    requires
        chunks.len() > 0,
    ensures
        chunks.flatten() == chunks[0] + chunks.drop_first().flatten(),
        chunks.len() == 1 ==> chunks.drop_first().flatten().len() == 0,
{
    reveal_with_fuel(Seq::<_>::flatten, 2);
}

/// Whatever the size of the chunks, the terminal reads the data that was sent out of them, and
/// what follows is left alone.
pub proof fn lemma_terminal_gets_chunks(data: Seq<u8>, size: nat, later: Seq<u8>)
    requires
        data.len() > 0,
        size > 0,
    ensures
        received(chunk_packets(data_chunks(data, size), true) + later, true) == Some(
            (data, later),
        ),
{
    lemma_chunks_received(data_chunks(data, size), true, later);
    lemma_chunks_flatten(data, size);
}

/// Data that is sent whole is read back whole.
pub proof fn lemma_terminal_gets_whole(data: Seq<u8>, later: Seq<u8>)
    ensures
        packet_payload(b64(data) + text("\x1b\\") + later) matches Some((payload, rest))
            && b64_decoded(payload) == data && rest == later,
{
    lemma_marks();
    lemma_payload(data, later);
    lemma_b64_round_trip(data);
}

/// An image that is sent inside the request reaches the terminal: behind what the request says
/// of the medium, the terminal reads the data.
pub proof fn lemma_medium_reaches_terminal(size: ChunkSize, data: Vec<u8>, later: Seq<u8>)
    requires
        size@ > 0,
        data@.len() > 0,
    ensures
        ({
            let bytes = (Medium::Direct { chunk_size: Some(size), data }).bytes();
            let start = text(",t=d,").len() as int;
            &&& bytes.take(start) == text(",t=d,")
            &&& received(bytes.skip(start) + later, true) == Some((data@, later))
        }),
{
    let bytes = (Medium::Direct { chunk_size: Some(size), data }).bytes();
    let start = text(",t=d,");
    let packets = chunk_packets(data_chunks(data@, (size@ * 3) as nat), true);
    assert(bytes.take(start.len() as int) =~= start);
    assert(bytes.skip(start.len() as int) =~= packets);
    lemma_terminal_gets_chunks(data@, (size@ * 3) as nat, later);
}

} // verus!
