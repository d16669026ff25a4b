//! Handing packets through tmux to the terminal that it runs in.

use vstd::prelude::*;
use vstd::slice::slice_subrange;
use vstd::utf8::is_ascii_chars_encode_utf8;

use crate::text::push_text;
use crate::text::text;

verus! {

broadcast use {crate::text::lemma_append, crate::text::lemma_append_nothing};

/// The escape byte.
pub const ESC: u8 = 0x1b;

/// The byte that ends a packet behind an escape.
pub const BACKSLASH: u8 = 0x5c;

/// Bytes with every escape doubled, as tmux takes them.
pub open spec fn escaped(s: Seq<u8>) -> Seq<u8>
    decreases s.len(),
{
    if s.len() == 0 {
        Seq::empty()
    } else if s.last() == ESC {
        escaped(s.drop_last()) + seq![ESC, ESC]
    } else {
        escaped(s.drop_last()) + seq![s.last()]
    }
}

/// What tmux hands to the terminal of bytes that follow a start, and the bytes behind the end:
/// of two escapes one is handed on, and an escape with a backslash is the end.
pub open spec fn handed_through(s: Seq<u8>) -> Option<(Seq<u8>, Seq<u8>)>
    decreases s.len(),
{
    if s.len() == 0 {
        None
    } else if s[0] != ESC {
        match handed_through(s.skip(1)) {
            Some((packet, later)) => Some((seq![s[0]] + packet, later)),
            None => None,
        }
    } else if s.len() > 1 && s[1] == ESC {
        match handed_through(s.skip(2)) {
            Some((packet, later)) => Some((seq![ESC] + packet, later)),
            None => None,
        }
    } else if s.len() > 1 && s[1] == BACKSLASH {
        Some((Seq::empty(), s.skip(2)))
    } else {
        None
    }
}

/// What tmux is given to hand a packet through: a start, the packet with its escapes doubled,
/// and an end.
pub open spec fn passed_through(packet: Seq<u8>) -> Seq<u8> {
    text("\x1bPtmux;") + escaped(packet) + text("\x1b\\")
}

/// A writer that hands what is written through tmux; `inner` holds what goes to tmux.
#[derive(Debug)]
pub struct TmuxWriter {
    inner: Vec<u8>,
    wrote_first: bool,
}

impl TmuxWriter {
    /// What goes to tmux so far.
    pub closed spec fn sent(&self) -> Seq<u8> {
        self.inner@
    }

    /// Whether a packet is open: begun and not yet flushed.
    pub closed spec fn is_open(&self) -> bool {
        self.wrote_first
    }

    /// A writer that adds to `inner`, with no packet open.
    pub fn new(inner: Vec<u8>) -> (r: TmuxWriter)
        ensures
            r.sent() == inner@,
            !r.is_open(),
    {
        TmuxWriter { inner, wrote_first: false }
    }

    /// Writes `buf` with its escapes doubled, behind a start where no packet is open. All of
    /// `buf` is taken.
    pub fn write(&mut self, buf: &[u8]) -> (r: usize)
        ensures
            r == buf@.len(),
            final(self).is_open(),
            final(self).sent() == old(self).sent() + (if old(self).is_open() {
                Seq::empty()
            } else {
                text("\x1bPtmux;")
            }) + escaped(buf@),
    {
        if !self.wrote_first {
            push_text(&mut self.inner, "\x1bPtmux;");
            self.wrote_first = true;
        }
        let ghost start = self.inner@;
        let mut last_esc: usize = 0;
        let mut idx: usize = 0;
        assert(buf@.take(0) =~= Seq::empty());
        assert(buf@.subrange(0, 0) =~= Seq::empty());
        while idx < buf.len()
            invariant
                last_esc <= idx <= buf@.len(),
                self.wrote_first,
                self.inner@ + buf@.subrange(last_esc as int, idx as int) == start + escaped(
                    buf@.take(idx as int),
                ),
            decreases buf.len() - idx,
        {
            let byte = buf[idx];
            let ghost pending = buf@.subrange(last_esc as int, idx as int);
            let ghost held = self.inner@;
            let ghost next = buf@.take(idx + 1);
            assert(next.drop_last() =~= buf@.take(idx as int));
            assert(next.last() == byte);
            if byte == ESC {
                let part = slice_subrange(buf, last_esc, idx);
                self.inner.extend_from_slice(part);
                self.inner.push(ESC);
                last_esc = idx;
                assert(buf@.subrange(last_esc as int, idx + 1) =~= seq![ESC]);
                assert(self.inner@ =~= (held + pending).push(ESC));
                assert(self.inner@ + seq![ESC] =~= (held + pending) + seq![ESC, ESC]);
            } else {
                assert(buf@.subrange(last_esc as int, idx + 1) =~= pending.push(byte));
                assert(held + pending.push(byte) =~= (held + pending) + seq![byte]);
            }
            idx += 1;
        }
        let part = slice_subrange(buf, last_esc, buf.len());
        assert(buf@.take(idx as int) =~= buf@);
        let ghost held = self.inner@;
        self.inner.extend_from_slice(part);
        assert(self.inner@ =~= held + part@);
        buf.len()
    }

    /// Closes the packet.
    pub fn flush(&mut self)
        ensures
            !final(self).is_open(),
            final(self).sent() == old(self).sent() + text("\x1b\\"),
    {
        push_text(&mut self.inner, "\x1b\\");
        self.wrote_first = false;
    }

    /// What goes to tmux.
    pub fn into_inner(self) -> (r: Vec<u8>)
        ensures
            r@ == self.sent(),
    {
        self.inner
    }
}

/// The bytes that bring a packet to the terminal: the packet itself, or what hands it through
/// tmux. An empty packet opens nothing.
pub open spec fn packet_bytes(packet: Seq<u8>, tmux_passthrough: bool) -> Seq<u8> {
    if !tmux_passthrough {
        packet
    } else if packet.len() == 0 {
        text("\x1b\\")
    } else {
        passed_through(packet)
    }
}

/// The bytes that bring a packet to the terminal.
pub fn write_kitty_packet(packet: &[u8], tmux_passthrough: bool) -> (r: Vec<u8>)
    ensures
        r@ == packet_bytes(packet@, tmux_passthrough),
{
    let mut out: Vec<u8> = Vec::new();
    if tmux_passthrough {
        let mut writer = TmuxWriter::new(out);
        if packet.len() > 0 {
            writer.write(packet);
        }
        writer.flush();
        let sent = writer.into_inner();
        proof {
            assert(Seq::<u8>::empty() + text("\x1bPtmux;") =~= text("\x1bPtmux;"));
            assert(Seq::<u8>::empty() + text("\x1b\\") =~= text("\x1b\\"));
        }
        sent
    } else {
        out.extend_from_slice(packet);
        assert(out@ =~= packet@);
        out
    }
}

/// Whether packets have to be handed through tmux: its variable is set and not empty.
pub open spec fn is_inside_tmux(tmux_env: Option<Seq<u8>>) -> bool {
    tmux_env matches Some(value) && value.len() > 0
}

/// Outside of tmux, where its variable is not set or empty, packets go out as they are; inside,
/// whatever the variable says, tmux hands them through.
pub proof fn lemma_inside_tmux(value: Seq<u8>, packet: Seq<u8>)
    ensures
        !is_inside_tmux(None),
        is_inside_tmux(Some(value)) <==> value.len() > 0,
        packet_bytes(packet, is_inside_tmux(None)) == packet,
        value.len() > 0 && packet.len() > 0 ==> packet_bytes(packet, is_inside_tmux(Some(value)))
            == passed_through(packet),
{
}

/// Whether packets have to be handed through tmux: its variable is set and not empty.
pub fn tmux_passthrough_needed(tmux_env: Option<&[u8]>) -> (r: bool)
    ensures
        r == is_inside_tmux(
            match tmux_env {
                Some(value) => Some(value@),
                None => None,
            },
        ),
        r == (tmux_env matches Some(value) && value@.len() > 0),
{
    match tmux_env {
        Some(value) => value.len() > 0,
        None => false,
    }
}

/// It does not matter how a packet is cut up into writes: writing one part after another sends
/// what writing them together sends.
pub proof fn lemma_escaped_parts(a: Seq<u8>, b: Seq<u8>)
    ensures
        escaped(a + b) == escaped(a) + escaped(b),
    decreases b.len(),
{
    if b.len() == 0 {
        assert(a + b =~= a);
        assert(escaped(a) + escaped(b) =~= escaped(a));
    } else {
        lemma_escaped_parts(a, b.drop_last());
        assert((a + b).drop_last() =~= a + b.drop_last());
        assert((a + b).last() == b.last());
    }
}

/// Doubling the escape in front of a text.
proof fn lemma_escaped_front(c: u8, s: Seq<u8>)
    ensures
        escaped(seq![c] + s) == (if c == ESC {
            seq![ESC, ESC]
        } else {
            seq![c]
        }) + escaped(s),
{
    lemma_escaped_parts(seq![c], s);
    reveal_with_fuel(escaped, 2);
    assert(seq![c].drop_last() =~= Seq::empty());
    assert(escaped(seq![c]) =~= (if c == ESC {
        seq![ESC, ESC]
    } else {
        seq![c]
    }));
}

/// The packet that tmux hands through is the packet that was written, and what is written behind
/// it is left alone.
pub proof fn lemma_hands_packet_through(packet: Seq<u8>, later: Seq<u8>)
    ensures
        handed_through(escaped(packet) + seq![ESC, BACKSLASH] + later) == Some((packet, later)),
        text("\x1b\\") == seq![ESC, BACKSLASH],
    decreases packet.len(),
{
    reveal_strlit("\x1b\\");
    is_ascii_chars_encode_utf8("\x1b\\"@);
    assert(text("\x1b\\") =~= seq![ESC, BACKSLASH]);
    let s = escaped(packet) + seq![ESC, BACKSLASH] + later;
    if packet.len() == 0 {
        assert(s.skip(2) =~= later);
        assert(packet =~= Seq::empty());
    } else {
        let rest = packet.skip(1);
        let tail = escaped(rest) + seq![ESC, BACKSLASH] + later;
        lemma_hands_packet_through(rest, later);
        lemma_escaped_front(packet[0], rest);
        assert(seq![packet[0]] + rest =~= packet);
        if packet[0] == ESC {
            assert(s.skip(2) =~= tail);
        } else {
            assert(s.skip(1) =~= tail);
        }
    }
}

/// What is written for a packet inside tmux reaches the terminal as the packet: behind the start,
/// tmux hands the packet through and nothing is left over.
pub proof fn lemma_packet_reaches_terminal(packet: Seq<u8>)
    requires
        packet.len() > 0,
    ensures
        ({
            let sent = packet_bytes(packet, true);
            let n = text("\x1bPtmux;").len() as int;
            &&& sent.take(n) == text("\x1bPtmux;")
            &&& handed_through(sent.skip(n)) == Some((packet, Seq::<u8>::empty()))
        }),
{
    let sent = packet_bytes(packet, true);
    let start = text("\x1bPtmux;");
    let n = start.len() as int;
    lemma_hands_packet_through(packet, Seq::empty());
    assert(sent.take(n) =~= start);
    assert(sent.skip(n) =~= escaped(packet) + seq![ESC, BACKSLASH] + Seq::empty());
}

} // verus!
