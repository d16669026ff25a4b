//! Reading a response out of the input events of the terminal.

use vstd::prelude::*;

use crate::kitty::error::InputErr;
use crate::text::chars_of;

verus! {

/// How long a request waits for its response, in milliseconds.
pub const RESPONSE_TIMEOUT_MS: u64 = 1000;

/// The shortest time to wait for a response, in milliseconds: long enough for a terminal to take
/// in a large page.
pub const MIN_RESPONSE_TIMEOUT_MS: u64 = 5000;

/// The time to wait where a caller asks for `timeout`: no less than `min_timeout`.
pub fn effective_timeout(timeout: u64, min_timeout: u64) -> (r: u64)
    ensures
        r >= timeout,
        r >= min_timeout,
        r == timeout || r == min_timeout,
{
    if timeout < min_timeout {
        min_timeout
    } else {
        timeout
    }
}

/// What the terminal's input gives next: its end, a failure, a key with its character and
/// whether it came with Alt, pasted text, or anything else. Alt stands for an escape before the
/// character.
#[derive(Debug)]
pub enum InputEvent<S = String> {
    End,
    Failed(InputErr),
    Key { ch: Option<char>, alt: bool },
    Paste(S),
    Other,
}

impl View for InputEvent {
    type V = InputEvent<Seq<char>>;

    open spec fn view(&self) -> InputEvent<Seq<char>> {
        match *self {
            InputEvent::End => InputEvent::End,
            InputEvent::Failed(e) => InputEvent::Failed(e),
            InputEvent::Key { ch, alt } => InputEvent::Key { ch, alt },
            InputEvent::Paste(s) => InputEvent::Paste(s@),
            InputEvent::Other => InputEvent::Other,
        }
    }
}

/// A text that is being read up to its second escape: the first one starts it.
#[derive(Debug)]
pub struct EscReader<S = String> {
    pub found_one_esc: bool,
    pub buf: S,
}

impl View for EscReader {
    type V = EscReader<Seq<char>>;

    open spec fn view(&self) -> EscReader<Seq<char>> {
        EscReader { found_one_esc: self.found_one_esc, buf: self.buf@ }
    }
}

/// The part of a text before its first escape character, or all of it.
pub open spec fn before_esc(s: Seq<char>) -> Seq<char>
    decreases s.len(),
{
    if s.len() == 0 || s[0] == '\x1b' {
        Seq::empty()
    } else {
        seq![s[0]] + before_esc(s.skip(1))
    }
}

impl EscReader<Seq<char>> {
    /// Whether an event ends the reading, and how.
    pub open spec fn ends(self, event: InputEvent<Seq<char>>) -> Option<Result<(), InputErr>> {
        match event {
            InputEvent::End => Some(Ok(())),
            InputEvent::Failed(e) => Some(Err(e)),
            InputEvent::Key { ch: Some(_), alt: true } => if self.found_one_esc {
                Some(Ok(()))
            } else {
                None
            },
            InputEvent::Key { .. } => None,
            InputEvent::Paste(s) => if s.contains('\x1b') {
                Some(Ok(()))
            } else {
                None
            },
            InputEvent::Other => None,
        }
    }

    /// What is held behind an event: a key adds its character unless it ends the reading, a
    /// paste adds what stands before its first escape.
    pub open spec fn after(self, event: InputEvent<Seq<char>>) -> EscReader<Seq<char>> {
        match event {
            InputEvent::Key { ch: Some(c), alt } => if self.ends(event) is Some {
                self
            } else {
                EscReader { found_one_esc: self.found_one_esc || alt, buf: self.buf.push(c) }
            },
            InputEvent::Paste(s) => EscReader { buf: self.buf + before_esc(s), ..self },
            _ => self,
        }
    }

    /// What a row of events gives: the text once the reading ends, and how it ends; nothing
    /// where it goes on.
    pub open spec fn read(self, events: Seq<InputEvent<Seq<char>>>) -> Option<
        (Seq<char>, Result<(), InputErr>),
    >
        decreases events.len(),
    {
        if events.len() == 0 {
            None
        } else {
            match self.ends(events[0]) {
                Some(how) => Some((self.after(events[0]).buf, how)),
                None => self.after(events[0]).read(events.drop_first()),
            }
        }
    }
}

/// A pasted text without an escape is added as a whole.
pub proof fn lemma_before_esc_all(s: Seq<char>)
    requires
        !s.contains('\x1b'),
    ensures
        before_esc(s) == s,
    decreases s.len(),
{
    if s.len() > 0 {
        assert(s.contains(s[0]));
        assert forall|i: int| 0 <= i < s.skip(1).len() implies s.skip(1)[i] != '\x1b' by {
            assert(s.contains(s[i + 1]));
        }
        lemma_before_esc_all(s.skip(1));
        assert(seq![s[0]] + s.skip(1) =~= s);
    } else {
        assert(s =~= Seq::empty());
    }
}

impl EscReader {
    /// A reader that has seen nothing and adds to `buf`.
    pub fn new(buf: String) -> (r: EscReader)
        ensures
            r@ == (EscReader { found_one_esc: false, buf: buf@ }),
    {
        EscReader { found_one_esc: false, buf }
    }

    /// Takes in the next event; says how the reading ends, where it does.
    pub fn feed(&mut self, event: InputEvent) -> (r: Option<Result<(), InputErr>>)
        ensures
            r == old(self)@.ends(event@),
            final(self)@ == old(self)@.after(event@),
    {
        match event {
            InputEvent::End => Some(Ok(())),
            InputEvent::Failed(e) => Some(Err(e)),
            InputEvent::Key { ch: Some(c), alt } => {
                if alt {
                    if self.found_one_esc {
                        return Some(Ok(()));
                    }
                    self.found_one_esc = true;
                }
                self.buf.push(c);
                None
            },
            InputEvent::Key { .. } => None,
            InputEvent::Paste(s) => {
                let chars = chars_of(s.as_str());
                let mut i: usize = 0;
                let ghost start = self.buf@;
                assert(chars@.skip(0) =~= chars@);
                assert(self.buf@ + before_esc(chars@) =~= start + before_esc(chars@));
                while i < chars.len()
                    invariant
                        i <= chars@.len(),
                        chars@ == s@,
                        old(self)@.buf == start,
                        event@ == InputEvent::Paste(s@),
                        self.found_one_esc == old(self).found_one_esc,
                        forall|j: int| 0 <= j < i ==> chars@[j] != '\x1b',
                        self.buf@ + before_esc(chars@.skip(i as int)) == start + before_esc(chars@),
                    decreases chars.len() - i,
                {
                    let c = chars[i];
                    let ghost rest = chars@.skip(i as int);
                    let ghost held = self.buf@;
                    if c == '\x1b' {
                        assert(s@.contains(s@[i as int]));
                        assert(self.buf@ =~= start + before_esc(chars@));
                        return Some(Ok(()));
                    }
                    self.buf.push(c);
                    i += 1;
                    assert(rest.skip(1) =~= chars@.skip(i as int));
                    assert(held + (seq![c] + before_esc(rest.skip(1))) =~= held.push(c)
                        + before_esc(rest.skip(1)));
                }
                assert(self.buf@ =~= start + before_esc(chars@));
                assert(!s@.contains('\x1b'));
                None
            },
            InputEvent::Other => None,
        }
    }
}

/// The events of a text that is typed without Alt.
pub open spec fn typed(s: Seq<char>) -> Seq<InputEvent<Seq<char>>> {
    s.map_values(|c: char| InputEvent::<Seq<char>>::Key { ch: Some(c), alt: false })
}

/// A text between two escapes is read back: the character behind the first escape and all that
/// follows, up to the second escape.
pub proof fn lemma_reads_between_escapes(
    first: char,
    s: Seq<char>,
    last: char,
    later: Seq<InputEvent<Seq<char>>>,
)
    ensures
        (EscReader { found_one_esc: false, buf: Seq::<char>::empty() }).read(
            seq![InputEvent::<Seq<char>>::Key { ch: Some(first), alt: true }] + typed(s).push(
                InputEvent::Key { ch: Some(last), alt: true },
            ) + later,
        ) == Some((seq![first] + s, Ok::<(), InputErr>(()))),
{
    let start = EscReader { found_one_esc: false, buf: Seq::<char>::empty() };
    let rest = typed(s).push(InputEvent::Key { ch: Some(last), alt: true }) + later;
    let events = seq![InputEvent::<Seq<char>>::Key { ch: Some(first), alt: true }] + typed(s).push(
        InputEvent::Key { ch: Some(last), alt: true },
    ) + later;
    assert(events.drop_first() =~= rest);
    assert(start.after(events[0]).buf =~= seq![first]);
    lemma_reads_to_escape(seq![first], s, last, later);
}

/// Typed characters are added until the second escape.
proof fn lemma_reads_to_escape(
    held: Seq<char>,
    s: Seq<char>,
    last: char,
    later: Seq<InputEvent<Seq<char>>>,
)
    ensures
        (EscReader { found_one_esc: true, buf: held }).read(
            typed(s).push(InputEvent::Key { ch: Some(last), alt: true }) + later,
        ) == Some((held + s, Ok::<(), InputErr>(()))),
    decreases s.len(),
{
    let reader = EscReader { found_one_esc: true, buf: held };
    let events = typed(s).push(InputEvent::Key { ch: Some(last), alt: true }) + later;
    if s.len() == 0 {
        assert(held + s =~= held);
        assert(events[0] == (InputEvent::<Seq<char>>::Key { ch: Some(last), alt: true }));
    } else {
        let rest = s.drop_first();
        lemma_reads_to_escape(held.push(s[0]), rest, last, later);
        assert(events[0] == (InputEvent::<Seq<char>>::Key { ch: Some(s[0]), alt: false }));
        assert(events.drop_first() =~= typed(rest).push(
            InputEvent::Key { ch: Some(last), alt: true },
        ) + later);
        assert(held.push(s[0]) + rest =~= held + s);
    }
}

/// A reading ends with the end of the input, with a failure, which it gives back, with a paste
/// that holds an escape, and with an escape behind the first one; nothing else ends it. What was
/// read is never taken back, and only characters that were typed or pasted are added.
pub proof fn lemma_reading(reader: EscReader<Seq<char>>, event: InputEvent<Seq<char>>)
    ensures
        ({
            let next = reader.after(event);
            &&& reader.ends(event) is None <==> match event {
                InputEvent::End | InputEvent::Failed(_) => false,
                InputEvent::Key { ch, alt } => !(ch is Some && alt && reader.found_one_esc),
                InputEvent::Paste(s) => !s.contains('\x1b'),
                InputEvent::Other => true,
            }
            &&& event matches InputEvent::Failed(e) ==> reader.ends(event) == Some(
                Err::<(), InputErr>(e),
            )
            &&& reader.ends(event) is Some && !(event is Failed) ==> reader.ends(event) == Some(
                Ok::<(), InputErr>(()),
            )
            &&& next.buf.take(reader.buf.len() as int) == reader.buf
            &&& next.buf.len() >= reader.buf.len()
            &&& reader.found_one_esc ==> next.found_one_esc
            &&& event matches InputEvent::Key { ch: Some(c), alt } ==> reader.ends(event) is Some
                || next.buf == reader.buf.push(c) && next.found_one_esc == (reader.found_one_esc
                || alt)
            &&& !(event is Paste) && !(event matches InputEvent::Key { ch: Some(_), .. }) ==> next
                == reader
        }),
{
    assert(reader.after(event).buf.take(reader.buf.len() as int) =~= reader.buf);
}

/// What is added of a paste is what stands before its first escape.
pub proof fn lemma_before_esc(s: Seq<char>)
    ensures
        before_esc(s).len() <= s.len(),
        s.take(before_esc(s).len() as int) == before_esc(s),
        !before_esc(s).contains('\x1b'),
        before_esc(s).len() < s.len() ==> s[before_esc(s).len() as int] == '\x1b',
    decreases s.len(),
{
    if s.len() == 0 || s[0] == '\x1b' {
        assert(s.take(0) =~= Seq::<char>::empty());
    } else {
        let rest = s.skip(1);
        lemma_before_esc(rest);
        let b = before_esc(s);
        let c = before_esc(rest);
        assert(b =~= seq![s[0]] + c);
        assert forall|i: int| 0 <= i < b.len() implies b[i] == s[i] && b[i] != '\x1b' by {
            if i > 0 {
                assert(c[i - 1] == rest.take(c.len() as int)[i - 1]);
                assert(rest[i - 1] == s[i]);
                assert(c.contains(c[i - 1]));
            }
        }
        assert(s.take(b.len() as int) =~= b);
    }
}

} // verus!
