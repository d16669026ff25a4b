//! What comes of what is typed.

use vstd::prelude::*;

use crate::text::digits;
use crate::text::is_digit;
use crate::text::lemma_decimal_round_trip;
use crate::text::lemma_digits_are_digits;
use crate::text::parsed_unsigned;
use crate::viewer::command::InputMode;
use crate::viewer::handle::shortened;
use crate::viewer::handle::AfterTurn;
use crate::viewer::handle::EventOutcome;
use crate::viewer::handle::Link;
use crate::viewer::handle::Next;
use crate::viewer::handle::PageTurn;
use crate::viewer::handle::PageView;
use crate::viewer::input::Event;
use crate::viewer::input::KeyCode;
use crate::viewer::keys::pressed;
use crate::viewer::keys::reacted;
use crate::viewer::react::answered;
use crate::viewer::react::lemma_on_links;
use crate::viewer::react::lemma_on_normal;
use crate::viewer::react::lemma_on_page;
use crate::viewer::react::lemma_on_search;
use crate::viewer::session::lemma_done_five;
use crate::viewer::session::lemma_done_none;
use crate::viewer::session::lemma_done_one;
use crate::viewer::session::lemma_done_six;
use crate::viewer::session::lemma_done_three;
use crate::viewer::session::lemma_done_two;
use crate::viewer::session::Renderer;
use crate::viewer::session::Session;
use crate::viewer::session::Status;

verus! {

/// The event of a character that is typed.
pub open spec fn key_of(c: char) -> Event {
    pressed(KeyCode::Char(c))
}

/// The events of a text that is typed.
pub open spec fn keys_of(typed: Seq<char>) -> Seq<Event>
    decreases typed.len(),
{
    if typed.len() == 0 {
        Seq::empty()
    } else {
        keys_of(typed.drop_last()).push(key_of(typed.last()))
    }
}

/// Typing a text is typing all but its last character, and that one.
proof fn lemma_keys_of(typed: Seq<char>)
    ensures
        typed.len() == 0 ==> keys_of(typed).len() == 0,
        typed.len() > 0 ==> keys_of(typed).len() > 0 && keys_of(typed).drop_last() == keys_of(
            typed.drop_last(),
        ) && keys_of(typed).last() == key_of(typed.last()),
{
    if typed.len() > 0 {
        assert(keys_of(typed) == keys_of(typed.drop_last()).push(key_of(typed.last())));
        assert(keys_of(typed).len() == keys_of(typed.drop_last()).len() + 1);
        assert(keys_of(typed).drop_last() =~= keys_of(typed.drop_last()));
    }
}

/// The session once events were reacted to, one after another.
pub open spec fn through(
    s: Session<()>,
    events: Seq<Event>,
    links: Seq<Link<Seq<char>>>,
    toc: Seq<usize>,
    v: PageView,
) -> Session<()>
    decreases events.len(),
{
    if events.len() == 0 {
        s
    } else {
        reacted(through(s, events.drop_last(), links, toc, v), events.last(), links, toc, v)
    }
}

/// Typing digits after `g` spells out a page number in the status bar, and changes nothing else.
#[verifier::rlimit(40)]
pub proof fn lemma_typing_page_number(
    s: Session<()>,
    typed: Seq<char>,
    links: Seq<Link<Seq<char>>>,
    toc: Seq<usize>,
    v: PageView,
)
    requires
        s.mode is Normal,
        forall|i: int| 0 <= i < typed.len() ==> is_digit(#[trigger] typed[i]),
    ensures
        through(
            reacted(s, pressed(KeyCode::Char('g')), links, toc, v),
            keys_of(typed),
            links,
            toc,
            v,
        ) == (Session {
            mode: InputMode::GoToPage(typed),
            status: Status::Text("go to page: "@ + typed),
            ..s
        }),
    decreases typed.len(),
{
    lemma_on_normal(links, toc, v);
    lemma_on_page(links, toc, v);
    let g = reacted(s, pressed(KeyCode::Char('g')), links, toc, v);
    lemma_done_two(s, answered(pressed(KeyCode::Char('g')), s.mode, links, toc, v).0);
    lemma_keys_of(typed);
    if typed.len() == 0 {
        assert(typed =~= Seq::<char>::empty());
        assert("go to page: "@ + typed =~= "go to page: "@);
    } else {
        let front = typed.drop_last();
        assert forall|i: int| 0 <= i < front.len() implies is_digit(#[trigger] front[i]) by {
            assert(front[i] == typed[i]);
        }
        lemma_typing_page_number(s, front, links, toc, v);
        let c = typed[typed.len() - 1];
        assert(is_digit(c));
        let before = through(g, keys_of(front), links, toc, v);
        lemma_done_two(before, answered(key_of(c), before.mode, links, toc, v).0);
        assert(front.push(c) =~= typed);
    }
}

/// A page number that is typed after `g` and confirmed turns to that page, counted from one, and
/// leads back to normal mode.
pub proof fn lemma_go_to_page(
    s: Session<()>,
    page: usize,
    links: Seq<Link<Seq<char>>>,
    toc: Seq<usize>,
    v: PageView,
)
    requires
        s.mode is Normal,
        page < usize::MAX,
    ensures
        ({
            let typed = through(
                reacted(s, pressed(KeyCode::Char('g')), links, toc, v),
                keys_of(digits((page + 1) as nat)),
                links,
                toc,
                v,
            );
            &&& answered(pressed(KeyCode::Enter), typed.mode, links, toc, v).1 == Next::Turn(
                PageTurn::To(page),
                AfterTurn::Hint,
            )
            &&& reacted(typed, pressed(KeyCode::Enter), links, toc, v) == Session {
                status: typed.status,
                ..s
            }
        }),
{
    lemma_on_page(links, toc, v);
    let n = (page + 1) as nat;
    lemma_digits_are_digits(n);
    lemma_decimal_round_trip(n, usize::MAX as nat);
    lemma_typing_page_number(s, digits(n), links, toc, v);
    let typed = through(
        reacted(s, pressed(KeyCode::Char('g')), links, toc, v),
        keys_of(digits(n)),
        links,
        toc,
        v,
    );
    lemma_done_one(typed, answered(pressed(KeyCode::Enter), typed.mode, links, toc, v).0);
}

/// Whatever is typed after `/` is the text to search for, and is shown as it is typed.
#[verifier::rlimit(40)]
pub proof fn lemma_typing_search(
    s: Session<()>,
    typed: Seq<char>,
    links: Seq<Link<Seq<char>>>,
    toc: Seq<usize>,
    v: PageView,
)
    requires
        s.mode is Normal,
    ensures
        through(
            reacted(s, pressed(KeyCode::Char('/')), links, toc, v),
            keys_of(typed),
            links,
            toc,
            v,
        ) == (Session {
            mode: InputMode::Search(typed),
            status: Status::Text("/"@ + typed),
            ..s
        }),
    decreases typed.len(),
{
    lemma_on_normal(links, toc, v);
    lemma_on_search(links, toc, v);
    let g = reacted(s, pressed(KeyCode::Char('/')), links, toc, v);
    lemma_done_two(s, answered(pressed(KeyCode::Char('/')), s.mode, links, toc, v).0);
    lemma_keys_of(typed);
    if typed.len() == 0 {
        assert(typed =~= Seq::<char>::empty());
        assert("/"@ + typed =~= "/"@);
    } else {
        let front = typed.drop_last();
        lemma_typing_search(s, front, links, toc, v);
        let c = typed.last();
        let before = through(g, keys_of(front), links, toc, v);
        lemma_done_two(before, answered(key_of(c), before.mode, links, toc, v).0);
        assert(front.push(c) =~= typed);
    }
}

/// A text that is typed after `/` and confirmed is what the renderer searches for, from the page
/// that is shown on; earlier results are forgotten. An empty text ends the search.
#[verifier::rlimit(60)]
pub proof fn lemma_search(
    s: Session<()>,
    typed: Seq<char>,
    links: Seq<Link<Seq<char>>>,
    toc: Seq<usize>,
    v: PageView,
)
    requires
        s.mode is Normal,
    ensures
        ({
            let asked = through(
                reacted(s, pressed(KeyCode::Char('/')), links, toc, v),
                keys_of(typed),
                links,
                toc,
                v,
            );
            let e = reacted(asked, pressed(KeyCode::Enter), links, toc, v);
            &&& e == Session {
                search_term: if typed.len() == 0 {
                    None
                } else {
                    Some(typed)
                },
                pending_jump: if typed.len() == 0 {
                    None
                } else {
                    Some(v.page)
                },
                has_results: s.has_results && typed.len() == 0,
                renderer: Renderer { search: typed, ..s.renderer },
                status: e.status,
                ..s
            }
            &&& typed.len() == 0 ==> e.status == Status::Hint
            &&& typed.len() > 0 ==> e.status == Status::Passing("searching..."@)
            &&& answered(pressed(KeyCode::Enter), asked.mode, links, toc, v).1 == Next::Finish(
                EventOutcome::Redraw,
            )
        }),
{
    lemma_on_search(links, toc, v);
    lemma_typing_search(s, typed, links, toc, v);
    let asked = through(
        reacted(s, pressed(KeyCode::Char('/')), links, toc, v),
        keys_of(typed),
        links,
        toc,
        v,
    );
    let c = answered(pressed(KeyCode::Enter), asked.mode, links, toc, v).0;
    if typed.len() == 0 {
        lemma_done_five(asked, c);
    } else {
        lemma_done_six(asked, c);
    }
}

/// Backspace takes back a character of a text to search for.
#[verifier::rlimit(40)]
proof fn lemma_backspace_search(
    s: Session<()>,
    c: char,
    links: Seq<Link<Seq<char>>>,
    toc: Seq<usize>,
    v: PageView,
)
    requires
        s.mode is Search,
        is_digit(c),
    ensures
        reacted(
            reacted(s, pressed(KeyCode::Char(c)), links, toc, v),
            pressed(KeyCode::Backspace),
            links,
            toc,
            v,
        ).mode == s.mode,
{
    lemma_on_search(links, toc, v);
    let key = pressed(KeyCode::Char(c));
    let back = pressed(KeyCode::Backspace);
    let before = match s.mode {
        InputMode::Search(t) => t,
        InputMode::GoToPage(t) => t,
        InputMode::Links { input } => input,
        _ => Seq::empty(),
    };
    assert(before.push(c).drop_last() =~= before);
    lemma_done_two(s, answered(key, s.mode, links, toc, v).0);
    let typed = reacted(s, key, links, toc, v);
    lemma_done_two(typed, answered(back, typed.mode, links, toc, v).0);
}

/// Backspace takes back a digit of a page number.
#[verifier::rlimit(40)]
proof fn lemma_backspace_page(
    s: Session<()>,
    c: char,
    links: Seq<Link<Seq<char>>>,
    toc: Seq<usize>,
    v: PageView,
)
    requires
        s.mode is GoToPage,
        is_digit(c),
    ensures
        reacted(
            reacted(s, pressed(KeyCode::Char(c)), links, toc, v),
            pressed(KeyCode::Backspace),
            links,
            toc,
            v,
        ).mode == s.mode,
{
    lemma_on_page(links, toc, v);
    let key = pressed(KeyCode::Char(c));
    let back = pressed(KeyCode::Backspace);
    let before = match s.mode {
        InputMode::Search(t) => t,
        InputMode::GoToPage(t) => t,
        InputMode::Links { input } => input,
        _ => Seq::empty(),
    };
    assert(before.push(c).drop_last() =~= before);
    lemma_done_two(s, answered(key, s.mode, links, toc, v).0);
    let typed = reacted(s, key, links, toc, v);
    lemma_done_two(typed, answered(back, typed.mode, links, toc, v).0);
}

/// Backspace takes back a digit of the number of a link.
#[verifier::rlimit(40)]
proof fn lemma_backspace_link(
    s: Session<()>,
    c: char,
    links: Seq<Link<Seq<char>>>,
    toc: Seq<usize>,
    v: PageView,
)
    requires
        s.mode is Links,
        is_digit(c),
    ensures
        reacted(
            reacted(s, pressed(KeyCode::Char(c)), links, toc, v),
            pressed(KeyCode::Backspace),
            links,
            toc,
            v,
        ).mode == s.mode,
{
    lemma_on_links(links, toc, v);
    let key = pressed(KeyCode::Char(c));
    let back = pressed(KeyCode::Backspace);
    let before = match s.mode {
        InputMode::Search(t) => t,
        InputMode::GoToPage(t) => t,
        InputMode::Links { input } => input,
        _ => Seq::empty(),
    };
    assert(before.push(c).drop_last() =~= before);
    lemma_done_one(s, answered(key, s.mode, links, toc, v).0);
    let typed = reacted(s, key, links, toc, v);
    lemma_done_one(typed, answered(back, typed.mode, links, toc, v).0);
}

/// What is left of a text without its last character.
proof fn lemma_shortened(t: Seq<char>)
    ensures
        shortened(t) == t.take(
            if t.len() == 0 {
                0
            } else {
                t.len() - 1
            },
        ),
{
    if t.len() == 0 {
        assert(shortened(t) =~= t.take(0));
    } else {
        assert(shortened(t) =~= t.take(t.len() - 1));
    }
}

/// Backspace takes back the character that was typed last, wherever something is typed; where
/// nothing is typed it changes nothing but the message.
#[verifier::rlimit(40)]
pub proof fn lemma_backspace(
    s: Session<()>,
    c: char,
    links: Seq<Link<Seq<char>>>,
    toc: Seq<usize>,
    v: PageView,
)
    requires
        s.mode is Search || s.mode is GoToPage || s.mode is Links,
        is_digit(c),
    ensures
        reacted(
            reacted(s, pressed(KeyCode::Char(c)), links, toc, v),
            pressed(KeyCode::Backspace),
            links,
            toc,
            v,
        ).mode == s.mode,
        ({
            let e = reacted(s, pressed(KeyCode::Backspace), links, toc, v);
            &&& e == Session { mode: e.mode, status: e.status, ..s }
            &&& match s.mode {
                InputMode::Search(t) => e.mode == InputMode::Search(
                    t.take(
                        if t.len() == 0 {
                            0
                        } else {
                            t.len() - 1
                        },
                    ),
                ) && (e.mode matches InputMode::Search(left) && e.status == Status::Text(
                    "/"@ + left,
                )),
                InputMode::GoToPage(t) => e.mode == InputMode::GoToPage(
                    t.take(
                        if t.len() == 0 {
                            0
                        } else {
                            t.len() - 1
                        },
                    ),
                ) && (e.mode matches InputMode::GoToPage(left) && e.status == Status::Text(
                    "go to page: "@ + left,
                )),
                InputMode::Links { input } => e.mode == (InputMode::Links {
                    input: input.take(
                        if input.len() == 0 {
                            0
                        } else {
                            input.len() - 1
                        },
                    ),
                }),
                _ => true,
            }
        }),
{
    let back = pressed(KeyCode::Backspace);
    match s.mode {
        InputMode::Search(t) => {
            lemma_backspace_search(s, c, links, toc, v);
            lemma_shortened(t);
            lemma_on_search(links, toc, v);
            lemma_done_two(s, answered(back, s.mode, links, toc, v).0);
        },
        InputMode::GoToPage(t) => {
            lemma_backspace_page(s, c, links, toc, v);
            lemma_shortened(t);
            lemma_on_page(links, toc, v);
            lemma_done_two(s, answered(back, s.mode, links, toc, v).0);
        },
        InputMode::Links { input } => {
            lemma_backspace_link(s, c, links, toc, v);
            lemma_shortened(input);
            lemma_on_links(links, toc, v);
            lemma_done_one(s, answered(back, s.mode, links, toc, v).0);
        },
        _ => {},
    }
}

/// The number of a link that is typed and confirmed follows that link, counted from one: to its
/// page, or, where it leads out of the document, by opening its address. Either way the links
/// are gone from the screen.
#[verifier::rlimit(40)]
pub proof fn lemma_follow_link(
    s: Session<()>,
    k: int,
    links: Seq<Link<Seq<char>>>,
    toc: Seq<usize>,
    v: PageView,
)
    requires
        0 <= k < links.len() < usize::MAX,
        s.mode == (InputMode::Links { input: digits((k + 1) as nat) }),
    ensures
        ({
            let r = answered(pressed(KeyCode::Enter), s.mode, links, toc, v);
            let e = reacted(s, pressed(KeyCode::Enter), links, toc, v);
            &&& e.mode is Normal
            &&& match links[k].page {
                Some(page) => {
                    &&& r.1 == Next::Turn(PageTurn::To(page), AfterTurn::Hint)
                    &&& e == Session { mode: InputMode::Normal, ..s }
                },
                None => {
                    &&& r.1 == Next::Finish(EventOutcome::Redraw)
                    &&& e == Session {
                        mode: InputMode::Normal,
                        opened: s.opened.push(links[k].uri),
                        status: Status::Passing("opened: "@ + links[k].uri),
                        ..s
                    }
                },
            }
        }),
{
    lemma_on_links(links, toc, v);
    lemma_decimal_round_trip((k + 1) as nat, usize::MAX as nat);
    let c = answered(pressed(KeyCode::Enter), s.mode, links, toc, v).0;
    if links[k].page is Some {
        lemma_done_one(s, c);
    } else {
        lemma_done_three(s, c);
    }
}

/// A number that no link has follows none, and the message says so; without a number the links
/// are closed.
pub proof fn lemma_no_such_link(
    s: Session<()>,
    n: nat,
    links: Seq<Link<Seq<char>>>,
    toc: Seq<usize>,
    v: PageView,
)
    requires
        n == 0 || n > links.len(),
        n <= usize::MAX,
        s.mode == (InputMode::Links { input: digits(n) }),
    ensures
        reacted(s, pressed(KeyCode::Enter), links, toc, v) == (Session {
            mode: InputMode::Normal,
            status: Status::Passing("invalid link number"@),
            ..s
        }),
        answered(pressed(KeyCode::Enter), s.mode, links, toc, v).1 == Next::Finish(
            EventOutcome::Redraw,
        ),
        answered(
            pressed(KeyCode::Enter),
            InputMode::Links { input: Seq::empty() },
            links,
            toc,
            v,
        ).1 == Next::Finish(EventOutcome::Redraw),
{
    lemma_on_links(links, toc, v);
    lemma_decimal_round_trip(n, usize::MAX as nat);
    lemma_done_two(s, answered(pressed(KeyCode::Enter), s.mode, links, toc, v).0);
}

/// Digits are added to the number of a link, and other characters are not.
pub proof fn lemma_typing_link_number(
    s: Session<()>,
    input: Seq<char>,
    c: char,
    links: Seq<Link<Seq<char>>>,
    toc: Seq<usize>,
    v: PageView,
)
    requires
        s.mode == (InputMode::Links { input }),
    ensures
        reacted(s, pressed(KeyCode::Char(c)), links, toc, v) == (if '0' <= c <= '9' {
            Session { mode: InputMode::Links { input: input.push(c) }, ..s }
        } else {
            s
        }),
{
    lemma_on_links(links, toc, v);
    if is_digit(c) {
        lemma_done_one(s, answered(pressed(KeyCode::Char(c)), s.mode, links, toc, v).0);
    } else {
        lemma_done_none(s, answered(pressed(KeyCode::Char(c)), s.mode, links, toc, v).0);
    }
}

/// Escape gives up whatever is typed, and nothing comes of it.
pub proof fn lemma_giving_up(
    s: Session<()>,
    links: Seq<Link<Seq<char>>>,
    toc: Seq<usize>,
    v: PageView,
)
    requires
        s.mode is Search || s.mode is GoToPage || s.mode is Links,
    ensures
        reacted(s, pressed(KeyCode::Esc), links, toc, v) == (Session {
            mode: InputMode::Normal,
            status: Status::Hint,
            ..s
        }),
{
    lemma_on_page(links, toc, v);
    lemma_on_search(links, toc, v);
    lemma_on_links(links, toc, v);
    lemma_done_two(s, answered(pressed(KeyCode::Esc), s.mode, links, toc, v).0);
}

/// Whatever is confirmed as a page number: where it is one, that page is turned to, counted from
/// one, and the first page for zero; where it is none, nothing is turned to, and the message says
/// so. Normal mode is back either way.
pub proof fn lemma_confirmed_page(
    s: Session<()>,
    text: Seq<char>,
    links: Seq<Link<Seq<char>>>,
    toc: Seq<usize>,
    v: PageView,
)
    requires
        s.mode == InputMode::<Seq<char>>::GoToPage(text),
    ensures
        ({
            let r = answered(pressed(KeyCode::Enter), s.mode, links, toc, v);
            let e = reacted(s, pressed(KeyCode::Enter), links, toc, v);
            match parsed_unsigned(text, usize::MAX as nat) {
                Some(n) => {
                    &&& r.1 matches Next::Turn(PageTurn::To(page), AfterTurn::Hint) && (page + 1
                        == n || page == 0 && n == 0)
                    &&& e == Session { mode: InputMode::Normal, ..s }
                },
                None => {
                    &&& r.1 == Next::Finish(EventOutcome::Redraw)
                    &&& e == Session {
                        mode: InputMode::Normal,
                        status: Status::Passing("invalid page number"@),
                        ..s
                    }
                },
            }
        }),
{
    lemma_on_page(links, toc, v);
    let c = answered(pressed(KeyCode::Enter), s.mode, links, toc, v).0;
    if parsed_unsigned(text, usize::MAX as nat) is Some {
        lemma_done_one(s, c);
    } else {
        lemma_done_two(s, c);
    }
}

/// Where no number of a link is typed, confirming closes the links, and nothing is followed.
pub proof fn lemma_confirmed_nothing(
    s: Session<()>,
    text: Seq<char>,
    links: Seq<Link<Seq<char>>>,
    toc: Seq<usize>,
    v: PageView,
)
    requires
        s.mode == (InputMode::Links { input: text }),
        parsed_unsigned(text, usize::MAX as nat) is None,
    ensures
        reacted(s, pressed(KeyCode::Enter), links, toc, v) == (Session {
            mode: InputMode::Normal,
            status: Status::Hint,
            ..s
        }),
        answered(pressed(KeyCode::Enter), s.mode, links, toc, v).1 == Next::Finish(
            EventOutcome::Redraw,
        ),
{
    lemma_on_links(links, toc, v);
    lemma_done_two(s, answered(pressed(KeyCode::Enter), s.mode, links, toc, v).0);
}

} // verus!
