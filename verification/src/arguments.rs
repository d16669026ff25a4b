//! What the arguments of a command line amount to, each by where it stands.

use vstd::prelude::*;

use crate::cli::all_hex;
use crate::cli::also_asked;
use crate::cli::arg_kind;
use crate::cli::behind_program;
use crate::cli::color_texts;
use crate::cli::color_value;
use crate::cli::hex_byte;
use crate::cli::hex_color;
use crate::cli::hex_digit;
use crate::cli::initial_state;
use crate::cli::lemma_also_asked;
use crate::cli::lemma_probe_is_unknown;
use crate::cli::page_of;
use crate::cli::parsed_args;
use crate::cli::parsed_rest;
use crate::cli::rgb_value;
use crate::cli::ArgKind;
use crate::cli::CliAction;
use crate::cli::CliError;
use crate::cli::CliOptions;
use crate::cli::CliState;
use crate::cli::MUPDF_BLACK;
use crate::cli::MUPDF_WHITE;
use crate::export::lemma_padded_digits;
use crate::export::lemma_padded_value;
use crate::export::lemma_same_digits;
use crate::export::zero_padded;
use crate::text::all_digits;
use crate::text::digits;
use crate::text::digits_value;
use crate::text::is_digit;
use crate::text::lemma_decimal_round_trip;
use crate::text::lemma_digits_are_digits;
use crate::text::parsed_unsigned;
use crate::text::without_plus;

verus! {

/// A command line that was read.
pub type Read = Result<CliAction<Seq<char>>, CliError<Seq<char>>>;

/// A colour that was read.
pub type Color = Result<[u8; 4], Seq<char>>;

/// Whether an argument asks for a value behind it.
pub open spec fn takes_value(arg: Seq<char>) -> bool {
    arg_kind(arg) == ArgKind::Page || is_color_option(arg)
}

/// Whether an argument asks for a colour behind it.
pub open spec fn is_color_option(arg: Seq<char>) -> bool {
    arg_kind(arg) == ArgKind::Black || arg_kind(arg) == ArgKind::White
}

/// Whether the argument at `i` is the value of the one before it.
pub open spec fn is_value(rest: Seq<Seq<char>>, i: int) -> bool
    decreases i,
{
    i > 0 && takes_value(rest[i - 1]) && !is_value(rest, i - 1)
}

/// Whether the argument at `i` stands for itself and is of a kind.
pub open spec fn is_of_kind(rest: Seq<Seq<char>>, i: int, kind: ArgKind) -> bool {
    !is_value(rest, i) && arg_kind(rest[i]) == kind
}

/// Whether no argument before `n` is of a kind.
pub open spec fn has_none(rest: Seq<Seq<char>>, n: int, kind: ArgKind) -> bool {
    forall|i: int| 0 <= i < n ==> !#[trigger] is_of_kind(rest, i, kind)
}

/// Whether the argument at `i` is the last of its kind before `n`.
pub open spec fn is_last(rest: Seq<Seq<char>>, n: int, kind: ArgKind, i: int) -> bool {
    &&& 0 <= i < n
    &&& is_of_kind(rest, i, kind)
    &&& forall|j: int| i < j < n ==> !#[trigger] is_of_kind(rest, j, kind)
}

/// How many colours are asked for before `i`.
pub open spec fn colors_before(rest: Seq<Seq<char>>, i: int) -> nat
    decreases i,
{
    if i <= 0 {
        0
    } else if !is_value(rest, i - 1) && is_color_option(rest[i - 1]) {
        colors_before(rest, i - 1) + 1
    } else {
        colors_before(rest, i - 1)
    }
}

/// Whether `page` is the page that the last page option before `n` asks for: one less than the
/// number behind it, and none where there is no such option.
pub open spec fn page_is(rest: Seq<Seq<char>>, n: int, page: Option<usize>) -> bool {
    match page {
        Some(page) => exists|i: int| #[trigger]
            is_last(rest, n, ArgKind::Page, i) && parsed_unsigned(rest[i + 1], usize::MAX as nat)
                == Some((page + 1) as nat),
        None => has_none(rest, n, ArgKind::Page),
    }
}

/// Whether `color` is the colour behind the last option of a kind before `n`, and `otherwise`
/// where there is no such option.
pub open spec fn color_is(
    rest: Seq<Seq<char>>,
    colors: Seq<Color>,
    n: int,
    kind: ArgKind,
    color: i32,
    otherwise: i32,
) -> bool {
    if has_none(rest, n, kind) {
        color == otherwise
    } else {
        exists|i: int| #[trigger]
            is_last(rest, n, kind, i) && colors_before(rest, i) < color_texts(rest).len()
                && color_texts(rest)[colors_before(rest, i) as int] == rest[i + 1] && (
            colors[colors_before(rest, i) as int] matches Ok(rgba) && color == rgb_value(rgba))
    }
}

/// Whether `file` is the one file among the arguments before `n`.
pub open spec fn file_is(rest: Seq<Seq<char>>, n: int, file: Option<Seq<char>>) -> bool {
    match file {
        Some(file) => exists|i: int| #[trigger]
            is_last(rest, n, ArgKind::File, i) && rest[i] == file && has_none(
                rest,
                i,
                ArgKind::File,
            ),
        None => has_none(rest, n, ArgKind::File),
    }
}

/// Whether a state is what the arguments before `n` ask for.
pub open spec fn is_asked(
    rest: Seq<Seq<char>>,
    colors: Seq<Color>,
    n: int,
    state: CliState<Seq<char>>,
) -> bool {
    &&& file_is(rest, n, state.file_path)
    &&& page_is(rest, n, state.page)
    &&& color_is(rest, colors, n, ArgKind::Black, state.black, MUPDF_BLACK)
    &&& color_is(rest, colors, n, ArgKind::White, state.white, MUPDF_WHITE)
    &&& state.invert_start <==> !has_none(rest, n, ArgKind::Invert)
    &&& state.export <==> !has_none(rest, n, ArgKind::Export)
}

/// What the argument at `i` comes to where it ends the reading: a request for help or for the
/// version, or an error.
pub open spec fn ends_with(rest: Seq<Seq<char>>, colors: Seq<Color>, i: int) -> Option<Read> {
    if is_value(rest, i) {
        None
    } else if takes_value(rest[i]) && i + 1 >= rest.len() {
        Some(Err(CliError::MissingValue(rest[i])))
    } else {
        match arg_kind(rest[i]) {
            ArgKind::Help => Some(Ok(CliAction::Help)),
            ArgKind::Version => Some(Ok(CliAction::Version)),
            ArgKind::Unknown => Some(Err(CliError::UnknownArgument(rest[i]))),
            ArgKind::File => if has_none(rest, i, ArgKind::File) {
                None
            } else {
                Some(Err(CliError::MultipleFiles))
            },
            ArgKind::Page => match parsed_unsigned(rest[i + 1], usize::MAX as nat) {
                None => Some(Err(CliError::InvalidPage(rest[i + 1]))),
                Some(n) => if n == 0 {
                    Some(Err(CliError::ZeroPage))
                } else {
                    None
                },
            },
            ArgKind::Black | ArgKind::White => match colors[colors_before(rest, i) as int] {
                Err(reason) => Some(
                    Err(CliError::InvalidColor { value: rest[i + 1], reason }),
                ),
                Ok(_) => None,
            },
            ArgKind::Invert | ArgKind::Export => None,
        }
    }
}

/// Whether no argument before `n` ends the reading.
pub open spec fn goes_on(rest: Seq<Seq<char>>, colors: Seq<Color>, n: int) -> bool {
    forall|i: int| 0 <= i < n ==> #[trigger] ends_with(rest, colors, i) is None
}

/// What a run is asked for, as a state.
pub open spec fn options_state(options: CliOptions<Seq<char>>) -> CliState<Seq<char>> {
    CliState {
        file_path: Some(options.file_path),
        invert_start: options.invert_start,
        black: options.black,
        white: options.white,
        page: options.page,
        export: options.export,
    }
}

/// Whether a result is what the arguments come to: the first that ends the reading decides, and
/// where none does, one file is run with all that is asked for.
pub open spec fn is_read(rest: Seq<Seq<char>>, colors: Seq<Color>, r: Read) -> bool {
    &&& forall|i: int|
        0 <= i < rest.len() && goes_on(rest, colors, i) && (#[trigger] ends_with(
            rest,
            colors,
            i,
        )) is Some ==> ends_with(rest, colors, i) == Some(r)
    &&& goes_on(rest, colors, rest.len() as int) ==> if has_none(
        rest,
        rest.len() as int,
        ArgKind::File,
    ) {
        r == Err::<CliAction<Seq<char>>, CliError<Seq<char>>>(CliError::NoFile)
    } else {
        r matches Ok(CliAction::Run(options)) && is_asked(
            rest,
            colors,
            rest.len() as int,
            options_state(options),
        )
    }
}

/// Where the reading stands once it has come to `k`.
spec fn stands_at(
    rest: Seq<Seq<char>>,
    colors: Seq<Color>,
    k: int,
    state: CliState<Seq<char>>,
) -> bool {
    let n = colors_before(rest, k) as int;
    &&& 0 <= k <= rest.len()
    &&& !is_value(rest, k)
    &&& goes_on(rest, colors, k)
    &&& is_asked(rest, colors, k, state)
    &&& n <= color_texts(rest).len() <= colors.len()
    &&& color_texts(rest).skip(n) == color_texts(rest.skip(k))
}

/// What one argument, with its value, changes about where the reading stands.
proof fn lemma_advance(rest: Seq<Seq<char>>, k: int)
    requires
        0 <= k < rest.len(),
        !is_value(rest, k),
        takes_value(rest[k]) ==> k + 1 < rest.len(),
    ensures
        ({
            let w: int = if takes_value(rest[k]) {
                2
            } else {
                1
            };
            &&& !is_value(rest, k + w)
            &&& w == 2 ==> is_value(rest, k + 1)
            &&& colors_before(rest, k + w) == colors_before(rest, k) + (if is_color_option(
                rest[k],
            ) {
                1nat
            } else {
                0nat
            })
            &&& rest.skip(k).skip(w) == rest.skip(k + w)
            &&& rest.skip(k)[0] == rest[k]
            &&& w == 2 ==> rest.skip(k)[1] == rest[k + 1]
        }),
{
    let w: int = if takes_value(rest[k]) {
        2
    } else {
        1
    };
    assert(rest.skip(k).skip(w) =~= rest.skip(k + w));
    assert(is_value(rest, k + 1) == takes_value(rest[k]));
    if w == 2 {
        assert(!is_value(rest, k + 2));
        assert(colors_before(rest, k + 2) == colors_before(rest, k + 1));
    }
}

/// Nothing of a kind comes with an argument of another kind.
proof fn lemma_other_kind(rest: Seq<Seq<char>>, k: int, n: int, kind: ArgKind)
    requires
        0 <= k < n <= k + 2,
        !is_of_kind(rest, k, kind),
        n == k + 2 ==> is_value(rest, k + 1),
    ensures
        has_none(rest, n, kind) <==> has_none(rest, k, kind),
        forall|i: int| is_last(rest, k, kind, i) ==> #[trigger] is_last(rest, n, kind, i),
{
    assert forall|j: int| k <= j < n implies !#[trigger] is_of_kind(rest, j, kind) by {
        if j == k + 1 {
            assert(is_value(rest, j));
        }
    }
    if has_none(rest, n, kind) {
        assert forall|j: int| 0 <= j < k implies !#[trigger] is_of_kind(rest, j, kind) by {}
    }
    if has_none(rest, k, kind) {
        assert forall|j: int| 0 <= j < n implies !#[trigger] is_of_kind(rest, j, kind) by {}
    }
}

/// An argument is the last of its kind where it was read last.
proof fn lemma_own_kind(rest: Seq<Seq<char>>, k: int, n: int, kind: ArgKind)
    requires
        0 <= k < n <= k + 2,
        is_of_kind(rest, k, kind),
        n == k + 2 ==> is_value(rest, k + 1),
    ensures
        !has_none(rest, n, kind),
        is_last(rest, n, kind, k),
{
    assert forall|j: int| k < j < n implies !#[trigger] is_of_kind(rest, j, kind) by {
        assert(is_value(rest, j));
    }
}

/// The page stays where another kind of argument is read.
proof fn lemma_same_page(rest: Seq<Seq<char>>, k: int, n: int, page: Option<usize>)
    requires
        0 <= k < n <= k + 2,
        !is_of_kind(rest, k, ArgKind::Page),
        n == k + 2 ==> is_value(rest, k + 1),
        page_is(rest, k, page),
    ensures
        page_is(rest, n, page),
{
    lemma_other_kind(rest, k, n, ArgKind::Page);
    if let Some(p) = page {
        let i = choose|i: int| #[trigger]
            is_last(rest, k, ArgKind::Page, i) && parsed_unsigned(rest[i + 1], usize::MAX as nat)
                == Some((p + 1) as nat);
        assert(is_last(rest, n, ArgKind::Page, i));
    }
}

/// A colour stays where another kind of argument is read.
proof fn lemma_same_color(
    rest: Seq<Seq<char>>,
    colors: Seq<Color>,
    k: int,
    n: int,
    kind: ArgKind,
    color: i32,
    otherwise: i32,
)
    requires
        0 <= k < n <= k + 2,
        !is_of_kind(rest, k, kind),
        n == k + 2 ==> is_value(rest, k + 1),
        color_is(rest, colors, k, kind, color, otherwise),
    ensures
        color_is(rest, colors, n, kind, color, otherwise),
{
    lemma_other_kind(rest, k, n, kind);
    if !has_none(rest, k, kind) {
        let i = choose|i: int| #[trigger]
            is_last(rest, k, kind, i) && colors_before(rest, i) < color_texts(rest).len()
                && color_texts(rest)[colors_before(rest, i) as int] == rest[i + 1] && (
            colors[colors_before(rest, i) as int] matches Ok(rgba) && color == rgb_value(rgba));
        assert(is_last(rest, n, kind, i));
    }
}

/// The file stays where another kind of argument is read.
proof fn lemma_same_file(rest: Seq<Seq<char>>, k: int, n: int, file: Option<Seq<char>>)
    requires
        0 <= k < n <= k + 2,
        !is_of_kind(rest, k, ArgKind::File),
        n == k + 2 ==> is_value(rest, k + 1),
        file_is(rest, k, file),
    ensures
        file_is(rest, n, file),
{
    lemma_other_kind(rest, k, n, ArgKind::File);
    if let Some(f) = file {
        let i = choose|i: int| #[trigger]
            is_last(rest, k, ArgKind::File, i) && rest[i] == f && has_none(
                rest,
                i,
                ArgKind::File,
            );
        assert(is_last(rest, n, ArgKind::File, i));
    }
}

/// What stays where an argument of a kind is read.
proof fn lemma_others_stay(
    rest: Seq<Seq<char>>,
    colors: Seq<Color>,
    k: int,
    n: int,
    state: CliState<Seq<char>>,
)
    requires
        0 <= k < n <= k + 2,
        !is_value(rest, k),
        n == k + 2 ==> is_value(rest, k + 1),
        is_asked(rest, colors, k, state),
    ensures
        arg_kind(rest[k]) != ArgKind::File ==> file_is(rest, n, state.file_path),
        arg_kind(rest[k]) != ArgKind::Page ==> page_is(rest, n, state.page),
        arg_kind(rest[k]) != ArgKind::Black ==> color_is(
            rest,
            colors,
            n,
            ArgKind::Black,
            state.black,
            MUPDF_BLACK,
        ),
        arg_kind(rest[k]) != ArgKind::White ==> color_is(
            rest,
            colors,
            n,
            ArgKind::White,
            state.white,
            MUPDF_WHITE,
        ),
        arg_kind(rest[k]) != ArgKind::Invert ==> (state.invert_start <==> !has_none(
            rest,
            n,
            ArgKind::Invert,
        )),
        arg_kind(rest[k]) != ArgKind::Export ==> (state.export <==> !has_none(
            rest,
            n,
            ArgKind::Export,
        )),
{
    let kind = arg_kind(rest[k]);
    if kind != ArgKind::File {
        lemma_same_file(rest, k, n, state.file_path);
    }
    if kind != ArgKind::Page {
        lemma_same_page(rest, k, n, state.page);
    }
    if kind != ArgKind::Black {
        lemma_same_color(rest, colors, k, n, ArgKind::Black, state.black, MUPDF_BLACK);
    }
    if kind != ArgKind::White {
        lemma_same_color(rest, colors, k, n, ArgKind::White, state.white, MUPDF_WHITE);
    }
    if kind != ArgKind::Invert {
        lemma_other_kind(rest, k, n, ArgKind::Invert);
    }
    if kind != ArgKind::Export {
        lemma_other_kind(rest, k, n, ArgKind::Export);
    }
}

/// Whether a file was read before is known from the state.
proof fn lemma_file_known(rest: Seq<Seq<char>>, k: int, file: Option<Seq<char>>)
    requires
        file_is(rest, k, file),
    ensures
        file is None <==> has_none(rest, k, ArgKind::File),
{
    if let Some(f) = file {
        let i = choose|i: int| #[trigger]
            is_last(rest, k, ArgKind::File, i) && rest[i] == f && has_none(
                rest,
                i,
                ArgKind::File,
            );
        assert(is_of_kind(rest, i, ArgKind::File));
    }
}

/// The state once the argument at `k`, which does not end the reading, was read.
spec fn state_behind(
    rest: Seq<Seq<char>>,
    colors: Seq<Color>,
    k: int,
    state: CliState<Seq<char>>,
) -> CliState<Seq<char>> {
    match arg_kind(rest[k]) {
        ArgKind::Invert => CliState { invert_start: true, ..state },
        ArgKind::Export => CliState { export: true, ..state },
        ArgKind::File => CliState { file_path: Some(rest[k]), ..state },
        ArgKind::Page => CliState { page: Some(page_of(rest[k + 1])->Ok_0), ..state },
        ArgKind::Black => CliState {
            black: rgb_value(colors[colors_before(rest, k) as int]->Ok_0),
            ..state
        },
        ArgKind::White => CliState {
            white: rgb_value(colors[colors_before(rest, k) as int]->Ok_0),
            ..state
        },
        _ => state,
    }
}

/// One argument further, the state is what the arguments so far ask for.
#[verifier::rlimit(30)]
proof fn lemma_reads_one(
    rest: Seq<Seq<char>>,
    colors: Seq<Color>,
    k: int,
    state: CliState<Seq<char>>,
)
    requires
        stands_at(rest, colors, k, state),
        k < rest.len(),
        ends_with(rest, colors, k) is None,
    ensures
        ({
            let n = if takes_value(rest[k]) {
                k + 2
            } else {
                k + 1
            };
            stands_at(rest, colors, n, state_behind(rest, colors, k, state))
        }),
{
    lemma_advance(rest, k);
    let two = takes_value(rest[k]);
    let n = if two {
        k + 2
    } else {
        k + 1
    };
    let kind = arg_kind(rest[k]);
    let c = colors_before(rest, k) as int;
    lemma_others_stay(rest, colors, k, n, state);
    lemma_own_kind(rest, k, n, kind);
    lemma_file_known(rest, k, state.file_path);
    let texts = color_texts(rest);
    let later = color_texts(rest.skip(k));
    if is_color_option(rest[k]) {
        assert(later == seq![rest[k + 1]] + color_texts(rest.skip(n)));
        assert(later[0] == rest[k + 1]);
        assert(texts.skip(c)[0] == texts[c]);
        assert(texts.skip(c + 1) =~= later.skip(1));
        assert(later.skip(1) =~= color_texts(rest.skip(n)));
    } else {
        assert(later == color_texts(rest.skip(n)));
    }
    let next = state_behind(rest, colors, k, state);
    assert(is_last(rest, n, kind, k));
    assert forall|i: int| 0 <= i < n implies #[trigger] ends_with(rest, colors, i) is None by {
        if i == k + 1 {
            assert(is_value(rest, i));
        }
    }
    if kind == ArgKind::File {
        assert(file_is(rest, n, next.file_path));
    }
    if kind == ArgKind::Page {
        assert(page_is(rest, n, next.page));
    }
}

/// From where the reading stands, it comes to what the arguments come to.
#[verifier::rlimit(30)]
proof fn lemma_reads_from(
    rest: Seq<Seq<char>>,
    colors: Seq<Color>,
    k: int,
    state: CliState<Seq<char>>,
)
    requires
        stands_at(rest, colors, k, state),
    ensures
        is_read(
            rest,
            colors,
            parsed_rest(rest.skip(k), colors.skip(colors_before(rest, k) as int), state),
        ),
    decreases rest.len() - k,
{
    let left = rest.skip(k);
    let c = colors_before(rest, k) as int;
    let r = parsed_rest(left, colors.skip(c), state);
    lemma_file_known(rest, k, state.file_path);
    if k == rest.len() {
        assert forall|i: int|
            0 <= i < rest.len() && goes_on(rest, colors, i) && (#[trigger] ends_with(
                rest,
                colors,
                i,
            )) is Some implies ends_with(rest, colors, i) == Some(r) by {
            assert(ends_with(rest, colors, i) is None);
        }
    } else if ends_with(rest, colors, k) is Some {
        assert(left[0] == rest[k]);
        if takes_value(rest[k]) && k + 1 < rest.len() {
            assert(left[1] == rest[k + 1]);
            if is_color_option(rest[k]) {
                lemma_color_is_there(rest, colors, k, state);
                assert(colors.skip(c)[0] == colors[c]);
            }
        }
        assert(ends_with(rest, colors, k) == Some(r));
        assert forall|i: int|
            0 <= i < rest.len() && goes_on(rest, colors, i) && (#[trigger] ends_with(
                rest,
                colors,
                i,
            )) is Some implies ends_with(rest, colors, i) == Some(r) by {
            if i < k {
                assert(ends_with(rest, colors, i) is None);
            } else if i > k {
                assert(ends_with(rest, colors, k) is None);
            }
        }
    } else {
        lemma_advance(rest, k);
        let n = if takes_value(rest[k]) {
            k + 2
        } else {
            k + 1
        };
        if is_color_option(rest[k]) {
            lemma_color_is_there(rest, colors, k, state);
            assert(colors.skip(c)[0] == colors[c]);
            assert(colors.skip(c).skip(1) =~= colors.skip(c + 1));
        }
        lemma_reads_one(rest, colors, k, state);
        lemma_reads_from(rest, colors, n, state_behind(rest, colors, k, state));
    }
}

/// A colour that is asked for with a value behind it was read.
proof fn lemma_color_is_there(
    rest: Seq<Seq<char>>,
    colors: Seq<Color>,
    k: int,
    state: CliState<Seq<char>>,
)
    requires
        stands_at(rest, colors, k, state),
        k + 1 < rest.len(),
        is_color_option(rest[k]),
    ensures
        colors_before(rest, k) < color_texts(rest).len() <= colors.len(),
{
    let left = rest.skip(k);
    assert(left[0] == rest[k]);
    assert(color_texts(left).len() > 0);
}

/// What a command line comes to. The first argument that ends the reading decides: a request for
/// help or for the version, or one that cannot be understood. Where there is none, the one file
/// is run, on the page behind the last page option and in the colours behind the last colour
/// options, wherever they stand; colours are inverted, and the page is exported, exactly where
/// some argument asks for that.
pub proof fn lemma_arguments(args: Seq<Seq<char>>, colors: Seq<Color>)
    requires
        !(args.len() == 3 && args[1] == "--probe-document"@),
        color_texts(behind_program(args)).len() <= colors.len(),
    ensures
        is_read(behind_program(args), colors, parsed_args(args, colors)),
{
    let rest = behind_program(args);
    assert(rest.skip(0) =~= rest);
    assert(colors.skip(0) =~= colors);
    assert(color_texts(rest).skip(0) =~= color_texts(rest));
    lemma_reads_from(rest, colors, 0, initial_state());
}

/// A document is probed exactly where that is asked for and nothing else is.
pub proof fn lemma_probe(args: Seq<Seq<char>>, colors: Seq<Color>)
    requires
        color_texts(behind_program(args)).len() <= colors.len(),
    ensures
        parsed_args(args, colors) matches Ok(CliAction::Probe(_)) <==> args.len() == 3 && args[1]
            == "--probe-document"@,
        parsed_args(args, colors) matches Ok(CliAction::Probe(path)) ==> path == args[2],
{
    if !(args.len() == 3 && args[1] == "--probe-document"@) {
        lemma_arguments(args, colors);
        let rest = behind_program(args);
        if !goes_on(rest, colors, rest.len() as int) {
            lemma_first_end(rest, colors, rest.len() as int);
        }
    }
}

/// Where some argument ends the reading, one of them is the first.
proof fn lemma_first_end(rest: Seq<Seq<char>>, colors: Seq<Color>, n: int)
    requires
        !goes_on(rest, colors, n),
    ensures
        exists|i: int|
            0 <= i < n && goes_on(rest, colors, i) && (#[trigger] ends_with(rest, colors, i)) is Some,
    decreases n,
{
    let i = choose|i: int| 0 <= i < n && (#[trigger] ends_with(rest, colors, i)) is Some;
    if !goes_on(rest, colors, i) {
        lemma_first_end(rest, colors, i);
    }
}

/// In a run, the page is one less than the number behind the last page option, and none exactly
/// where there is no such option.
pub proof fn lemma_last_page(args: Seq<Seq<char>>, colors: Seq<Color>)
    requires
        color_texts(behind_program(args)).len() <= colors.len(),
    ensures
        parsed_args(args, colors) matches Ok(CliAction::Run(options)) ==> page_is(
            behind_program(args),
            behind_program(args).len() as int,
            options.page,
        ),
{
    lemma_run(args, colors);
}

/// In a run, the colours are those behind the last option for each, and black and white where
/// there is no such option.
pub proof fn lemma_last_colors(args: Seq<Seq<char>>, colors: Seq<Color>)
    requires
        color_texts(behind_program(args)).len() <= colors.len(),
    ensures
        parsed_args(args, colors) matches Ok(CliAction::Run(options)) ==> {
            let rest = behind_program(args);
            &&& color_is(rest, colors, rest.len() as int, ArgKind::Black, options.black, 0)
            &&& color_is(rest, colors, rest.len() as int, ArgKind::White, options.white, 0xff_ffff)
        },
{
    lemma_run(args, colors);
}

/// A run is asked for by arguments none of which ends the reading, and is what they ask for.
pub proof fn lemma_run(args: Seq<Seq<char>>, colors: Seq<Color>)
    requires
        color_texts(behind_program(args)).len() <= colors.len(),
    ensures
        parsed_args(args, colors) matches Ok(CliAction::Run(options)) ==> {
            let rest = behind_program(args);
            &&& goes_on(rest, colors, rest.len() as int)
            &&& is_asked(rest, colors, rest.len() as int, options_state(options))
        },
{
    if let Ok(CliAction::Run(options)) = parsed_args(args, colors) {
        let rest = behind_program(args);
        lemma_arguments(args, colors);
        if !goes_on(rest, colors, rest.len() as int) {
            lemma_first_end(rest, colors, rest.len() as int);
        }
    }
}

/// An option without a value, between two whole arguments, adds what it asks for and changes
/// nothing else.
proof fn lemma_option_between(
    a: Seq<Seq<char>>,
    option: Seq<char>,
    b: Seq<Seq<char>>,
    colors: Seq<Color>,
    state: CliState<Seq<char>>,
)
    requires
        arg_kind(option) == ArgKind::Invert || arg_kind(option) == ArgKind::Export,
        !is_value(a.push(option), a.len() as int),
    ensures
        parsed_rest(a.push(option) + b, colors, state) == also_asked(
            parsed_rest(a + b, colors, state),
            arg_kind(option) == ArgKind::Invert,
            arg_kind(option) == ArgKind::Export,
        ),
    decreases a.len(),
{
    let with = a.push(option) + b;
    let without = a + b;
    let invert = arg_kind(option) == ArgKind::Invert;
    if a.len() == 0 {
        assert(without =~= b);
        assert(with[0] == option);
        assert(with.skip(1) =~= b);
        lemma_also_asked(b, colors, state, invert, !invert);
    } else {
        assert(with[0] == a[0] && without[0] == a[0]);
        assert(!is_value(a.push(option), 0));
        if takes_value(a[0]) {
            assert(a.push(option)[0] == a[0]);
            assert(is_value(a.push(option), 1));
            assert(!is_value(a.push(option), 2));
            assert(with[1] == a[1] && without[1] == a[1]);
            let later = a.skip(2);
            assert(with.skip(2) =~= later.push(option) + b);
            assert(without.skip(2) =~= later + b);
            lemma_values_shift(a.push(option), 2, later.len() as int);
            assert(a.push(option).skip(2) =~= later.push(option));
            let behind = match arg_kind(a[0]) {
                ArgKind::Page => CliState { page: Some(page_of(a[1])->Ok_0), ..state },
                ArgKind::Black => CliState {
                    black: color_value(a[1], colors[0])->Ok_0,
                    ..state
                },
                _ => CliState { white: color_value(a[1], colors[0])->Ok_0, ..state },
            };
            let left = if is_color_option(a[0]) {
                colors.skip(1)
            } else {
                colors
            };
            lemma_option_between(later, option, b, left, behind);
        } else {
            let later = a.skip(1);
            assert(with.skip(1) =~= later.push(option) + b);
            assert(without.skip(1) =~= later + b);
            lemma_values_shift(a.push(option), 1, later.len() as int);
            assert(a.push(option).skip(1) =~= later.push(option));
            let behind = match arg_kind(a[0]) {
                ArgKind::Invert => CliState { invert_start: true, ..state },
                ArgKind::Export => CliState { export: true, ..state },
                _ => CliState { file_path: Some(a[0]), ..state },
            };
            lemma_option_between(later, option, b, colors, behind);
        }
    }
}

/// What is a value among the arguments behind a whole one is a value among all of them.
proof fn lemma_values_shift(rest: Seq<Seq<char>>, k: int, i: int)
    requires
        0 <= k <= rest.len(),
        0 <= i < rest.len() - k,
        !is_value(rest, k),
    ensures
        is_value(rest.skip(k), i) == is_value(rest, k + i),
    decreases i,
{
    if i > 0 {
        lemma_values_shift(rest, k, i - 1);
        assert(rest.skip(k)[i - 1] == rest[k + i - 1]);
    }
}

/// An option that asks for inverted colours or for an export adds that and changes nothing else,
/// wherever among the arguments it stands, as long as it does not stand where the value of
/// another is expected. A request to probe a document is the one thing that has to stand alone.
pub proof fn lemma_option_anywhere(
    program: Seq<char>,
    a: Seq<Seq<char>>,
    option: Seq<char>,
    b: Seq<Seq<char>>,
    colors: Seq<Color>,
)
    requires
        arg_kind(option) == ArgKind::Invert || arg_kind(option) == ArgKind::Export,
        !is_value(a.push(option), a.len() as int),
        !((a + b).len() == 2 && (a + b)[0] == "--probe-document"@),
        !(a.len() == 1 && b.len() == 0 && a[0] == "--probe-document"@),
    ensures
        parsed_args(seq![program] + a.push(option) + b, colors) == also_asked(
            parsed_args(seq![program] + a + b, colors),
            arg_kind(option) == ArgKind::Invert,
            arg_kind(option) == ArgKind::Export,
        ),
{
    let with = seq![program] + a.push(option) + b;
    let without = seq![program] + a + b;
    lemma_probe_is_unknown();
    assert(with.skip(1) =~= a.push(option) + b);
    assert(without.skip(1) =~= a + b);
    assert(with[1] == (a.push(option) + b)[0]);
    if (a + b).len() > 0 {
        assert(without[1] == (a + b)[0]);
    }
    lemma_option_between(a, option, b, colors, initial_state());
}

/// The names of the options, and of nothing else.
pub proof fn lemma_option_names(arg: Seq<char>)
    ensures
        arg_kind(arg) == ArgKind::Invert <==> arg == "-i"@ || arg == "--invert"@,
        arg_kind(arg) == ArgKind::Export <==> arg == "-e"@ || arg == "--export"@,
        arg_kind(arg) == ArgKind::Help <==> arg == "-h"@ || arg == "--help"@,
        arg_kind(arg) == ArgKind::Version <==> arg == "--version"@,
        arg_kind(arg) == ArgKind::Page <==> arg == "-p"@ || arg == "--page"@,
        arg_kind(arg) == ArgKind::Black <==> arg == "-b"@ || arg == "--black-color"@,
        arg_kind(arg) == ArgKind::White <==> arg == "-w"@ || arg == "--white-color"@,
        arg_kind(arg) == ArgKind::File <==> arg.len() == 0 || arg[0] != '-',
{
    reveal_strlit("-i");
    reveal_strlit("--invert");
    reveal_strlit("-e");
    reveal_strlit("--export");
    reveal_strlit("-h");
    reveal_strlit("--help");
    reveal_strlit("--version");
    reveal_strlit("-p");
    reveal_strlit("--page");
    reveal_strlit("-b");
    reveal_strlit("--black-color");
    reveal_strlit("-w");
    reveal_strlit("--white-color");
    let letters = |s: Seq<char>| s[1];
    assert(letters("-i"@) == 'i' && letters("-e"@) == 'e' && letters("-h"@) == 'h');
    assert(letters("-p"@) == 'p' && letters("-b"@) == 'b' && letters("-w"@) == 'w');
    assert("--invert"@[2] == 'i' && "--export"@[2] == 'e' && "--help"@[2] == 'h');
    assert("--version"@[2] == 'v' && "--page"@[2] == 'p');
    assert("--black-color"@[2] == 'b' && "--white-color"@[2] == 'w');
}

/// Pages are counted from one on the command line: every number from one on stands for a page.
pub proof fn lemma_page_number(n: nat)
    requires
        n <= usize::MAX,
    ensures
        page_of(digits(n)) == (if n == 0 {
            Err::<usize, CliError<Seq<char>>>(CliError::ZeroPage)
        } else {
            Ok((n - 1) as usize)
        }),
{
    lemma_decimal_round_trip(n, usize::MAX as nat);
}

/// A colour is read back from its number byte by byte, red highest.
pub proof fn lemma_color_bytes(rgba: [u8; 4])
    ensures
        ({
            let v = rgb_value(rgba) as int;
            &&& v / 65536 == rgba@[0]
            &&& (v / 256) % 256 == rgba@[1]
            &&& v % 256 == rgba@[2]
        }),
{
}

/// A row of digits has at least as many as its number needs.
proof fn lemma_enough_digits(s: Seq<char>)
    requires
        s.len() > 0,
        all_digits(s),
    ensures
        digits(digits_value(s)).len() <= s.len(),
    decreases s.len(),
{
    let front = s.drop_last();
    let n = digits_value(s);
    assert(is_digit(s[s.len() - 1]));
    assert(n == digits_value(front) * 10 + (s.last() as nat - 48) as nat);
    if front.len() == 0 {
        assert(digits_value(front) == 0);
        assert(n < 10);
    } else {
        assert forall|i: int| 0 <= i < front.len() implies is_digit(#[trigger] front[i]) by {
            assert(front[i] == s[i]);
        }
        lemma_enough_digits(front);
        assert(n / 10 == digits_value(front));
    }
}

/// A text is read as a number exactly where it is the decimal text of that number, with any
/// number of zeros before it, with or without a plus sign before all, and the number is within
/// the bound.
pub proof fn lemma_number_text(s: Seq<char>, n: nat, max: nat)
    ensures
        parsed_unsigned(s, max) == Some(n) <==> n <= max && {
            let t = if s.len() > 0 && s[0] == '+' {
                s.skip(1)
            } else {
                s
            };
            t == zero_padded(digits(n), t.len())
        },
{
    let t = without_plus(s);
    if parsed_unsigned(s, max) == Some(n) {
        lemma_enough_digits(t);
        lemma_digits_are_digits(n);
        lemma_padded_value(n, t.len());
        lemma_padded_digits(digits(n), t.len());
        lemma_same_digits(t, zero_padded(digits(n), t.len()));
    }
    if n <= max && t == zero_padded(digits(n), t.len()) {
        lemma_padded_value(n, t.len());
        lemma_digits_are_digits(n);
        if t.len() < digits(n).len() {
            assert(zero_padded(digits(n), t.len()) == digits(n));
        }
        lemma_padded_digits(digits(n), t.len());
    }
}

/// The character of a hexadecimal digit, in lower case.
pub open spec fn hex_char(d: int) -> char {
    if d < 10 {
        (48 + d) as char
    } else {
        (87 + d) as char
    }
}

/// A colour that is written with two hexadecimal digits each for red, green and blue, high before
/// low, is read as those bytes, whether a number sign stands before it or not; the digits mean the
/// same in upper case.
pub proof fn lemma_hex_colors(red: u8, green: u8, blue: u8, d: int)
    requires
        10 <= d < 16,
    ensures
        ({
            let s = seq![
                hex_char(red as int / 16),
                hex_char(red as int % 16),
                hex_char(green as int / 16),
                hex_char(green as int % 16),
                hex_char(blue as int / 16),
                hex_char(blue as int % 16),
            ];
            &&& hex_color(s) matches Some(bytes) && bytes =~= seq![red, green, blue, 255u8]
            &&& hex_color(seq!['#'] + s) == hex_color(s)
        }),
        hex_digit((d + 55) as char) == hex_digit(hex_char(d)),
{
    let s = seq![
        hex_char(red as int / 16),
        hex_char(red as int % 16),
        hex_char(green as int / 16),
        hex_char(green as int % 16),
        hex_char(blue as int / 16),
        hex_char(blue as int % 16),
    ];
    assert((seq!['#'] + s).skip(1) =~= s);
    assert(s[0] != '#');
    assert forall|i: int| 0 <= i < s.len() implies hex_digit(#[trigger] s[i]) is Some by {}
    assert(hex_byte(s[0], s[1]) == red);
    assert(hex_byte(s[2], s[3]) == green);
    assert(hex_byte(s[4], s[5]) == blue);
}

/// A colour in short form is the colour in which every digit stands twice, with an opacity or
/// without; a colour without an opacity is opaque.
pub proof fn lemma_short_hex(a: char, b: char, c: char, d: char)
    requires
        hex_digit(a) is Some,
        hex_digit(b) is Some,
        hex_digit(c) is Some,
        hex_digit(d) is Some,
    ensures
        hex_color(seq![a, b, c]) == hex_color(seq![a, a, b, b, c, c]),
        hex_color(seq![a, b, c, d]) == hex_color(seq![a, a, b, b, c, c, d, d]),
        hex_color(seq![a, b, c]) == hex_color(seq![a, b, c, 'f']),
{
    let s3 = seq![a, b, c];
    let s4 = seq![a, b, c, d];
    let t4 = seq![a, b, c, 'f'];
    let s6 = seq![a, a, b, b, c, c];
    let s8 = seq![a, a, b, b, c, c, d, d];
    assert(s3[0] != '#' && s4[0] != '#' && t4[0] != '#' && s6[0] != '#' && s8[0] != '#');
    assert(all_hex(s3) && all_hex(s4) && all_hex(t4) && all_hex(s6) && all_hex(s8));
    assert(hex_byte('f', 'f') == 255);
    assert(hex_color(s3)->0 =~= hex_color(s6)->0);
    assert(hex_color(s4)->0 =~= hex_color(s8)->0);
    assert(hex_color(s3)->0 =~= hex_color(t4)->0);
}

} // verus!
