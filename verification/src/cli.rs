//! The command line: what it asks for, and what is said where it cannot be understood.

use vstd::prelude::*;

use crate::path::ascii_lower;
use crate::path::lower_text;
use crate::text::chars_of;
use crate::text::digits;
use crate::text::parse_unsigned;
use crate::text::parsed_unsigned;
use crate::text::same_text;

verus! {

/// The colour that black is drawn in unless another is asked for.
pub const MUPDF_BLACK: i32 = 0;

/// The colour that white is drawn in unless another is asked for.
pub const MUPDF_WHITE: i32 = 0xff_ffff;

/// What a viewer is asked to do with a document. `S` is the type of text: `String` at run time,
/// `Seq<char>` in contracts.
#[derive(Debug, PartialEq)]
pub struct CliOptions<S = String> {
    pub file_path: S,
    pub invert_start: bool,
    pub black: i32,
    pub white: i32,
    pub page: Option<usize>,
    pub export: bool,
}

/// What a command line asks for.
#[derive(Debug, PartialEq)]
pub enum CliAction<S = String> {
    Run(CliOptions<S>),
    Probe(S),
    Help,
    Version,
}

/// Why a command line cannot be understood.
#[derive(Debug, PartialEq)]
pub enum CliError<S = String> {
    MissingValue(S),
    MultipleFiles,
    UnknownArgument(S),
    NoFile,
    InvalidPage(S),
    ZeroPage,
    InvalidColor { value: S, reason: S },
}

impl View for CliOptions {
    type V = CliOptions<Seq<char>>;

    open spec fn view(&self) -> CliOptions<Seq<char>> {
        CliOptions {
            file_path: self.file_path@,
            invert_start: self.invert_start,
            black: self.black,
            white: self.white,
            page: self.page,
            export: self.export,
        }
    }
}

impl View for CliAction {
    type V = CliAction<Seq<char>>;

    open spec fn view(&self) -> CliAction<Seq<char>> {
        match *self {
            CliAction::Run(options) => CliAction::Run(options@),
            CliAction::Probe(path) => CliAction::Probe(path@),
            CliAction::Help => CliAction::Help,
            CliAction::Version => CliAction::Version,
        }
    }
}

impl View for CliError {
    type V = CliError<Seq<char>>;

    open spec fn view(&self) -> CliError<Seq<char>> {
        match *self {
            CliError::MissingValue(s) => CliError::MissingValue(s@),
            CliError::MultipleFiles => CliError::MultipleFiles,
            CliError::UnknownArgument(s) => CliError::UnknownArgument(s@),
            CliError::NoFile => CliError::NoFile,
            CliError::InvalidPage(s) => CliError::InvalidPage(s@),
            CliError::ZeroPage => CliError::ZeroPage,
            CliError::InvalidColor { value, reason } => {
                CliError::InvalidColor { value: value@, reason: reason@ }
            },
        }
    }
}

/// What `{:?}` of `std::fmt` gives for a text: the text between quotes, with what cannot be
/// printed escaped.
pub uninterp spec fn quoted_text(s: Seq<char>) -> Seq<char>;

/// `std::fmt::Debug` for `str`, through `format!`. The result has a name; nothing more is claimed
/// of it.
#[verifier::external_body]
fn quoted(s: &str) -> (r: String)
    ensures
        r@ == quoted_text(s@),
{
    format!("{s:?}")
}

impl CliError<Seq<char>> {
    /// The message that is shown for the error.
    pub open spec fn message(self) -> Seq<char> {
        match self {
            CliError::MissingValue(arg) => {
                "missing value for "@ + arg + "\nUsage: kitpdf [options] <file>"@
            },
            CliError::MultipleFiles => {
                "multiple input files provided\nUsage: kitpdf [options] <file>"@
            },
            CliError::UnknownArgument(arg) => {
                "unknown argument: "@ + arg + "\nUsage: kitpdf [options] <file>"@
            },
            CliError::NoFile => "Usage: kitpdf [options] <file>"@,
            CliError::InvalidPage(value) => "invalid page number: "@ + value,
            CliError::ZeroPage => "page number must be 1 or greater"@,
            CliError::InvalidColor { value, reason } => {
                "invalid color "@ + quoted_text(value) + ": "@ + reason
            },
        }
    }
}

impl CliError {
    /// The message that is shown for the error.
    pub fn to_text(&self) -> (r: String)
        ensures
            r@ == self@.message(),
    {
        match self {
            CliError::MissingValue(arg) => {
                "missing value for ".to_owned().concat(arg.as_str()).concat(
                    "\nUsage: kitpdf [options] <file>",
                )
            },
            CliError::MultipleFiles => {
                "multiple input files provided\nUsage: kitpdf [options] <file>".to_owned()
            },
            CliError::UnknownArgument(arg) => {
                "unknown argument: ".to_owned().concat(arg.as_str()).concat(
                    "\nUsage: kitpdf [options] <file>",
                )
            },
            CliError::NoFile => "Usage: kitpdf [options] <file>".to_owned(),
            CliError::InvalidPage(value) => {
                "invalid page number: ".to_owned().concat(value.as_str())
            },
            CliError::ZeroPage => "page number must be 1 or greater".to_owned(),
            CliError::InvalidColor { value, reason } => {
                "invalid color ".to_owned().concat(quoted(value.as_str()).as_str()).concat(
                    ": ",
                ).concat(reason.as_str())
            },
        }
    }
}

/// The page that a number stands for, counted from one on the command line and from zero inside.
pub open spec fn page_of(value: Seq<char>) -> Result<usize, CliError<Seq<char>>> {
    match parsed_unsigned(value, usize::MAX as nat) {
        None => Err(CliError::InvalidPage(value)),
        Some(n) => if n == 0 {
            Err(CliError::ZeroPage)
        } else {
            Ok((n - 1) as usize)
        },
    }
}

/// The page that a number stands for, counted from one on the command line and from zero inside.
pub fn parse_page_arg(value: &str) -> (r: Result<usize, CliError>)
    ensures
        page_of(value@) == (match r {
            Ok(page) => Ok(page),
            Err(e) => Err(e@),
        }),
{
    let chars = chars_of(value);
    match parse_unsigned(chars.as_slice(), usize::MAX as u64) {
        None => Err(CliError::InvalidPage(value.to_owned())),
        Some(n) => if n == 0 {
            Err(CliError::ZeroPage)
        } else {
            Ok((n - 1) as usize)
        },
    }
}

/// The value of a hexadecimal digit; nothing for any other character.
pub open spec fn hex_digit(c: char) -> Option<nat> {
    if '0' <= c <= '9' {
        Some((c as nat - 48) as nat)
    } else if 'a' <= c <= 'f' {
        Some((c as nat - 87) as nat)
    } else if 'A' <= c <= 'F' {
        Some((c as nat - 55) as nat)
    } else {
        None
    }
}

/// Whether a text consists of hexadecimal digits.
pub open spec fn all_hex(s: Seq<char>) -> bool {
    forall|i: int| 0 <= i < s.len() ==> hex_digit(#[trigger] s[i]) is Some
}

/// The byte that two hexadecimal digits stand for.
pub open spec fn hex_byte(high: char, low: char) -> u8 {
    (hex_digit(high)->0 * 16 + hex_digit(low)->0) as u8
}

/// The text behind a number sign at its start, or the whole text where there is none.
pub open spec fn without_sign(s: Seq<char>) -> Seq<char> {
    if s.len() > 0 && s[0] == '#' {
        s.skip(1)
    } else {
        s
    }
}

/// The colour that hexadecimal digits stand for, with or without a number sign before them: one
/// or two digits each for red, green and blue, and as many for the opacity or none. One digit
/// stands for the same digit twice.
pub open spec fn hex_color(s: Seq<char>) -> Option<Seq<u8>> {
    let d = without_sign(s);
    if !all_hex(d) {
        None
    } else if d.len() == 3 {
        Some(seq![hex_byte(d[0], d[0]), hex_byte(d[1], d[1]), hex_byte(d[2], d[2]), 255u8])
    } else if d.len() == 4 {
        Some(
            seq![
                hex_byte(d[0], d[0]),
                hex_byte(d[1], d[1]),
                hex_byte(d[2], d[2]),
                hex_byte(d[3], d[3]),
            ],
        )
    } else if d.len() == 6 {
        Some(seq![hex_byte(d[0], d[1]), hex_byte(d[2], d[3]), hex_byte(d[4], d[5]), 255u8])
    } else if d.len() == 8 {
        Some(
            seq![
                hex_byte(d[0], d[1]),
                hex_byte(d[2], d[3]),
                hex_byte(d[4], d[5]),
                hex_byte(d[6], d[7]),
            ],
        )
    } else {
        None
    }
}

/// Whether a text starts with a number sign and goes on in visible ASCII characters.
pub open spec fn is_signed(s: Seq<char>) -> bool {
    &&& s.len() > 0
    &&& s[0] == '#'
    &&& forall|i: int| 0 <= i < s.len() ==> '!' <= #[trigger] s[i] <= '~'
}

/// The red, green, blue and opacity bytes that hexadecimal digits stand for, and an error where
/// other visible characters follow a number sign.
pub open spec fn reads_hex(s: Seq<char>, color: Result<[u8; 4], Seq<char>>) -> bool {
    match hex_color(s) {
        Some(bytes) => color matches Ok(rgba) && rgba@ == bytes,
        None => is_signed(s) ==> (color matches Err(reason) && reason == "invalid hex format"@),
    }
}

/// The CSS form of the colour with these red, green and blue bytes.
pub open spec fn rgb_text(red: u8, green: u8, blue: u8) -> Seq<char> {
    "rgb("@ + digits(red as nat) + ", "@ + digits(green as nat) + ", "@ + digits(blue as nat)
        + ")"@
}

/// The CSS form of three bytes stands for them, without transparency.
pub open spec fn reads_rgb(s: Seq<char>, color: Result<[u8; 4], Seq<char>>) -> bool {
    forall|red: u8, green: u8, blue: u8|
        s == #[trigger] rgb_text(red, green, blue) ==> (color matches Ok(rgba) && rgba@ == seq![
            red,
            green,
            blue,
            255u8,
        ])
}

/// Whether a text cannot be the name of a colour: it holds a visible ASCII character that is no
/// letter, or is shorter or longer than any name. It is no other form of a colour either.
pub open spec fn is_no_color(s: Seq<char>) -> bool {
    &&& hex_color(s) is None
    &&& !s.contains('(')
    &&& s.len() > 0 ==> s[0] != '#'
    &&& forall|i: int| 0 <= i < s.len() ==> '!' <= #[trigger] s[i] <= '~'
    &&& s.len() < 3 || s.len() > 20 || exists|i: int|
        0 <= i < s.len() && !('a' <= ascii_lower(#[trigger] s[i]) <= 'z')
}

/// An error where a text cannot be the name of a colour.
pub open spec fn refuses_word(s: Seq<char>, color: Result<[u8; 4], Seq<char>>) -> bool {
    is_no_color(s) ==> (color matches Err(reason) && reason == "invalid unknown format"@)
}

/// Whether `word` stands somewhere in a text, in letters of either case.
pub open spec fn mentions(s: Seq<char>, word: Seq<char>) -> bool {
    exists|i: int|
        0 <= i <= s.len() - word.len() && #[trigger] lower_text(s).subrange(i, i + word.len())
            == word
}

/// Whether a text is a word, or one function without others in it, and asks for no colour space
/// and no angle that takes roots, powers or trigonometry to convert.
pub open spec fn is_plain(s: Seq<char>) -> bool {
    ||| !s.contains('(')
    ||| {
        &&& exists|i: int|
            0 <= i < s.len() && #[trigger] s[i] == '(' && !s.take(i).contains('(') && !s.skip(
                i + 1,
            ).contains('(')
        &&& !mentions(s, "lab"@)
        &&& !mentions(s, "lch"@)
        &&& !mentions(s, "linear"@)
        &&& !mentions(s, "xyz"@)
        &&& !mentions(s, "rad"@)
    }
}

/// What `csscolorparser::parse` and `csscolorparser::Color::to_rgba8` give for a text that is
/// plain: the red, green, blue and opacity bytes, or the text of the error.
pub uninterp spec fn plain_color(s: Seq<char>) -> Result<[u8; 4], Seq<char>>;

/// What may come of reading `s` as a colour. It is open only where `s` is not plain: how exactly
/// a colour of another colour space is converted depends on the machine.
pub open spec fn is_color_of(s: Seq<char>, color: Result<[u8; 4], Seq<char>>) -> bool {
    &&& reads_hex(s, color)
    &&& reads_rgb(s, color)
    &&& refuses_word(s, color)
    &&& is_plain(s) ==> color == plain_color(s)
}

/// A colour that was read, or the text of the error.
pub open spec fn color_view(color: Result<[u8; 4], String>) -> Result<[u8; 4], Seq<char>> {
    match color {
        Ok(rgba) => Ok(rgba),
        Err(e) => Err(e@),
    }
}

/// `csscolorparser::parse` and `csscolorparser::Color::to_rgba8`: the red, green, blue and alpha
/// bytes of a CSS colour, or the text of the error. Claimed in full is what the hexadecimal forms
/// and `rgb(` with three whole numbers give, that anything else behind a number sign is refused,
/// and that a word is refused unless it could be one of the named colours, which all consist of
/// three to twenty letters. What a plain text gives has a name: it takes a table of names and
/// numbers that are read, added, multiplied and divided as IEEE 754 fixes it. What is left open
/// are colours in `lab`, `lch`, `oklab`, `oklch`, linear and `xyz` coordinates, angles in
/// radians, and a function inside another: they go through roots, powers and trigonometry, whose
/// precision differs from one machine to another.
#[verifier::external_body]
fn css_color(s: &str) -> (r: Result<[u8; 4], String>)
    ensures
        reads_hex(s@, color_view(r)),
        reads_rgb(s@, color_view(r)),
        refuses_word(s@, color_view(r)),
        is_plain(s@) ==> color_view(r) == plain_color(s@),
{
    match csscolorparser::parse(s) {
        Ok(color) => Ok(color.to_rgba8()),
        Err(e) => Err(e.to_string()),
    }
}

/// The number that stands for a colour: the red, green and blue bytes, from high to low.
pub open spec fn rgb_value(rgba: [u8; 4]) -> i32 {
    (rgba@[0] * 65536 + rgba@[1] * 256 + rgba@[2]) as i32
}

/// What a colour argument stands for, once it was read as a colour or failed to be.
pub open spec fn color_value(value: Seq<char>, color: Result<[u8; 4], Seq<char>>) -> Result<
    i32,
    CliError<Seq<char>>,
> {
    match color {
        Ok(rgba) => Ok(rgb_value(rgba)),
        Err(reason) => Err(CliError::InvalidColor { value, reason }),
    }
}

/// What a colour argument stands for, once it was read as a colour or failed to be.
pub fn color_arg(value: &str, color: &Result<[u8; 4], String>) -> (r: Result<i32, CliError>)
    ensures
        color_value(value@, color_view(*color)) == (match r {
            Ok(v) => Ok(v),
            Err(e) => Err(e@),
        }),
        r matches Ok(v) ==> 0 <= v <= 0xff_ffff,
{
    match color {
        Ok(rgba) => Ok(rgba[0] as i32 * 65536 + rgba[1] as i32 * 256 + rgba[2] as i32),
        Err(reason) => Err(
            CliError::InvalidColor { value: value.to_owned(), reason: reason.clone() },
        ),
    }
}

/// The number that stands for a CSS colour.
pub fn parse_color(cs: &str) -> (r: Result<i32, CliError>)
    ensures
        exists|color: Result<[u8; 4], Seq<char>>|
            #[trigger] is_color_of(cs@, color) && color_value(cs@, color) == (match r {
                Ok(v) => Ok(v),
                Err(e) => Err(e@),
            }),
        is_plain(cs@) ==> color_value(cs@, plain_color(cs@)) == (match r {
            Ok(v) => Ok(v),
            Err(e) => Err(e@),
        }),
        hex_color(cs@) matches Some(bytes) ==> r == Ok::<i32, CliError>(
            (bytes[0] * 65536 + bytes[1] * 256 + bytes[2]) as i32,
        ),
        forall|red: u8, green: u8, blue: u8|
            cs@ == #[trigger] rgb_text(red, green, blue) ==> r == Ok::<i32, CliError>(
                (red * 65536 + green * 256 + blue) as i32,
            ),
        is_no_color(cs@) ==> (r matches Err(e) && e@ == CliError::InvalidColor {
            value: cs@,
            reason: "invalid unknown format"@,
        }),
        r matches Ok(v) ==> 0 <= v <= 0xff_ffff,
{
    let color = css_color(cs);
    assert(is_color_of(cs@, color_view(color)));
    color_arg(cs, &color)
}

/// What an argument is.
#[derive(Clone, Copy, Debug, PartialEq, Eq, Structural)]
pub enum ArgKind {
    Invert,
    Export,
    Help,
    Version,
    Page,
    Black,
    White,
    File,
    Unknown,
}

/// What an argument is: an option, a file where it does not start with a dash, or unknown.
pub open spec fn arg_kind(arg: Seq<char>) -> ArgKind {
    if arg == "-i"@ || arg == "--invert"@ {
        ArgKind::Invert
    } else if arg == "-e"@ || arg == "--export"@ {
        ArgKind::Export
    } else if arg == "-h"@ || arg == "--help"@ {
        ArgKind::Help
    } else if arg == "--version"@ {
        ArgKind::Version
    } else if arg == "-p"@ || arg == "--page"@ {
        ArgKind::Page
    } else if arg == "-b"@ || arg == "--black-color"@ {
        ArgKind::Black
    } else if arg == "-w"@ || arg == "--white-color"@ {
        ArgKind::White
    } else if arg.len() == 0 || arg[0] != '-' {
        ArgKind::File
    } else {
        ArgKind::Unknown
    }
}

/// What an argument is.
fn kind_of(arg: &str) -> (r: ArgKind)
    ensures
        r == arg_kind(arg@),
{
    let chars = chars_of(arg);
    let c = chars.as_slice();
    if same_text(c, "-i") || same_text(c, "--invert") {
        ArgKind::Invert
    } else if same_text(c, "-e") || same_text(c, "--export") {
        ArgKind::Export
    } else if same_text(c, "-h") || same_text(c, "--help") {
        ArgKind::Help
    } else if same_text(c, "--version") {
        ArgKind::Version
    } else if same_text(c, "-p") || same_text(c, "--page") {
        ArgKind::Page
    } else if same_text(c, "-b") || same_text(c, "--black-color") {
        ArgKind::Black
    } else if same_text(c, "-w") || same_text(c, "--white-color") {
        ArgKind::White
    } else if c.len() == 0 || c[0] != '-' {
        ArgKind::File
    } else {
        ArgKind::Unknown
    }
}

/// What the arguments read so far ask for.
pub struct CliState<S = String> {
    pub file_path: Option<S>,
    pub invert_start: bool,
    pub black: i32,
    pub white: i32,
    pub page: Option<usize>,
    pub export: bool,
}

impl View for CliState {
    type V = CliState<Seq<char>>;

    open spec fn view(&self) -> CliState<Seq<char>> {
        CliState {
            file_path: match self.file_path {
                Some(s) => Some(s@),
                None => None,
            },
            invert_start: self.invert_start,
            black: self.black,
            white: self.white,
            page: self.page,
            export: self.export,
        }
    }
}

/// What is asked for before any argument is read.
pub open spec fn initial_state() -> CliState<Seq<char>> {
    CliState {
        file_path: None,
        invert_start: false,
        black: MUPDF_BLACK,
        white: MUPDF_WHITE,
        page: None,
        export: false,
    }
}

/// The arguments that are to be read as colours, in order.
pub open spec fn color_texts(rest: Seq<Seq<char>>) -> Seq<Seq<char>>
    decreases rest.len(),
{
    if rest.len() == 0 {
        Seq::empty()
    } else {
        match arg_kind(rest[0]) {
            ArgKind::Black | ArgKind::White => if rest.len() < 2 {
                Seq::empty()
            } else {
                seq![rest[1]] + color_texts(rest.skip(2))
            },
            ArgKind::Page => if rest.len() < 2 {
                Seq::empty()
            } else {
                color_texts(rest.skip(2))
            },
            ArgKind::Help | ArgKind::Version | ArgKind::Unknown => Seq::empty(),
            ArgKind::Invert | ArgKind::Export | ArgKind::File => color_texts(rest.skip(1)),
        }
    }
}

/// What the arguments from the first to the last ask for; `colors` are the colours that were
/// read, in order. The first error stands, and a request for help or for the version ends the
/// reading.
pub open spec fn parsed_rest(
    rest: Seq<Seq<char>>,
    colors: Seq<Result<[u8; 4], Seq<char>>>,
    state: CliState<Seq<char>>,
) -> Result<CliAction<Seq<char>>, CliError<Seq<char>>>
    decreases rest.len(),
{
    if rest.len() == 0 {
        match state.file_path {
            None => Err(CliError::NoFile),
            Some(file_path) => Ok(
                CliAction::Run(
                    CliOptions {
                        file_path,
                        invert_start: state.invert_start,
                        black: state.black,
                        white: state.white,
                        page: state.page,
                        export: state.export,
                    },
                ),
            ),
        }
    } else {
        match arg_kind(rest[0]) {
            ArgKind::Invert => parsed_rest(
                rest.skip(1),
                colors,
                CliState { invert_start: true, ..state },
            ),
            ArgKind::Export => parsed_rest(
                rest.skip(1),
                colors,
                CliState { export: true, ..state },
            ),
            ArgKind::Help => Ok(CliAction::Help),
            ArgKind::Version => Ok(CliAction::Version),
            ArgKind::Page => if rest.len() < 2 {
                Err(CliError::MissingValue(rest[0]))
            } else {
                match page_of(rest[1]) {
                    Err(e) => Err(e),
                    Ok(page) => parsed_rest(
                        rest.skip(2),
                        colors,
                        CliState { page: Some(page), ..state },
                    ),
                }
            },
            ArgKind::Black => if rest.len() < 2 {
                Err(CliError::MissingValue(rest[0]))
            } else {
                match color_value(rest[1], colors[0]) {
                    Err(e) => Err(e),
                    Ok(black) => parsed_rest(
                        rest.skip(2),
                        colors.skip(1),
                        CliState { black, ..state },
                    ),
                }
            },
            ArgKind::White => if rest.len() < 2 {
                Err(CliError::MissingValue(rest[0]))
            } else {
                match color_value(rest[1], colors[0]) {
                    Err(e) => Err(e),
                    Ok(white) => parsed_rest(
                        rest.skip(2),
                        colors.skip(1),
                        CliState { white, ..state },
                    ),
                }
            },
            ArgKind::File => if state.file_path is Some {
                Err(CliError::MultipleFiles)
            } else {
                parsed_rest(
                    rest.skip(1),
                    colors,
                    CliState { file_path: Some(rest[0]), ..state },
                )
            },
            ArgKind::Unknown => Err(CliError::UnknownArgument(rest[0])),
        }
    }
}

/// The arguments behind the name of the program.
pub open spec fn behind_program(args: Seq<Seq<char>>) -> Seq<Seq<char>> {
    if args.len() == 0 {
        Seq::empty()
    } else {
        args.skip(1)
    }
}

/// What a command line asks for, given the colours that were read.
pub open spec fn parsed_args(
    args: Seq<Seq<char>>,
    colors: Seq<Result<[u8; 4], Seq<char>>>,
) -> Result<CliAction<Seq<char>>, CliError<Seq<char>>> {
    if args.len() == 3 && args[1] == "--probe-document"@ {
        Ok(CliAction::Probe(args[2]))
    } else {
        parsed_rest(behind_program(args), colors, initial_state())
    }
}

/// The texts of arguments.
pub open spec fn arg_texts(args: Seq<String>) -> Seq<Seq<char>> {
    args.map_values(|s: String| s@)
}

/// The colours that were read.
pub open spec fn color_views(colors: Seq<Result<[u8; 4], String>>) -> Seq<
    Result<[u8; 4], Seq<char>>,
> {
    colors.map_values(|c: Result<[u8; 4], String>| color_view(c))
}

/// The result of reading a command line, with texts for strings.
pub open spec fn cli_view(r: Result<CliAction, CliError>) -> Result<
    CliAction<Seq<char>>,
    CliError<Seq<char>>,
> {
    match r {
        Ok(action) => Ok(action@),
        Err(e) => Err(e@),
    }
}

/// Reads the arguments that stand for colours, in order.
fn read_colors(args: &[String]) -> (r: Vec<Result<[u8; 4], String>>)
    ensures
        r@.len() == color_texts(behind_program(arg_texts(args@))).len(),
        forall|i: int|
            0 <= i < r@.len() ==> is_color_of(
                color_texts(behind_program(arg_texts(args@)))[i],
                color_view(#[trigger] r@[i]),
            ),
{
    let ghost all = behind_program(arg_texts(args@));
    let ghost expected = color_texts(all);
    let mut out: Vec<Result<[u8; 4], String>> = Vec::new();
    let mut i: usize = 1;
    if args.len() == 0 {
        return out;
    }
    assert(all.skip(0) =~= all);
    assert(expected.skip(0) =~= expected);
    while i < args.len()
        invariant
            1 <= i <= args@.len(),
            all == arg_texts(args@).skip(1),
            expected == color_texts(all),
            out@.len() <= expected.len(),
            color_texts(all.skip(i - 1)) == expected.skip(out@.len() as int),
            forall|j: int|
                0 <= j < out@.len() ==> is_color_of(expected[j], color_view(#[trigger] out@[j])),
        decreases args.len() - i,
    {
        let ghost rest = all.skip(i - 1);
        assert(rest[0] == args@[i as int]@);
        assert(rest.skip(1) =~= all.skip(i as int));
        let kind = kind_of(args[i].as_str());
        assert(kind == arg_kind(rest[0]));
        match kind {
            ArgKind::Black | ArgKind::White => {
                if args.len() - i < 2 {
                    assert(color_texts(rest).len() == 0);
                    return out;
                }
                assert(rest[1] == args@[i + 1]@);
                assert(rest.skip(2) =~= all.skip(i + 1));
                let ghost k = out@.len() as int;
                assert(color_texts(rest).len() >= 1);
                assert(expected.skip(k)[0] == rest[1]);
                assert(expected[k] == rest[1]);
                out.push(css_color(args[i + 1].as_str()));
                assert(expected.skip(k).skip(1) =~= expected.skip(k + 1));
                assert(color_texts(rest).skip(1) =~= color_texts(rest.skip(2)));
                i += 2;
            },
            ArgKind::Page => {
                if args.len() - i < 2 {
                    return out;
                }
                assert(rest.skip(2) =~= all.skip(i + 1));
                i += 2;
            },
            ArgKind::Help | ArgKind::Version | ArgKind::Unknown => {
                return out;
            },
            ArgKind::Invert | ArgKind::Export | ArgKind::File => {
                i += 1;
            },
        }
    }
    assert(all.skip(i - 1).len() == 0);
    out
}

/// What a command line asks for, given the colours that were read out of it.
pub fn parse_cli_args_with_colors(args: &[String], colors: &[Result<[u8; 4], String>]) -> (r:
    Result<CliAction, CliError>)
    requires
        colors@.len() == color_texts(behind_program(arg_texts(args@))).len(),
    ensures
        cli_view(r) == parsed_args(arg_texts(args@), color_views(colors@)),
{
    if args.len() == 3 {
        let flag = chars_of(args[1].as_str());
        if same_text(flag.as_slice(), "--probe-document") {
            return Ok(CliAction::Probe(args[2].clone()));
        }
    }
    let mut state = CliState {
        file_path: None,
        invert_start: false,
        black: MUPDF_BLACK,
        white: MUPDF_WHITE,
        page: None,
        export: false,
    };
    if args.len() == 0 {
        return Err(CliError::NoFile);
    }
    let ghost all = behind_program(arg_texts(args@));
    let ghost read = color_views(colors@);
    let mut i: usize = 1;
    let mut next_color: usize = 0;
    assert(all.skip(0) =~= all);
    assert(read.skip(0) =~= read);
    while i < args.len()
        invariant
            1 <= i <= args@.len(),
            all == arg_texts(args@).skip(1),
            read == color_views(colors@),
            next_color <= colors@.len(),
            color_texts(all.skip(i - 1)).len() == colors@.len() - next_color,
            parsed_rest(all.skip(i - 1), read.skip(next_color as int), state@) == parsed_rest(
                all,
                read,
                initial_state(),
            ),
            parsed_rest(all, read, initial_state()) == parsed_args(
                arg_texts(args@),
                color_views(colors@),
            ),
        decreases args.len() - i,
    {
        let ghost rest = all.skip(i - 1);
        assert(rest[0] == args@[i as int]@);
        assert(rest.skip(1) =~= all.skip(i as int));
        let arg = args[i].as_str();
        match kind_of(arg) {
            ArgKind::Invert => {
                state.invert_start = true;
                i += 1;
            },
            ArgKind::Export => {
                state.export = true;
                i += 1;
            },
            ArgKind::Help => {
                return Ok(CliAction::Help);
            },
            ArgKind::Version => {
                return Ok(CliAction::Version);
            },
            ArgKind::Page => {
                if args.len() - i < 2 {
                    return Err(CliError::MissingValue(args[i].clone()));
                }
                assert(rest[1] == args@[i + 1]@);
                assert(rest.skip(2) =~= all.skip(i + 1));
                match parse_page_arg(args[i + 1].as_str()) {
                    Ok(page) => {
                        state.page = Some(page);
                    },
                    Err(e) => {
                        return Err(e);
                    },
                }
                i += 2;
            },
            ArgKind::Black => {
                if args.len() - i < 2 {
                    return Err(CliError::MissingValue(args[i].clone()));
                }
                assert(rest[1] == args@[i + 1]@);
                assert(rest.skip(2) =~= all.skip(i + 1));
                assert(read.skip(next_color as int)[0] == color_view(colors@[next_color as int]));
                assert(read.skip(next_color as int).skip(1) =~= read.skip(next_color + 1));
                match color_arg(args[i + 1].as_str(), &colors[next_color]) {
                    Ok(black) => {
                        state.black = black;
                    },
                    Err(e) => {
                        return Err(e);
                    },
                }
                next_color += 1;
                i += 2;
            },
            ArgKind::White => {
                if args.len() - i < 2 {
                    return Err(CliError::MissingValue(args[i].clone()));
                }
                assert(rest[1] == args@[i + 1]@);
                assert(rest.skip(2) =~= all.skip(i + 1));
                assert(read.skip(next_color as int)[0] == color_view(colors@[next_color as int]));
                assert(read.skip(next_color as int).skip(1) =~= read.skip(next_color + 1));
                match color_arg(args[i + 1].as_str(), &colors[next_color]) {
                    Ok(white) => {
                        state.white = white;
                    },
                    Err(e) => {
                        return Err(e);
                    },
                }
                next_color += 1;
                i += 2;
            },
            ArgKind::File => {
                if state.file_path.is_some() {
                    return Err(CliError::MultipleFiles);
                }
                state.file_path = Some(args[i].clone());
                i += 1;
            },
            ArgKind::Unknown => {
                return Err(CliError::UnknownArgument(args[i].clone()));
            },
        }
    }
    assert(all.skip(i - 1).len() == 0);
    match state.file_path {
        None => Err(CliError::NoFile),
        Some(file_path) => Ok(
            CliAction::Run(
                CliOptions {
                    file_path,
                    invert_start: state.invert_start,
                    black: state.black,
                    white: state.white,
                    page: state.page,
                    export: state.export,
                },
            ),
        ),
    }
}

/// Whether each of these texts is plain.
pub open spec fn all_plain(texts: Seq<Seq<char>>) -> bool {
    forall|i: int| 0 <= i < texts.len() ==> is_plain(#[trigger] texts[i])
}

/// What plain texts give as colours.
pub open spec fn plain_colors(texts: Seq<Seq<char>>) -> Seq<Result<[u8; 4], Seq<char>>> {
    texts.map_values(|s: Seq<char>| plain_color(s))
}

/// What a command line asks for. Colours are read as CSS colours; all that is not a colour, and
/// every colour that is a plain text, has exactly one meaning.
pub fn parse_cli_args(args: &[String]) -> (r: Result<CliAction, CliError>)
    ensures
        exists|colors: Seq<Result<[u8; 4], Seq<char>>>|
            are_colors_of(color_texts(behind_program(arg_texts(args@))), colors) && cli_view(r)
                == #[trigger] parsed_args(arg_texts(args@), colors),
        all_plain(color_texts(behind_program(arg_texts(args@)))) ==> cli_view(r) == parsed_args(
            arg_texts(args@),
            plain_colors(color_texts(behind_program(arg_texts(args@)))),
        ),
{
    let colors = read_colors(args);
    proof {
        let texts = color_texts(behind_program(arg_texts(args@)));
        if all_plain(texts) {
            assert(color_views(colors@) =~= plain_colors(texts));
        }
    }
    assert(are_colors_of(
        color_texts(behind_program(arg_texts(args@))),
        color_views(colors@),
    ));
    parse_cli_args_with_colors(args, colors.as_slice())
}

/// What may come of reading texts as colours, one after another.
pub open spec fn are_colors_of(
    texts: Seq<Seq<char>>,
    colors: Seq<Result<[u8; 4], Seq<char>>>,
) -> bool {
    &&& colors.len() == texts.len()
    &&& forall|i: int| 0 <= i < texts.len() ==> is_color_of(texts[i], #[trigger] colors[i])
}

/// The same result, with colours inverted from the start, or with an export, in addition to what
/// a run was asked for.
pub open spec fn also_asked(
    r: Result<CliAction<Seq<char>>, CliError<Seq<char>>>,
    invert: bool,
    export: bool,
) -> Result<CliAction<Seq<char>>, CliError<Seq<char>>> {
    match r {
        Ok(CliAction::Run(options)) => Ok(
            CliAction::Run(
                CliOptions {
                    invert_start: options.invert_start || invert,
                    export: options.export || export,
                    ..options
                },
            ),
        ),
        _ => r,
    }
}

/// What was asked for before changes nothing but itself.
pub proof fn lemma_also_asked(
    rest: Seq<Seq<char>>,
    colors: Seq<Result<[u8; 4], Seq<char>>>,
    state: CliState<Seq<char>>,
    invert: bool,
    export: bool,
)
    ensures
        parsed_rest(
            rest,
            colors,
            (CliState {
                invert_start: state.invert_start || invert,
                export: state.export || export,
                ..state
            }),
        ) == also_asked(parsed_rest(rest, colors, state), invert, export),
    decreases rest.len(),
{
    if rest.len() > 0 {
        match arg_kind(rest[0]) {
            ArgKind::Invert => lemma_also_asked(
                rest.skip(1),
                colors,
                CliState { invert_start: true, ..state },
                invert,
                export,
            ),
            ArgKind::Export => lemma_also_asked(
                rest.skip(1),
                colors,
                CliState { export: true, ..state },
                invert,
                export,
            ),
            ArgKind::File => lemma_also_asked(
                rest.skip(1),
                colors,
                CliState { file_path: Some(rest[0]), ..state },
                invert,
                export,
            ),
            ArgKind::Page => {
                if rest.len() >= 2 {
                    if let Ok(page) = page_of(rest[1]) {
                        lemma_also_asked(
                            rest.skip(2),
                            colors,
                            CliState { page: Some(page), ..state },
                            invert,
                            export,
                        );
                    }
                }
            },
            ArgKind::Black => {
                if rest.len() >= 2 {
                    if let Ok(black) = color_value(rest[1], colors[0]) {
                        lemma_also_asked(
                            rest.skip(2),
                            colors.skip(1),
                            CliState { black, ..state },
                            invert,
                            export,
                        );
                    }
                }
            },
            ArgKind::White => {
                if rest.len() >= 2 {
                    if let Ok(white) = color_value(rest[1], colors[0]) {
                        lemma_also_asked(
                            rest.skip(2),
                            colors.skip(1),
                            CliState { white, ..state },
                            invert,
                            export,
                        );
                    }
                }
            },
            _ => {},
        }
    }
}

/// An option that asks for inverted colours or for an export, in front of all other arguments,
/// adds that and changes nothing else. A request to probe a document is the one thing that has
/// to stand alone.
pub proof fn lemma_option_in_front(
    program: Seq<char>,
    option: Seq<char>,
    rest: Seq<Seq<char>>,
    colors: Seq<Result<[u8; 4], Seq<char>>>,
)
    requires
        arg_kind(option) == ArgKind::Invert || arg_kind(option) == ArgKind::Export,
        !(rest.len() == 2 && rest[0] == "--probe-document"@),
    ensures
        parsed_args(seq![program, option] + rest, colors) == also_asked(
            parsed_args(seq![program] + rest, colors),
            arg_kind(option) == ArgKind::Invert,
            arg_kind(option) == ArgKind::Export,
        ),
{
    let invert = arg_kind(option) == ArgKind::Invert;
    let with = seq![program, option] + rest;
    let without = seq![program] + rest;
    lemma_probe_is_unknown();
    assert(with[1] == option);
    assert(rest.len() > 0 ==> without[1] == rest[0]);
    assert(without.skip(1) =~= rest);
    assert(with.skip(1) =~= seq![option] + rest);
    assert((seq![option] + rest).skip(1) =~= rest);
    assert((seq![option] + rest)[0] == option);
    lemma_also_asked(rest, colors, initial_state(), invert, !invert);
}

/// The request to probe a document is no option of a run.
pub proof fn lemma_probe_is_unknown()
    ensures
        arg_kind("--probe-document"@) == ArgKind::Unknown,
{
    reveal_strlit("--probe-document");
    reveal_strlit("-i");
    reveal_strlit("--invert");
    reveal_strlit("-e");
    reveal_strlit("--export");
    reveal_strlit("-h");
    reveal_strlit("--help");
    reveal_strlit("--version");
    reveal_strlit("-p");
    reveal_strlit("--page");
    reveal_strlit("-b");
    reveal_strlit("--black-color");
    reveal_strlit("-w");
    reveal_strlit("--white-color");
    assert("--probe-document"@.len() == 16);
}

/// A file behind the arguments of a run is one too many.
proof fn lemma_rest_and_file(
    rest: Seq<Seq<char>>,
    colors: Seq<Result<[u8; 4], Seq<char>>>,
    state: CliState<Seq<char>>,
    file: Seq<char>,
)
    requires
        arg_kind(file) == ArgKind::File,
        parsed_rest(rest, colors, state) matches Ok(CliAction::Run(_)),
    ensures
        parsed_rest(rest.push(file), colors, state) == Err::<
            CliAction<Seq<char>>,
            CliError<Seq<char>>,
        >(CliError::MultipleFiles),
    decreases rest.len(),
{
    let more = rest.push(file);
    if rest.len() > 0 {
        assert(more[0] == rest[0]);
        assert(more.skip(1) =~= rest.skip(1).push(file));
        if rest.len() >= 2 {
            assert(more[1] == rest[1]);
            assert(more.skip(2) =~= rest.skip(2).push(file));
        }
        match arg_kind(rest[0]) {
            ArgKind::Invert => lemma_rest_and_file(
                rest.skip(1),
                colors,
                CliState { invert_start: true, ..state },
                file,
            ),
            ArgKind::Export => lemma_rest_and_file(
                rest.skip(1),
                colors,
                CliState { export: true, ..state },
                file,
            ),
            ArgKind::File => lemma_rest_and_file(
                rest.skip(1),
                colors,
                CliState { file_path: Some(rest[0]), ..state },
                file,
            ),
            ArgKind::Page => lemma_rest_and_file(
                rest.skip(2),
                colors,
                CliState { page: Some(page_of(rest[1])->Ok_0), ..state },
                file,
            ),
            ArgKind::Black => lemma_rest_and_file(
                rest.skip(2),
                colors.skip(1),
                CliState { black: color_value(rest[1], colors[0])->Ok_0, ..state },
                file,
            ),
            ArgKind::White => lemma_rest_and_file(
                rest.skip(2),
                colors.skip(1),
                CliState { white: color_value(rest[1], colors[0])->Ok_0, ..state },
                file,
            ),
            _ => {},
        }
    } else {
        assert(more[0] == file);
    }
}

/// A command line that runs the viewer names one file: with a further file behind it, it is
/// refused.
pub proof fn lemma_one_file(
    args: Seq<Seq<char>>,
    colors: Seq<Result<[u8; 4], Seq<char>>>,
    file: Seq<char>,
)
    requires
        arg_kind(file) == ArgKind::File,
        parsed_args(args, colors) matches Ok(CliAction::Run(_)),
    ensures
        parsed_args(args.push(file), colors) == Err::<CliAction<Seq<char>>, CliError<Seq<char>>>(
            CliError::MultipleFiles,
        ),
{
    let rest = behind_program(args);
    lemma_probe_is_unknown();
    lemma_rest_and_file(rest, colors, initial_state(), file);
    assert(args.push(file).skip(1) =~= rest.push(file));
    if args.len() == 2 {
        assert(args.push(file)[1] == rest[0]);
    }
}

/// A viewer is run only on a file that the command line names, an argument that does not start
/// with a dash, and with colours that have nothing above the red byte.
pub proof fn lemma_run_has_file(
    args: Seq<Seq<char>>,
    colors: Seq<Result<[u8; 4], Seq<char>>>,
)
    ensures
        parsed_args(args, colors) matches Ok(CliAction::Run(options)) ==> {
            &&& exists|i: int|
                1 <= i < args.len() && #[trigger] args[i] == options.file_path && arg_kind(args[i])
                    == ArgKind::File
            &&& 0 <= options.black <= 0xff_ffff
            &&& 0 <= options.white <= 0xff_ffff
        },
{
    lemma_rest_has_file(behind_program(args), colors, initial_state());
    if let Ok(CliAction::Run(options)) = parsed_args(args, colors) {
        let rest = behind_program(args);
        let i = choose|i: int|
            0 <= i < rest.len() && #[trigger] rest[i] == options.file_path && arg_kind(rest[i])
                == ArgKind::File;
        assert(args[i + 1] == rest[i]);
    }
}

/// The file of a run is one of the arguments that are still to be read, or was found before.
proof fn lemma_rest_has_file(
    rest: Seq<Seq<char>>,
    colors: Seq<Result<[u8; 4], Seq<char>>>,
    state: CliState<Seq<char>>,
)
    requires
        0 <= state.black <= 0xff_ffff,
        0 <= state.white <= 0xff_ffff,
    ensures
        parsed_rest(rest, colors, state) matches Ok(CliAction::Run(options)) ==> {
            &&& state.file_path == Some(options.file_path) || exists|i: int|
                0 <= i < rest.len() && #[trigger] rest[i] == options.file_path && arg_kind(rest[i])
                    == ArgKind::File
            &&& 0 <= options.black <= 0xff_ffff
            &&& 0 <= options.white <= 0xff_ffff
        },
    decreases rest.len(),
{
    if rest.len() > 0 {
        match arg_kind(rest[0]) {
            ArgKind::Invert => {
                lemma_rest_has_file(
                    rest.skip(1),
                    colors,
                    CliState { invert_start: true, ..state },
                );
                lemma_later_file(rest, 1, parsed_rest(rest, colors, state));
            },
            ArgKind::Export => {
                lemma_rest_has_file(rest.skip(1), colors, CliState { export: true, ..state });
                lemma_later_file(rest, 1, parsed_rest(rest, colors, state));
            },
            ArgKind::File => {
                lemma_rest_has_file(
                    rest.skip(1),
                    colors,
                    CliState { file_path: Some(rest[0]), ..state },
                );
                lemma_later_file(rest, 1, parsed_rest(rest, colors, state));
            },
            ArgKind::Page => {
                if rest.len() >= 2 {
                    if let Ok(page) = page_of(rest[1]) {
                        lemma_rest_has_file(
                            rest.skip(2),
                            colors,
                            CliState { page: Some(page), ..state },
                        );
                        lemma_later_file(rest, 2, parsed_rest(rest, colors, state));
                    }
                }
            },
            ArgKind::Black => {
                if rest.len() >= 2 {
                    if let Ok(black) = color_value(rest[1], colors[0]) {
                        lemma_rest_has_file(
                            rest.skip(2),
                            colors.skip(1),
                            CliState { black, ..state },
                        );
                        lemma_later_file(rest, 2, parsed_rest(rest, colors, state));
                    }
                }
            },
            ArgKind::White => {
                if rest.len() >= 2 {
                    if let Ok(white) = color_value(rest[1], colors[0]) {
                        lemma_rest_has_file(
                            rest.skip(2),
                            colors.skip(1),
                            CliState { white, ..state },
                        );
                        lemma_later_file(rest, 2, parsed_rest(rest, colors, state));
                    }
                }
            },
            _ => {},
        }
    }
}

/// A file among the later arguments is among all of them.
proof fn lemma_later_file(
    rest: Seq<Seq<char>>,
    n: int,
    parsed: Result<CliAction<Seq<char>>, CliError<Seq<char>>>,
)
    requires
        0 <= n <= rest.len(),
    ensures
        parsed matches Ok(CliAction::Run(options)) ==> ((exists|i: int|
            0 <= i < rest.skip(n).len() && #[trigger] rest.skip(n)[i] == options.file_path
                && arg_kind(rest.skip(n)[i]) == ArgKind::File) ==> exists|i: int|
            0 <= i < rest.len() && #[trigger] rest[i] == options.file_path && arg_kind(rest[i])
                == ArgKind::File),
{
    if let Ok(CliAction::Run(options)) = parsed {
        if exists|i: int|
            0 <= i < rest.skip(n).len() && #[trigger] rest.skip(n)[i] == options.file_path
                && arg_kind(rest.skip(n)[i]) == ArgKind::File {
            let i = choose|i: int|
                0 <= i < rest.skip(n).len() && #[trigger] rest.skip(n)[i] == options.file_path
                    && arg_kind(rest.skip(n)[i]) == ArgKind::File;
            assert(rest[i + n] == rest.skip(n)[i]);
        }
    }
}

/// The help text behind the name and the version of the program.
pub open spec fn usage_body() -> Seq<char> {
    " — terminal PDF/EPUB viewer (Kitty graphics protocol)

USAGE:
    kitpdf [options] <file>

ARGUMENTS:
    <file>                    PDF or EPUB file to open

OPTIONS:
    -p, --page <N>            Start on page N (1-indexed; ignores saved page)
    -e, --export              Export one page to PNG and exit
    -i, --invert              Start with inverted colours
    -b, --black-color <css>   Custom black colour (e.g. '#1a1a2e')
    -w, --white-color <css>   Custom white colour (e.g. '#e0e0e0')
    -h, --help                Show this help message and exit
        --version             Print version and exit

KEYBOARD:
    Left/Right               Turn page
    Space                    Next page
    PageUp/PageDown          Previous/next page (viewport jump in zoom mode)
    h/l                      Turn page (pan horizontally in zoom mode)
    Up/Down                  Scroll within page (auto-turns at boundary)
    j/k                      Next/previous page (bypass scroll)
    g + number + Enter       Go to page
    t                        Table of contents
    / + text + Enter         Search (empty search clears)
    n/N                      Next/previous search result
    z                        Toggle zoom mode
    o/O                      Zoom in/out (fixed-layout docs)
    </>                      Smaller/larger font (EPUB)
    i                        Invert colours
    r                        Rotate 90° clockwise
    c                        Toggle auto-crop (remove whitespace margins)
    d                        Toggle warm tint (sepia)
    M                        Document metadata
    f                        Show links (type number + Enter to follow)
    e                        Export current page to PNG
    R, F5                    Refresh
    ?                        Help summary in status bar
    q, Esc                   Quit

ENVIRONMENT:
    RUST_LOG=debug            Enable debug logging to ./kitpdf.log

See docs/help.md for the full reference."@
}

/// The help text for a version of the program.
pub fn usage_text(version: &str) -> (r: String)
    ensures
        r@ == "kitpdf "@ + version@ + usage_body(),
{
    "kitpdf ".to_owned().concat(version).concat(
        " — terminal PDF/EPUB viewer (Kitty graphics protocol)

USAGE:
    kitpdf [options] <file>

ARGUMENTS:
    <file>                    PDF or EPUB file to open

OPTIONS:
    -p, --page <N>            Start on page N (1-indexed; ignores saved page)
    -e, --export              Export one page to PNG and exit
    -i, --invert              Start with inverted colours
    -b, --black-color <css>   Custom black colour (e.g. '#1a1a2e')
    -w, --white-color <css>   Custom white colour (e.g. '#e0e0e0')
    -h, --help                Show this help message and exit
        --version             Print version and exit

KEYBOARD:
    Left/Right               Turn page
    Space                    Next page
    PageUp/PageDown          Previous/next page (viewport jump in zoom mode)
    h/l                      Turn page (pan horizontally in zoom mode)
    Up/Down                  Scroll within page (auto-turns at boundary)
    j/k                      Next/previous page (bypass scroll)
    g + number + Enter       Go to page
    t                        Table of contents
    / + text + Enter         Search (empty search clears)
    n/N                      Next/previous search result
    z                        Toggle zoom mode
    o/O                      Zoom in/out (fixed-layout docs)
    </>                      Smaller/larger font (EPUB)
    i                        Invert colours
    r                        Rotate 90° clockwise
    c                        Toggle auto-crop (remove whitespace margins)
    d                        Toggle warm tint (sepia)
    M                        Document metadata
    f                        Show links (type number + Enter to follow)
    e                        Export current page to PNG
    R, F5                    Refresh
    ?                        Help summary in status bar
    q, Esc                   Quit

ENVIRONMENT:
    RUST_LOG=debug            Enable debug logging to ./kitpdf.log

See docs/help.md for the full reference.",
    )
}

/// What is printed for a version of the program.
pub fn version_text(version: &str) -> (r: String)
    ensures
        r@ == "kitpdf "@ + version@,
{
    "kitpdf ".to_owned().concat(version)
}

} // verus!
