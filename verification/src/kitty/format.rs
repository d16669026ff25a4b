//! Parameters of a request, and the format of the pixels that it carries.

use vstd::prelude::*;
use vstd::utf8::encode_utf8;
use vstd::utf8::encode_utf8_decode_utf8;
use vstd::utf8::is_ascii_chars;
use vstd::utf8::is_ascii_chars_encode_utf8;

use crate::text::digits;
use crate::text::int_decimal;
use crate::text::int_text;
use crate::text::is_digit;
use crate::text::lemma_digits_are_digits;
use crate::text::lemma_digits_value;
use crate::text::push_text;
use crate::text::text;

verus! {

broadcast use {crate::text::lemma_append, crate::text::lemma_append_nothing};

/// The bytes of one parameter: nothing where the value is the default, else a comma, the key,
/// an equals sign and the value.
pub open spec fn param(key: char, value: int, default: int) -> Seq<u8> {
    if value != default {
        encode_utf8(seq![',', key, '='] + int_text(value))
    } else {
        Seq::empty()
    }
}

/// Appends one parameter, unless its value is the default.
pub fn write_param(buf: &mut Vec<u8>, key: char, value: i128, default: i128)
    ensures
        final(buf)@ == old(buf)@ + param(key, value as int, default as int),
{
    if value != default {
        let mut s = String::new();
        s.push(',');
        s.push(key);
        s.push('=');
        s.append(int_decimal(value).as_str());
        assert(s@ =~= seq![',', key, '='] + int_text(value as int));
        push_text(buf, s.as_str());
    } else {
        assert(buf@ =~= old(buf)@ + param(key, value as int, default as int));
    }
}

/// The bytes of parameters, one after another, whose values are zero by default.
pub open spec fn params(fields: Seq<(char, int)>) -> Seq<u8>
    decreases fields.len(),
{
    if fields.len() == 0 {
        Seq::empty()
    } else {
        params(fields.drop_last()) + param(fields.last().0, fields.last().1, 0)
    }
}

/// Whether keys are ASCII characters other than the comma, and all different.
pub open spec fn are_keys(fields: Seq<(char, int)>) -> bool {
    &&& forall|i: int| 0 <= i < fields.len() ==> 0 <= #[trigger] fields[i].0 as int <= 127
        && fields[i].0 != ','
    &&& forall|i: int, j: int|
        0 <= i < j < fields.len() ==> #[trigger] fields[i].0 != #[trigger] fields[j].0
}

/// Whether the last comma of some bytes stands at `at`.
spec fn is_last_comma(bytes: Seq<u8>, at: int) -> bool {
    &&& 0 <= at < bytes.len()
    &&& bytes[at] == 44
    &&& forall|i: int| at < i < bytes.len() ==> #[trigger] bytes[i] != 44
}

/// Parameters behind others are written behind them.
pub proof fn lemma_params_push(fields: Seq<(char, int)>, key: char, value: int)
    ensures
        params(fields.push((key, value))) == params(fields) + param(key, value, 0),
{
    assert(fields.push((key, value)).drop_last() =~= fields);
}

/// The decimal text of an integer holds no comma and only ASCII characters.
pub proof fn lemma_int_text_plain(value: int)
    ensures
        is_ascii_chars(int_text(value)),
        forall|i: int| 0 <= i < int_text(value).len() ==> #[trigger] int_text(value)[i] != ',',
{
    let n = if value < 0 {
        (-value) as nat
    } else {
        value as nat
    };
    lemma_digits_are_digits(n);
    assert forall|i: int| 0 <= i < int_text(value).len() implies {
        let c = #[trigger] int_text(value)[i];
        c == '-' || is_digit(c)
    } by {
        if value < 0 && i > 0 {
            assert(int_text(value)[i] == digits(n)[i - 1]);
        } else if value >= 0 {
            assert(int_text(value)[i] == digits(n)[i]);
        }
    }
}

/// Integers with the same decimal text are the same.
proof fn lemma_int_text_differs(a: int, b: int)
    requires
        int_text(a) == int_text(b),
    ensures
        a == b,
{
    let m = if a < 0 {
        (-a) as nat
    } else {
        a as nat
    };
    let n = if b < 0 {
        (-b) as nat
    } else {
        b as nat
    };
    lemma_digits_are_digits(m);
    lemma_digits_are_digits(n);
    lemma_digits_value(m);
    lemma_digits_value(n);
    assert(is_digit(digits(m)[0]) && is_digit(digits(n)[0]));
    let s = int_text(a);
    let t = int_text(b);
    assert(s[0] == t[0]);
    if a < 0 {
        assert(s.skip(1) =~= digits(m));
    }
    if b < 0 {
        assert(t.skip(1) =~= digits(n));
    }
}

/// A parameter that is written starts with a comma and its key, and holds no other comma.
proof fn lemma_param_start(key: char, value: int)
    requires
        0 <= key as int <= 127,
        key != ',',
        value != 0,
    ensures
        is_last_comma(param(key, value, 0), 0),
        param(key, value, 0).len() > 1,
        param(key, value, 0)[1] == key as u8,
{
    let chars = seq![',', key, '='] + int_text(value);
    lemma_int_text_plain(value);
    assert forall|i: int| 0 <= i < chars.len() implies 0 <= #[trigger] chars[i] as int <= 127 by {
        if i >= 3 {
            assert(chars[i] == int_text(value)[i - 3]);
        }
    }
    is_ascii_chars_encode_utf8(chars);
    let bytes = encode_utf8(chars);
    assert(bytes[0] == chars[0] as u8);
    assert(bytes[1] == chars[1] as u8);
    assert forall|i: int| 0 < i < bytes.len() implies #[trigger] bytes[i] != 44 by {
        assert(bytes[i] == chars[i] as u8);
        if i >= 3 {
            assert(chars[i] == int_text(value)[i - 3]);
        }
        assert(chars[i] != ',');
    }
}

/// Parameters with the same key that are written alike have the same value.
proof fn lemma_param_differs(key: char, a: int, b: int)
    requires
        a != 0,
        b != 0,
        param(key, a, 0) == param(key, b, 0),
    ensures
        a == b,
{
    let s = seq![',', key, '='] + int_text(a);
    let t = seq![',', key, '='] + int_text(b);
    encode_utf8_decode_utf8(s);
    encode_utf8_decode_utf8(t);
    assert(s == t);
    assert(s.skip(3) =~= int_text(a));
    assert(t.skip(3) =~= int_text(b));
    lemma_int_text_differs(a, b);
}

/// Where parameters are written at all, one of their keys stands behind the last comma.
proof fn lemma_last_key(fields: Seq<(char, int)>) -> (r: (int, int))
    requires
        are_keys(fields),
        params(fields).len() > 0,
    ensures
        0 <= r.0 < fields.len(),
        is_last_comma(params(fields), r.1),
        r.1 + 1 < params(fields).len(),
        params(fields)[r.1 + 1] == fields[r.0].0 as u8,
    decreases fields.len(),
{
    let n = fields.len() - 1;
    let before = params(fields.drop_last());
    if fields.last().1 == 0 {
        assert(params(fields) =~= before);
        lemma_last_key(fields.drop_last())
    } else {
        let p = param(fields.last().0, fields.last().1, 0);
        lemma_param_start(fields.last().0, fields.last().1);
        let at = before.len() as int;
        assert forall|i: int| at < i < params(fields).len() implies #[trigger] params(fields)[i]
            != 44 by {
            assert(params(fields)[i] == p[i - at]);
        }
        assert(params(fields)[at] == p[0]);
        assert(params(fields)[at + 1] == p[1]);
        (n, at)
    }
}

/// Parameters with the same keys that are written alike are the same.
pub proof fn lemma_params_differ(a: Seq<(char, int)>, b: Seq<(char, int)>)
    requires
        are_keys(a),
        a.len() == b.len(),
        forall|i: int|
            #![trigger a[i]]
            #![trigger b[i]]
            0 <= i < a.len() ==> a[i].0 == b[i].0,
        params(a) == params(b),
    ensures
        a == b,
    decreases a.len(),
{
    if a.len() > 0 {
        lemma_same_last(a, b);
        lemma_params_differ(a.drop_last(), b.drop_last());
        assert(a =~= a.drop_last().push(a.last()));
        assert(b =~= b.drop_last().push(b.last()));
    } else {
        assert(a =~= b);
    }
}

/// Where parameters with the same keys are written alike, the last ones are the same, and so is
/// what is written before them.
proof fn lemma_same_last(a: Seq<(char, int)>, b: Seq<(char, int)>)
    requires
        are_keys(a),
        are_keys(b),
        a.len() == b.len(),
        a.len() > 0,
        a.last().0 == b.last().0,
        params(a) == params(b),
    ensures
        a.last() == b.last(),
        params(a.drop_last()) == params(b.drop_last()),
{
    let key = a.last().0;
    let v = a.last().1;
    let w = b.last().1;
    let p = param(key, v, 0);
    let q = param(key, w, 0);
    let before_a = params(a.drop_last());
    let before_b = params(b.drop_last());
    if v != 0 {
        lemma_param_start(key, v);
    }
    if w != 0 {
        lemma_param_start(key, w);
    }
    if v != 0 && w != 0 {
        let x = before_a.len() as int;
        let y = before_b.len() as int;
        assert(params(a)[x] == p[0]);
        assert(params(b)[y] == q[0]);
        if x < y {
            assert(params(a)[y] == p[y - x]);
        }
        if y < x {
            assert(params(b)[x] == q[x - y]);
        }
        assert(params(a).take(x) =~= before_a);
        assert(params(b).take(y) =~= before_b);
        assert(params(a).skip(x) =~= p);
        assert(params(b).skip(y) =~= q);
        lemma_param_differs(key, v, w);
    } else if v == 0 && w == 0 {
        assert(params(a) =~= before_a);
        assert(params(b) =~= before_b);
    } else if v != 0 {
        lemma_one_more(a, b);
    } else {
        lemma_one_more(b, a);
    }
}

/// A parameter behind all others shows, where the other parameters lack its key.
proof fn lemma_one_more(a: Seq<(char, int)>, b: Seq<(char, int)>)
    requires
        are_keys(a),
        are_keys(b),
        a.len() > 0,
        b.len() > 0,
        a.last().0 == b.last().0,
        a.last().1 != 0,
        b.last().1 == 0,
    ensures
        params(a) != params(b),
{
    let key = a.last().0;
    let p = param(key, a.last().1, 0);
    let before = params(a.drop_last());
    let x = before.len() as int;
    lemma_param_start(key, a.last().1);
    assert(params(a)[x] == p[0]);
    assert(params(a)[x + 1] == p[1]);
    assert(params(b) =~= params(b.drop_last()));
    if params(a) == params(b) {
        let (j, at) = lemma_last_key(b.drop_last());
        if at < x {
            assert(params(b)[x] != 44);
        } else if x < at {
            assert(params(a)[at] == p[at - x]);
        }
        assert(b[j].0 != b[b.len() - 1].0);
    }
}

/// The size of an image in pixels.
#[derive(Clone, Copy, Debug, PartialEq, Eq, Structural)]
pub struct ImageDimensions {
    pub width: u32,
    pub height: u32,
}

/// How the pixels of an image are laid out.
#[derive(Clone, Copy, Debug, PartialEq, Eq, Structural)]
pub enum PixelFormat {
    Rgb24(ImageDimensions),
    Rgba32(ImageDimensions),
}

impl Default for PixelFormat {
    fn default() -> (r: PixelFormat)
        ensures
            r == PixelFormat::spec_default(),
    {
        PixelFormat::Rgb24(ImageDimensions { width: 0, height: 0 })
    }
}

impl PixelFormat {
    /// The format that a request leaves unsaid.
    pub open spec fn spec_default() -> PixelFormat {
        PixelFormat::Rgb24(ImageDimensions { width: 0, height: 0 })
    }

    /// The size of the image.
    pub open spec fn dimensions(self) -> ImageDimensions {
        match self {
            PixelFormat::Rgb24(d) => d,
            PixelFormat::Rgba32(d) => d,
        }
    }

    /// The parameters of the format: the bits of a pixel, the width and the height; none at all
    /// for the default.
    pub open spec fn bytes(self) -> Seq<u8> {
        if self == PixelFormat::spec_default() {
            Seq::empty()
        } else {
            text(",f=") + text(
                match self {
                    PixelFormat::Rgb24(_) => "24",
                    PixelFormat::Rgba32(_) => "32",
                },
            ) + param('s', self.dimensions().width as int, 0) + param(
                'v',
                self.dimensions().height as int,
                0,
            )
        }
    }

    /// Appends the parameters of the format.
    pub fn write_to(&self, buf: &mut Vec<u8>)
        ensures
            final(buf)@ == old(buf)@ + self.bytes(),
    {
        if *self == PixelFormat::default() {
            return ;
        }
        push_text(buf, ",f=");
        let dimensions = match self {
            PixelFormat::Rgb24(d) => {
                push_text(buf, "24");
                d
            },
            PixelFormat::Rgba32(d) => {
                push_text(buf, "32");
                d
            },
        };
        write_param(buf, 's', dimensions.width as i128, 0);
        write_param(buf, 'v', dimensions.height as i128, 0);
    }
}

} // verus!
