//! Writing a page to a PNG file: the name of the file, and its bytes.

use vstd::prelude::*;
use vstd::slice::slice_subrange;

use crate::error::RenderError;
use crate::path::ascii_lower;
use crate::path::file_stem;
use crate::path::join;
use crate::path::joined;
use crate::path::stem_of;
use crate::path::to_ascii_lowercase;
use crate::text::all_digits;
use crate::text::chars_of;
use crate::text::decimal;
use crate::text::digits;
use crate::text::digits_value;
use crate::text::is_ascii_digit;
use crate::text::is_digit;
use crate::text::lemma_digits_are_digits;
use crate::text::lemma_digits_value;
use crate::text::string_of;

verus! {

/// The most characters that a file name takes from the name of its document.
pub const MAX_STEM_CHARS: usize = 48;

/// Whether a character is kept in a file name: an ASCII letter or digit, an underscore or a dot.
pub open spec fn is_kept(c: char) -> bool {
    'a' <= c <= 'z' || 'A' <= c <= 'Z' || is_digit(c) || c == '_' || c == '.'
}

/// What stands for a character in a file name: itself in lower case, or a dash.
pub open spec fn mapped(c: char) -> char {
    if is_kept(c) {
        ascii_lower(c)
    } else {
        '-'
    }
}

/// A text with its characters mapped, and one dash for dashes that would stand together.
pub open spec fn dashed(s: Seq<char>) -> Seq<char>
    decreases s.len(),
{
    if s.len() == 0 {
        Seq::empty()
    } else {
        let before = dashed(s.drop_last());
        let c = mapped(s.last());
        if c == '-' && before.len() > 0 && before.last() == '-' {
            before
        } else {
            before.push(c)
        }
    }
}

/// Whether a character is taken off the ends of a file name.
pub open spec fn is_edge(c: char) -> bool {
    c == '-' || c == '_' || c == '.'
}

/// A text without the edge characters at its start.
pub open spec fn trimmed_start(s: Seq<char>) -> Seq<char>
    decreases s.len(),
{
    if s.len() > 0 && is_edge(s[0]) {
        trimmed_start(s.skip(1))
    } else {
        s
    }
}

/// A text without the edge characters at its end.
pub open spec fn trimmed_end(s: Seq<char>) -> Seq<char>
    decreases s.len(),
{
    if s.len() > 0 && is_edge(s.last()) {
        trimmed_end(s.drop_last())
    } else {
        s
    }
}

/// A text without the edge characters at both of its ends.
pub open spec fn trimmed(s: Seq<char>) -> Seq<char> {
    trimmed_end(trimmed_start(s))
}

/// A text made fit for a file name: mapped, trimmed and, where it is longer than allowed, cut
/// and trimmed again. Where nothing is left it is "document".
pub open spec fn cleaned(raw: Seq<char>) -> Seq<char> {
    let whole = trimmed(dashed(raw));
    let short = if whole.len() > MAX_STEM_CHARS {
        trimmed(whole.take(MAX_STEM_CHARS as int))
    } else {
        whole
    };
    if short.len() == 0 {
        "document"@
    } else {
        short
    }
}

/// The part of a file name that stands for a document: its own name, made fit.
pub open spec fn spec_sanitized_stem(source_path: Seq<char>) -> Seq<char> {
    cleaned(
        match file_stem(source_path) {
            Some(stem) => stem,
            None => "document"@,
        },
    )
}

/// Takes the edge characters off both ends.
pub fn trim_export_edges(s: &[char]) -> (r: Vec<char>)
    ensures
        r@ == trimmed(s@),
{
    let mut start: usize = 0;
    assert(s@.skip(0) =~= s@);
    while start < s.len() && (s[start] == '-' || s[start] == '_' || s[start] == '.')
        invariant
            start <= s@.len(),
            trimmed_start(s@.skip(start as int)) == trimmed_start(s@),
        decreases s.len() - start,
    {
        assert(s@.skip(start as int).skip(1) =~= s@.skip(start + 1));
        start += 1;
    }
    let ghost rest = s@.skip(start as int);
    assert(trimmed_start(s@) == rest);
    let mut end: usize = s.len();
    assert(rest.take(end - start) =~= rest);
    while end > start && (s[end - 1] == '-' || s[end - 1] == '_' || s[end - 1] == '.')
        invariant
            start <= end <= s@.len(),
            rest == s@.skip(start as int),
            trimmed_end(rest.take(end - start)) == trimmed_end(rest),
        decreases end - start,
    {
        let ghost t = rest.take(end - start);
        assert(t.last() == s@[end - 1]);
        assert(t.drop_last() =~= rest.take(end - start - 1));
        end -= 1;
    }
    assert(end > start ==> rest.take(end - start).last() == s@[end - 1]);
    let part = slice_subrange(s, start, end);
    assert(part@ =~= rest.take(end - start));
    let mut out: Vec<char> = Vec::new();
    out.extend_from_slice(part);
    assert(out@ =~= part@);
    out
}

/// Maps the characters of a text and puts one dash for dashes that would stand together.
fn dash(chars: &Vec<char>) -> (r: Vec<char>)
    ensures
        r@ == dashed(chars@),
{
    let mut out: Vec<char> = Vec::new();
    let mut last_dash = false;
    let mut i: usize = 0;
    assert(chars@.take(0) =~= Seq::empty());
    while i < chars.len()
        invariant
            i <= chars@.len(),
            out@ == dashed(chars@.take(i as int)),
            last_dash == (out@.len() > 0 && out@.last() == '-'),
        decreases chars.len() - i,
    {
        let c = chars[i];
        let ghost t = chars@.take(i + 1);
        assert(t.drop_last() =~= chars@.take(i as int));
        assert(t.last() == c);
        let kept = 'a' <= c && c <= 'z' || 'A' <= c && c <= 'Z' || is_ascii_digit(c) || c == '_' || c
            == '.';
        if kept {
            let low = to_ascii_lowercase(c);
            assert(low != '-');
            out.push(low);
            last_dash = false;
        } else if !last_dash {
            out.push('-');
            last_dash = true;
        }
        i += 1;
    }
    assert(chars@.take(i as int) =~= chars@);
    out
}

/// The part of a file name that stands for a document.
pub fn sanitized_stem(source_path: &str) -> (r: String)
    ensures
        r@ == spec_sanitized_stem(source_path@),
{
    let raw = match stem_of(source_path) {
        Some(stem) => stem,
        None => "document".to_owned(),
    };
    let out = dash(&chars_of(raw.as_str()));
    let mut clean = trim_export_edges(out.as_slice());
    if clean.len() > MAX_STEM_CHARS {
        let cut = slice_subrange(clean.as_slice(), 0, MAX_STEM_CHARS);
        assert(cut@ =~= clean@.take(MAX_STEM_CHARS as int));
        clean = trim_export_edges(cut);
    }
    if clean.len() == 0 {
        "document".to_owned()
    } else {
        string_of(clean.as_slice())
    }
}

/// A text with as many zeros before it as bring it to a width.
pub open spec fn zero_padded(s: Seq<char>, width: nat) -> Seq<char>
    decreases width - s.len(),
{
    if s.len() < width {
        zero_padded(seq!['0'] + s, width)
    } else {
        s
    }
}

/// The decimal text of a number, with zeros before it up to a width.
fn padded_decimal(n: usize, width: usize) -> (r: String)
    ensures
        r@ == zero_padded(digits(n as nat), width as nat),
{
    let number = decimal(n as u128);
    let mut len: usize = chars_of(number.as_str()).len();
    let mut out = number;
    while len < width
        invariant
            len == out@.len(),
            zero_padded(out@, width as nat) == zero_padded(digits(n as nat), width as nat),
        decreases width - len,
    {
        let mut next = String::new();
        next.push('0');
        next.append(out.as_str());
        assert(next@ =~= seq!['0'] + out@);
        out = next;
        len += 1;
    }
    out
}

/// What all names for one page have in common: the document, and the number of the page, counted
/// from one, as wide as the number of the last page.
pub open spec fn export_base(source_path: Seq<char>, page_num: usize, n_pages: usize) -> Seq<char> {
    let page_number = if page_num < usize::MAX {
        (page_num + 1) as nat
    } else {
        usize::MAX as nat
    };
    let last = if n_pages < 1 {
        1nat
    } else {
        n_pages as nat
    };
    spec_sanitized_stem(source_path) + "-page-"@ + zero_padded(
        digits(page_number),
        digits(last).len(),
    )
}

/// The names for a page in the order in which they are tried: without a suffix first, then with
/// a suffix from two on.
pub open spec fn candidate_name(base: Seq<char>, k: nat) -> Seq<char> {
    if k == 0 {
        base + ".png"@
    } else {
        base + "-"@ + digits(k + 1) + ".png"@
    }
}

/// The last candidate that is tried.
pub open spec fn last_candidate() -> nat {
    (i32::MAX - 3) as nat
}

/// The name that is tried after `k` others.
fn export_name(base: &str, k: u32) -> (r: String)
    ensures
        r@ == candidate_name(base@, k as nat),
{
    if k == 0 {
        base.to_owned().concat(".png")
    } else {
        base.to_owned().concat("-").concat(decimal(k as u128 + 1).as_str()).concat(".png")
    }
}

/// Whether a path may be found to exist, or may be found not to.
pub open spec fn may_answer<F: Fn(&str) -> bool>(is_taken: F, path: Seq<char>, answer: bool) -> bool {
    exists|s: &str| s@ == path && #[trigger] call_ensures(is_taken, (s,), answer)
}

/// The path in `dir` under which a page is exported: the first candidate that does not exist.
/// `is_taken` says of a path whether it exists; some candidate up to the last has to be free.
pub fn next_export_path_in_dir<F: Fn(&str) -> bool>(
    source_path: &str,
    page_num: usize,
    n_pages: usize,
    dir: &str,
    is_taken: F,
) -> (r: String)
    requires
        forall|s: &str| call_requires(is_taken, (s,)),
        exists|k: nat|
            k <= last_candidate() && !may_answer(
                is_taken,
                joined(
                    dir@,
                    #[trigger] candidate_name(export_base(source_path@, page_num, n_pages), k),
                ),
                true,
            ),
    ensures
        exists|k: nat|
            k <= last_candidate() && r@ == joined(
                dir@,
                #[trigger] candidate_name(export_base(source_path@, page_num, n_pages), k),
            ) && (forall|j: nat|
                j < k ==> may_answer(
                    is_taken,
                    joined(
                        dir@,
                        #[trigger] candidate_name(export_base(source_path@, page_num, n_pages), j),
                    ),
                    true,
                )),
        may_answer(is_taken, r@, false),
{
    let page_number: usize = if page_num < usize::MAX {
        page_num + 1
    } else {
        usize::MAX
    };
    let last: usize = if n_pages < 1 {
        1
    } else {
        n_pages
    };
    let page_width: usize = chars_of(decimal(last as u128).as_str()).len();
    let stem = sanitized_stem(source_path);
    let base = stem.concat("-page-").concat(padded_decimal(page_number, page_width).as_str());
    let ghost spec_base = export_base(source_path@, page_num, n_pages);
    assert(base@ == spec_base);
    let mut k: u32 = 0;
    loop
        invariant
            k <= last_candidate(),
            base@ == spec_base,
            spec_base == export_base(source_path@, page_num, n_pages),
            forall|s: &str| call_requires(is_taken, (s,)),
            exists|i: nat|
                k <= i <= last_candidate() && !may_answer(
                    is_taken,
                    joined(dir@, #[trigger] candidate_name(spec_base, i)),
                    true,
                ),
            forall|j: nat|
                j < k ==> may_answer(
                    is_taken,
                    joined(dir@, #[trigger] candidate_name(spec_base, j)),
                    true,
                ),
        decreases i32::MAX - k,
    {
        let name = export_name(base.as_str(), k);
        let candidate = join(dir, name.as_str());
        let s = candidate.as_str();
        let found = is_taken(s);
        assert(s@ == joined(dir@, candidate_name(spec_base, k as nat)));
        assert(may_answer(is_taken, s@, found));
        if !found {
            return candidate;
        }
        let ghost i = choose|i: nat|
            k <= i <= last_candidate() && !may_answer(
                is_taken,
                joined(dir@, #[trigger] candidate_name(spec_base, i)),
                true,
            );
        assert(i != k);
        k += 1;
    }
}

/// Whether a text may stand for a document in a file name: lower-case letters, digits,
/// underscores, dots and single dashes, at least one of them and no more than allowed, with a
/// letter or digit at both ends.
pub open spec fn is_clean(s: Seq<char>) -> bool {
    &&& 0 < s.len() <= MAX_STEM_CHARS
    &&& is_spaced(s)
    &&& !is_edge(s[0])
    &&& !is_edge(s.last())
}

/// Whether a text is made of lower-case letters, digits, underscores, dots and dashes, with no
/// two dashes together.
pub open spec fn is_spaced(s: Seq<char>) -> bool {
    &&& forall|i: int| 0 <= i < s.len() ==> mapped(#[trigger] s[i]) == s[i]
    &&& forall|i: int, j: int|
        0 <= i < s.len() && j == i + 1 && j < s.len() ==> !(#[trigger] s[i] == '-' && #[trigger] s[j]
            == '-')
}

/// Every name of a document is fit for a file name, whatever its path.
pub proof fn lemma_stem_is_clean(source_path: Seq<char>)
    ensures
        is_clean(spec_sanitized_stem(source_path)),
{
    lemma_cleaned_is_clean(
        match file_stem(source_path) {
            Some(stem) => stem,
            None => "document"@,
        },
    );
}

/// Making a text fit for a file name twice is making it fit once.
pub proof fn lemma_clean_is_kept(s: Seq<char>)
    requires
        is_clean(s),
    ensures
        cleaned(s) == s,
{
    lemma_spaced_is_kept(s);
    lemma_trim(s);
    assert(trimmed_start(s) == s);
    assert(trimmed_end(s) == s);
}

/// A text made fit is fit.
pub proof fn lemma_cleaned_is_clean(raw: Seq<char>)
    ensures
        is_clean(cleaned(raw)),
{
    let whole = trimmed(dashed(raw));
    lemma_dashed_is_spaced(raw);
    lemma_trim(dashed(raw));
    let cut = whole.take(MAX_STEM_CHARS as int);
    if whole.len() > MAX_STEM_CHARS {
        assert(is_spaced(cut));
        lemma_trim(cut);
    }
    reveal_strlit("document");
}

/// A text that is mapped has nothing left to map.
proof fn lemma_dashed_is_spaced(s: Seq<char>)
    ensures
        is_spaced(dashed(s)),
    decreases s.len(),
{
    if s.len() > 0 {
        lemma_dashed_is_spaced(s.drop_last());
    }
}

/// A text with nothing left to map stays as it is.
proof fn lemma_spaced_is_kept(s: Seq<char>)
    requires
        is_spaced(s),
    ensures
        dashed(s) == s,
    decreases s.len(),
{
    if s.len() > 0 {
        let front = s.drop_last();
        assert(is_spaced(front)) by {
            assert forall|i: int| 0 <= i < front.len() implies mapped(#[trigger] front[i])
                == front[i] by {
                assert(front[i] == s[i]);
            }
            assert forall|i: int, j: int|
                0 <= i < front.len() && j == i + 1 && j < front.len() implies !(#[trigger] front[i]
                == '-' && #[trigger] front[j] == '-') by {
                assert(front[i] == s[i] && front[j] == s[j]);
            }
        }
        lemma_spaced_is_kept(front);
        assert(mapped(s[s.len() - 1]) == s.last());
        if front.len() > 0 {
            let i = s.len() - 2;
            let j = s.len() - 1;
            assert(!(s[i] == '-' && s[j] == '-'));
        }
        assert(front.push(s.last()) =~= s);
    } else {
        assert(s =~= Seq::empty());
    }
}

/// Trimming leaves a part of the text, with no edge character at its ends.
proof fn lemma_trim(s: Seq<char>)
    ensures
        trimmed(s).len() <= s.len(),
        trimmed(s).len() > 0 ==> !is_edge(trimmed(s)[0]) && !is_edge(trimmed(s).last()),
        is_spaced(s) ==> is_spaced(trimmed(s)),
{
    let t = trimmed_start(s);
    let k = lemma_trim_start(s);
    let m = lemma_trim_end(t);
    let r = trimmed(s);
    assert(r == t.take(m));
    assert(forall|i: int| 0 <= i < r.len() ==> r[i] == s[i + k]);
    if is_spaced(s) {
        assert forall|i: int| 0 <= i < r.len() implies mapped(#[trigger] r[i]) == r[i] by {
            assert(mapped(s[i + k]) == s[i + k]);
        }
        assert forall|i: int, j: int|
            0 <= i < r.len() && j == i + 1 && j < r.len() implies !(#[trigger] r[i] == '-'
            && #[trigger] r[j] == '-') by {
            let a = i + k;
            let b = j + k;
            assert(!(s[a] == '-' && s[b] == '-'));
        }
    }
}

/// Trimming the start leaves what follows the first `k` characters.
proof fn lemma_trim_start(s: Seq<char>) -> (k: int)
    ensures
        0 <= k <= s.len(),
        trimmed_start(s) == s.skip(k),
        trimmed_start(s).len() > 0 ==> !is_edge(trimmed_start(s)[0]),
        forall|i: int| 0 <= i < k ==> is_edge(#[trigger] s[i]),
    decreases s.len(),
{
    if s.len() > 0 && is_edge(s[0]) {
        let k = lemma_trim_start(s.skip(1));
        assert(s.skip(1).skip(k) =~= s.skip(k + 1));
        assert forall|i: int| 0 <= i < k + 1 implies is_edge(#[trigger] s[i]) by {
            if i > 0 {
                assert(s.skip(1)[i - 1] == s[i]);
            }
        }
        k + 1
    } else {
        assert(s.skip(0) =~= s);
        0
    }
}

/// Trimming the end leaves the first `k` characters.
proof fn lemma_trim_end(s: Seq<char>) -> (k: int)
    ensures
        0 <= k <= s.len(),
        trimmed_end(s) == s.take(k),
        trimmed_end(s).len() > 0 ==> !is_edge(trimmed_end(s).last()),
        forall|i: int| k <= i < s.len() ==> is_edge(#[trigger] s[i]),
    decreases s.len(),
{
    if s.len() > 0 && is_edge(s.last()) {
        let k = lemma_trim_end(s.drop_last());
        assert(s.drop_last().take(k) =~= s.take(k));
        assert forall|i: int| k <= i < s.len() implies is_edge(#[trigger] s[i]) by {
            if i < s.len() - 1 {
                assert(s.drop_last()[i] == s[i]);
            }
        }
        k
    } else {
        assert(s.take(s.len() as int) =~= s);
        s.len() as int
    }
}

/// Zeros before a number do not change it: pages of one document that differ in number differ in
/// the text of their number.
pub proof fn lemma_padded_value(n: nat, width: nat)
    ensures
        digits_value(zero_padded(digits(n), width)) == n,
        zero_padded(digits(n), width).len() >= width,
{
    lemma_digits_value(n);
    lemma_padding_keeps_value(digits(n), width);
}

/// A zero before a row of digits does not change its value.
proof fn lemma_leading_zero(s: Seq<char>)
    ensures
        digits_value(seq!['0'] + s) == digits_value(s),
    decreases s.len(),
{
    let t = seq!['0'] + s;
    if s.len() == 0 {
        assert(t.drop_last() =~= Seq::empty());
        assert(digits_value(Seq::<char>::empty()) == 0);
    } else {
        lemma_leading_zero(s.drop_last());
        assert(t.drop_last() =~= seq!['0'] + s.drop_last());
        assert(t.last() == s.last());
    }
}

/// Padding does not change the value.
proof fn lemma_padding_keeps_value(s: Seq<char>, width: nat)
    ensures
        digits_value(zero_padded(s, width)) == digits_value(s),
        zero_padded(s, width).len() >= width,
    decreases width - s.len(),
{
    if s.len() < width {
        lemma_leading_zero(s);
        lemma_padding_keeps_value(seq!['0'] + s, width);
    }
}

/// The candidates for a page are all different, so that one of them is free where finitely many
/// files exist.
pub proof fn lemma_candidates_differ(base: Seq<char>, j: nat, k: nat)
    requires
        j != k,
    ensures
        candidate_name(base, j) != candidate_name(base, k),
{
    reveal_strlit(".png");
    reveal_strlit("-");
    let a = candidate_name(base, j);
    let b = candidate_name(base, k);
    if a == b {
        let n = base.len() as int;
        if j == 0 {
            assert(a[n] == '.');
            assert(b[n] == '-');
        } else if k == 0 {
            assert(b[n] == '.');
            assert(a[n] == '-');
        } else {
            let x = digits(j + 1);
            let y = digits(k + 1);
            assert(a.len() == n + 1 + x.len() + 4);
            assert(b.len() == n + 1 + y.len() + 4);
            assert forall|i: int| 0 <= i < x.len() implies x[i] == y[i] by {
                assert(a[n + 1 + i] == x[i]);
                assert(b[n + 1 + i] == y[i]);
            }
            assert(x =~= y);
            lemma_digits_value(j + 1);
            lemma_digits_value(k + 1);
        }
    }
}

/// Whether a text comes before another in the order of their characters: where they first differ,
/// its character is the smaller one.
pub open spec fn sorts_before(a: Seq<char>, b: Seq<char>) -> bool {
    exists|i: int|
        0 <= i < a.len() && i < b.len() && #[trigger] a.take(i) == b.take(i) && a[i] < b[i]
}

/// A number has no more digits than a larger one.
proof fn lemma_fewer_digits(a: nat, b: nat)
    requires
        a <= b,
    ensures
        digits(a).len() <= digits(b).len(),
    decreases b,
{
    if a >= 10 {
        lemma_fewer_digits(a / 10, b / 10);
    } else if b >= 10 {
        lemma_digits_are_digits(b);
    }
}

/// Padding gives digits of the width, where there are not more of them.
pub proof fn lemma_padded_digits(s: Seq<char>, width: nat)
    requires
        all_digits(s),
        s.len() <= width,
    ensures
        all_digits(zero_padded(s, width)),
        zero_padded(s, width).len() == width,
    decreases width - s.len(),
{
    if s.len() < width {
        let t = seq!['0'] + s;
        assert forall|i: int| 0 <= i < t.len() implies is_digit(#[trigger] t[i]) by {
            if i > 0 {
                assert(t[i] == s[i - 1]);
            }
        }
        lemma_padded_digits(t, width);
    }
}

/// Among rows of digits of one length, that of the smaller number comes first.
proof fn lemma_digits_sort(a: Seq<char>, b: Seq<char>)
    requires
        all_digits(a),
        all_digits(b),
        a.len() == b.len(),
        digits_value(a) < digits_value(b),
    ensures
        sorts_before(a, b),
    decreases a.len(),
{
    let n = a.len() - 1;
    if a.len() > 0 {
        let x = a.drop_last();
        let y = b.drop_last();
        assert(is_digit(a[n]) && is_digit(b[n]));
        assert forall|i: int| 0 <= i < n implies is_digit(#[trigger] x[i]) && is_digit(y[i]) by {
            assert(is_digit(a[i]) && is_digit(b[i]));
        }
        if digits_value(x) < digits_value(y) {
            lemma_digits_sort(x, y);
            let i = choose|i: int|
                0 <= i < x.len() && i < y.len() && #[trigger] x.take(i) == y.take(i) && x[i]
                    < y[i];
            assert(a.take(i) =~= x.take(i));
            assert(b.take(i) =~= y.take(i));
            assert(a[i] == x[i] && b[i] == y[i]);
        } else {
            lemma_same_digits(x, y);
            assert(a.take(n) =~= x);
            assert(b.take(n) =~= y);
        }
    }
}

/// Rows of digits of one length that stand for the same number are the same.
pub proof fn lemma_same_digits(a: Seq<char>, b: Seq<char>)
    requires
        all_digits(a),
        all_digits(b),
        a.len() == b.len(),
        digits_value(a) == digits_value(b),
    ensures
        a == b,
    decreases a.len(),
{
    if a.len() > 0 {
        let n = a.len() - 1;
        let x = a.drop_last();
        let y = b.drop_last();
        assert(is_digit(a[n]) && is_digit(b[n]));
        assert forall|i: int| 0 <= i < n implies is_digit(#[trigger] x[i]) && is_digit(y[i]) by {
            assert(is_digit(a[i]) && is_digit(b[i]));
        }
        lemma_same_digits(x, y);
        assert(a =~= x.push(a[n]));
        assert(b =~= y.push(b[n]));
    } else {
        assert(a =~= b);
    }
}

/// The pages of one document are exported under names of one length, which sort in the order of
/// the pages.
pub proof fn lemma_pages_sort(source_path: Seq<char>, p: usize, q: usize, n_pages: usize)
    requires
        p < q < n_pages,
    ensures
        candidate_name(export_base(source_path, p, n_pages), 0).len() == candidate_name(
            export_base(source_path, q, n_pages),
            0,
        ).len(),
        sorts_before(
            candidate_name(export_base(source_path, p, n_pages), 0),
            candidate_name(export_base(source_path, q, n_pages), 0),
        ),
{
    let front = spec_sanitized_stem(source_path) + "-page-"@;
    let width = digits(n_pages as nat).len();
    let x = zero_padded(digits((p + 1) as nat), width);
    let y = zero_padded(digits((q + 1) as nat), width);
    let a = candidate_name(export_base(source_path, p, n_pages), 0);
    let b = candidate_name(export_base(source_path, q, n_pages), 0);
    lemma_fewer_digits((p + 1) as nat, n_pages as nat);
    lemma_fewer_digits((q + 1) as nat, n_pages as nat);
    lemma_digits_are_digits((p + 1) as nat);
    lemma_digits_are_digits((q + 1) as nat);
    lemma_padded_digits(digits((p + 1) as nat), width);
    lemma_padded_digits(digits((q + 1) as nat), width);
    lemma_padded_value((p + 1) as nat, width);
    lemma_padded_value((q + 1) as nat, width);
    lemma_digits_sort(x, y);
    assert(a == front + x + ".png"@);
    assert(b == front + y + ".png"@);
    let i = choose|i: int|
        0 <= i < x.len() && i < y.len() && #[trigger] x.take(i) == y.take(i) && x[i] < y[i];
    let at = front.len() + i;
    assert(a.take(at) =~= front + x.take(i));
    assert(b.take(at) =~= front + y.take(i));
    assert(a[at] == x[i] && b[at] == y[i]);
}

/// An image of three bytes for each pixel.
#[derive(Debug)]
pub struct RgbImage {
    width: u32,
    height: u32,
    data: Vec<u8>,
}

impl RgbImage {
    #[verifier::type_invariant]
    spec fn fits(self) -> bool {
        RgbImage::is_image(self.width, self.height, self.data@)
    }

    /// The width in pixels.
    pub closed spec fn spec_width(self) -> u32 {
        self.width
    }

    /// The height in pixels.
    pub closed spec fn spec_height(self) -> u32 {
        self.height
    }

    /// The bytes of the pixels, row by row.
    pub closed spec fn spec_data(self) -> Seq<u8> {
        self.data@
    }

    /// Whether there are as many bytes as an image of this size has, with rows that memory can
    /// hold.
    pub open spec fn is_image(width: u32, height: u32, data: Seq<u8>) -> bool {
        &&& 3 * width <= usize::MAX
        &&& data.len() == 3 * (width * height)
    }

    /// The image with this size and these bytes; nothing where their number is not that of the
    /// size, or a row is too long for memory.
    pub fn from_raw(width: u32, height: u32, data: Vec<u8>) -> (r: Option<RgbImage>)
        ensures
            match r {
                Some(image) => RgbImage::is_image(width, height, data@) && image.spec_width()
                    == width && image.spec_height() == height && image.spec_data() == data@,
                None => !RgbImage::is_image(width, height, data@),
            },
    {
        proof {
            assert(0 <= width * height <= u32::MAX * u32::MAX) by (nonlinear_arith)
                requires
                    0 <= width <= u32::MAX,
                    0 <= height <= u32::MAX,
            ;
        }
        if 3 * width as u128 <= usize::MAX as u128 && data.len() as u128 == 3 * (width as u128
            * height as u128) {
            Some(RgbImage { width, height, data })
        } else {
            None
        }
    }
}

/// What `image::ImageBuffer::write_to` gives as PNG for an RGB image of this size with these
/// bytes: the file, or the text of the error.
pub uninterp spec fn png_encoding(width: u32, height: u32, data: Seq<u8>) -> Result<
    Seq<u8>,
    Seq<char>,
>;

/// The bytes with which every PNG file starts.
pub open spec fn png_signature() -> Seq<u8> {
    seq![0x89u8, 0x50u8, 0x4eu8, 0x47u8, 0x0du8, 0x0au8, 0x1au8, 0x0au8]
}

/// A number in four bytes, from high to low.
pub open spec fn four_bytes(v: u32) -> Seq<u8> {
    seq![
        (v / 0x100_0000) as u8,
        (v / 0x1_0000 % 0x100) as u8,
        (v / 0x100 % 0x100) as u8,
        (v % 0x100) as u8,
    ]
}

/// The bytes with which the PNG file of an RGB image starts: the signature, and a header of
/// thirteen bytes with the width, the height, eight bits for each sample, and the colour type of
/// RGB, without interlacing.
pub open spec fn png_header(width: u32, height: u32) -> Seq<u8> {
    png_signature() + four_bytes(13) + seq![0x49u8, 0x48u8, 0x44u8, 0x52u8] + four_bytes(width)
        + four_bytes(height) + seq![8u8, 2u8, 0u8, 0u8, 0u8]
}

/// Whether a file is the PNG file of one image at most, the one with this size and these bytes:
/// the file tells everything about it.
pub open spec fn only_shows(file: Seq<u8>, width: u32, height: u32, data: Seq<u8>) -> bool {
    forall|w: u32, h: u32, d: Seq<u8>|
        RgbImage::is_image(w, h, d) && #[trigger] png_encoding(w, h, d) == Ok::<
            Seq<u8>,
            Seq<char>,
        >(file) ==> w == width && h == height && d == data
}

/// Why an image of this size cannot be a PNG file; nothing where it has pixels.
pub open spec fn png_refusal(width: u32, height: u32) -> Option<Seq<char>> {
    if width == 0 {
        Some("Zero width not allowed"@)
    } else if height == 0 {
        Some("Zero height not allowed"@)
    } else {
        None
    }
}

/// `image::ImageBuffer::write_to` with `image::ImageFormat::Png`, into memory, on a buffer that
/// `image::ImageBuffer::from_raw` makes of the bytes. The result has a name; of it is claimed
/// that an image is refused where it has no pixels, and only there, that a file starts with the signature of PNG and a
/// header with the size of the image, and that the format loses nothing: no two images are
/// written as the same file.
#[verifier::external_body]
fn encode_png(width: u32, height: u32, data: Vec<u8>) -> (r: Result<Vec<u8>, String>)
    requires
        RgbImage::is_image(width, height, data@),
    ensures
        png_encoding(width, height, data@) == (match r {
            Ok(bytes) => Ok(bytes@),
            Err(e) => Err(e@),
        }),
        match png_refusal(width, height) {
            Some(reason) => r matches Err(e) && e@ == reason,
            None => r is Ok,
        },
        r matches Ok(bytes) ==> png_header(width, height).is_prefix_of(bytes@),
        r matches Ok(bytes) ==> only_shows(bytes@, width, height, data@),
{
    let image = image::RgbImage::from_raw(width, height, data).unwrap();
    let mut out = std::io::Cursor::new(Vec::new());
    match image.write_to(&mut out, image::ImageFormat::Png) {
        Ok(()) => Ok(out.into_inner()),
        Err(e) => Err(e.to_string()),
    }
}

/// The error for a PNG file that could not be written.
pub open spec fn png_failure(path: Seq<char>, reason: Seq<char>) -> RenderError<Seq<char>> {
    RenderError::Converting("cannot write PNG "@ + path + ": "@ + reason)
}

/// The bytes of a PNG file, or the error that says for which path they could not be made or
/// written.
pub fn png_result(path: &str, encoded: Result<Vec<u8>, String>) -> (r: Result<
    Vec<u8>,
    RenderError,
>)
    ensures
        match encoded {
            Ok(bytes) => r matches Ok(b) && b == bytes,
            Err(reason) => r matches Err(e) && e@ == png_failure(path@, reason@),
        },
{
    match encoded {
        Ok(bytes) => Ok(bytes),
        Err(reason) => Err(
            RenderError::Converting(
                "cannot write PNG ".to_owned().concat(path).concat(": ").concat(reason.as_str()),
            ),
        ),
    }
}

/// The bytes of the PNG file that `img` is written to at `path`.
pub fn write_png(path: &str, img: &RgbImage) -> (r: Result<Vec<u8>, RenderError>)
    ensures
        match png_encoding(img.spec_width(), img.spec_height(), img.spec_data()) {
            Ok(bytes) => r matches Ok(b) && b@ == bytes,
            Err(reason) => r matches Err(e) && e@ == png_failure(path@, reason),
        },
        match png_refusal(img.spec_width(), img.spec_height()) {
            Some(reason) => r matches Err(e) && e@ == png_failure(path@, reason),
            None => r is Ok,
        },
        r matches Ok(b) ==> png_header(img.spec_width(), img.spec_height()).is_prefix_of(b@),
        r matches Ok(b) ==> only_shows(
            b@,
            img.spec_width(),
            img.spec_height(),
            img.spec_data(),
        ),
{
    proof {
        use_type_invariant(img);
    }
    let mut data: Vec<u8> = Vec::new();
    data.extend_from_slice(img.data.as_slice());
    assert(data@ =~= img.data@);
    png_result(path, encode_png(img.width, img.height, data))
}

/// Where the part of a text that trimming leaves begins and ends.
proof fn lemma_trimmed_bounds(s: Seq<char>) -> (r: (int, int))
    ensures
        0 <= r.0 <= r.1 <= s.len(),
        trimmed(s) == s.subrange(r.0, r.1),
        forall|k: int| 0 <= k < r.0 ==> is_edge(#[trigger] s[k]),
        forall|k: int| r.1 <= k < s.len() ==> is_edge(#[trigger] s[k]),
        r.0 < r.1 ==> !is_edge(s[r.0]) && !is_edge(s[r.1 - 1]),
{
    let t = trimmed_start(s);
    let i = lemma_trim_start(s);
    let m = lemma_trim_end(t);
    let j = i + m;
    assert(s.subrange(i, j) =~= trimmed(s));
    assert forall|k: int| j <= k < s.len() implies is_edge(#[trigger] s[k]) by {
        assert(t[k - i] == s[k]);
    }
    if i < j {
        assert(trimmed(s)[0] == s[i]);
        assert(t.take(m)[m - 1] == s[j - 1]);
        lemma_trim(s);
    }
    (i, j)
}

/// Trimming takes off all edge characters at both ends, and nothing else.
pub proof fn lemma_trimmed_part(s: Seq<char>)
    ensures
        exists|i: int, j: int|
            0 <= i <= j <= s.len() && #[trigger] s.subrange(i, j) == trimmed(s) && (forall|k: int|
                0 <= k < i || j <= k < s.len() ==> is_edge(#[trigger] s[k])) && (i < j ==> !is_edge(
                s[i],
            ) && !is_edge(s[j - 1])),
{
    let (i, j) = lemma_trimmed_bounds(s);
    assert(s.subrange(i, j) == trimmed(s));
}

/// A text without its dashes.
pub open spec fn without_dashes(s: Seq<char>) -> Seq<char>
    decreases s.len(),
{
    if s.len() == 0 {
        Seq::empty()
    } else if s.last() == '-' {
        without_dashes(s.drop_last())
    } else {
        without_dashes(s.drop_last()).push(s.last())
    }
}

/// The characters of a text that a file name keeps, in order and in lower case.
pub open spec fn kept_of(s: Seq<char>) -> Seq<char>
    decreases s.len(),
{
    if s.len() == 0 {
        Seq::empty()
    } else {
        let c = s.last();
        if 'a' <= c <= 'z' || '0' <= c <= '9' || c == '_' || c == '.' {
            kept_of(s.drop_last()).push(c)
        } else if 'A' <= c <= 'Z' {
            kept_of(s.drop_last()).push((c as int + 32) as char)
        } else {
            kept_of(s.drop_last())
        }
    }
}

/// Between its dashes, a mapped text holds exactly the characters of the text that are kept, in
/// their order; no two dashes stand together.
pub proof fn lemma_dashed_keeps(s: Seq<char>)
    ensures
        without_dashes(dashed(s)) == kept_of(s),
        dashed(s).len() <= s.len(),
        s.len() > 0 ==> dashed(s).len() > 0,
    decreases s.len(),
{
    if s.len() > 0 {
        let front = s.drop_last();
        lemma_dashed_keeps(front);
        let before = dashed(front);
        let c = mapped(s.last());
        assert(before.push(c).drop_last() =~= before);
        assert(before.push(c).last() == c);
        if before.len() > 0 && before.last() == '-' {
            assert(without_dashes(before) == without_dashes(before.drop_last()));
        }
    }
}

/// Where the part of a mapped text that a file name takes begins and ends.
proof fn lemma_cleaned_bounds(s: Seq<char>) -> (r: (int, int))
    ensures
        0 <= r.0 <= r.1 <= s.len(),
        r.1 - r.0 <= 48,
        s.subrange(r.0, r.1) == (if trimmed(s).len() > 48 {
            trimmed(trimmed(s).take(48))
        } else {
            trimmed(s)
        }),
        forall|k: int| 0 <= k < r.0 ==> is_edge(#[trigger] s[k]),
        forall|k: int| r.1 <= k < s.len() && k < r.0 + 48 ==> is_edge(#[trigger] s[k]),
{
    let (i, j) = lemma_trimmed_bounds(s);
    let whole = trimmed(s);
    if whole.len() > 48 {
        let cut = whole.take(48);
        let (a, b) = lemma_trimmed_bounds(cut);
        assert(cut[0] == s[i]);
        assert(a == 0 && b > 0) by {
            if a > 0 || b == 0 {
                assert(is_edge(cut[0]));
            }
        }
        assert(s.subrange(i, i + b) =~= cut.subrange(a, b));
        assert forall|k: int| i + b <= k < s.len() && k < i + 48 implies is_edge(
            #[trigger] s[k],
        ) by {
            assert(cut[k - i] == s[k]);
        }
        (i, i + b)
    } else {
        (i, j)
    }
}

/// The name of a document in the name of a file is a part of its mapped name, of at most
/// forty-eight characters: what it leaves out at the start are edge characters, and what it
/// leaves out at the end are edge characters or lies beyond that length.
pub proof fn lemma_cleaned_part(raw: Seq<char>)
    requires
        exists|k: int| 0 <= k < dashed(raw).len() && !is_edge(#[trigger] dashed(raw)[k]),
    ensures
        exists|i: int, j: int|
            0 <= i < j <= dashed(raw).len() && #[trigger] dashed(raw).subrange(i, j) == cleaned(raw)
                && j - i <= 48 && (forall|k: int|
                0 <= k < i || j <= k < dashed(raw).len() && k < i + 48 ==> is_edge(
                    #[trigger] dashed(raw)[k],
                )),
{
    let s = dashed(raw);
    let (i, j) = lemma_cleaned_bounds(s);
    let inside = choose|k: int| 0 <= k < s.len() && !is_edge(#[trigger] s[k]);
    assert(i <= inside);
    lemma_cleaned_nonempty(s, inside);
    assert(s.subrange(i, j) == cleaned(raw));
}

/// Something is left of a text that holds more than edge characters.
proof fn lemma_cleaned_nonempty(s: Seq<char>, inside: int)
    requires
        0 <= inside < s.len(),
        !is_edge(s[inside]),
    ensures
        trimmed(s).len() > 0,
        trimmed(s).len() > 48 ==> trimmed(trimmed(s).take(48)).len() > 0,
{
    let (i, j) = lemma_trimmed_bounds(s);
    assert(i <= inside < j);
    if trimmed(s).len() > 48 {
        let cut = trimmed(s).take(48);
        let (a, b) = lemma_trimmed_bounds(cut);
        assert(cut[0] == s[i]);
        if a > 0 || b == 0 {
            assert(is_edge(cut[0]));
        }
    }
}

/// The name of a page is that of its document and its number, counted from one: a row of digits
/// with that value, as long as the number of the last page unless it takes more.
pub proof fn lemma_base_parts(source_path: Seq<char>, page_num: usize, n_pages: usize)
    requires
        page_num < usize::MAX,
    ensures
        exists|number: Seq<char>| #[trigger]
            (spec_sanitized_stem(source_path) + "-page-"@ + number) == export_base(
                source_path,
                page_num,
                n_pages,
            ) && digits_value(number) == page_num + 1 && number.len() >= digits(
                n_pages as nat,
            ).len() && (page_num < n_pages ==> number.len() == digits(n_pages as nat).len()),
{
    let n = (page_num + 1) as nat;
    let last = if n_pages < 1 {
        1nat
    } else {
        n_pages as nat
    };
    let width = digits(last).len();
    let number = zero_padded(digits(n), width);
    lemma_padded_value(n, width);
    reveal_with_fuel(digits, 2);
    if page_num < n_pages {
        lemma_fewer_digits(n, n_pages as nat);
        lemma_digits_are_digits(n);
        lemma_padded_digits(digits(n), width);
    }
    assert(spec_sanitized_stem(source_path) + "-page-"@ + number == export_base(
        source_path,
        page_num,
        n_pages,
    ));
}

/// Every name that is tried begins with the name of the page and ends in the extension; what
/// stands between is nothing at first, and then a dash and a number, from two on.
pub proof fn lemma_candidate_parts(base: Seq<char>, k: nat)
    ensures
        k == 0 ==> candidate_name(base, k) == base + ".png"@,
        k > 0 ==> exists|number: Seq<char>| #[trigger]
            (base + "-"@ + number + ".png"@) == candidate_name(base, k) && digits_value(number) == k
                + 1 && all_digits(number),
{
    if k > 0 {
        lemma_digits_value(k + 1);
        lemma_digits_are_digits(k + 1);
        assert(base + "-"@ + digits(k + 1) + ".png"@ == candidate_name(base, k));
    }
}

/// A number is read back from its four bytes.
proof fn lemma_four_bytes(v: u32)
    ensures
        four_bytes(v).len() == 4,
        four_bytes(v)[0] * 0x100_0000 + four_bytes(v)[1] * 0x1_0000 + four_bytes(v)[2] * 0x100
            + four_bytes(v)[3] == v,
{
}

/// The header of a PNG file tells the size of its image: the width and then the height, each in
/// four bytes from high to low, behind the signature.
pub proof fn lemma_header_tells_size(width: u32, height: u32)
    ensures
        ({
            let h = png_header(width, height);
            &&& h.take(8) == seq![137u8, 80u8, 78u8, 71u8, 13u8, 10u8, 26u8, 10u8]
            &&& h[16] * 0x100_0000 + h[17] * 0x1_0000 + h[18] * 0x100 + h[19] == width
            &&& h[20] * 0x100_0000 + h[21] * 0x1_0000 + h[22] * 0x100 + h[23] == height
        }),
{
    let h = png_header(width, height);
    let a = four_bytes(width);
    let b = four_bytes(height);
    lemma_four_bytes(width);
    lemma_four_bytes(height);
    assert(h.take(8) =~= png_signature());
    assert(h[16] == a[0] && h[17] == a[1] && h[18] == a[2] && h[19] == a[3]);
    assert(h[20] == b[0] && h[21] == b[1] && h[22] == b[2] && h[23] == b[3]);
}

/// An image is refused as a file exactly where it has no pixels.
pub proof fn lemma_refusal(width: u32, height: u32)
    ensures
        png_refusal(width, height) is None <==> width > 0 && height > 0,
{
}

/// A document lends its file the name that it has without its extension, made fit, and a path
/// that names none lends it "document".
pub proof fn lemma_stem_of_path(source_path: Seq<char>)
    ensures
        file_stem(source_path) matches Some(stem) ==> spec_sanitized_stem(source_path) == cleaned(
            stem,
        ),
        file_stem(source_path) is None ==> spec_sanitized_stem(source_path) == "document"@,
{
    if file_stem(source_path) is None {
        reveal_strlit("document");
        let s = "document"@;
        assert forall|i: int| 0 <= i < s.len() implies mapped(#[trigger] s[i]) == s[i] by {}
        assert(is_clean(s));
        lemma_clean_is_kept(s);
    }
}

/// An image has three bytes for each of its pixels, and bytes in that number are an image where
/// memory can hold them.
pub proof fn lemma_is_image(width: u32, height: u32, data: Seq<u8>)
    ensures
        RgbImage::is_image(width, height, data) ==> data.len() == 3 * (width * height),
        data.len() == 3 * (width * height) && 3 * width <= usize::MAX ==> RgbImage::is_image(
            width,
            height,
            data,
        ),
{
}

} // verus!
