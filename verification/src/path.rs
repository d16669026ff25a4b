//! Paths as text: the name of a file, its stem and its extension.

use vstd::prelude::*;
use vstd::slice::slice_subrange;

use crate::text::chars_of;
use crate::text::lemma_pieces_concat;
use crate::text::lemma_pieces_single;
use crate::text::pieces;
use crate::text::same_text;
use crate::text::split;
use crate::text::string_of;
use crate::text::texts;

verus! {

/// The last of the parts of a path that names a file: empty parts and parts that stand for the
/// same directory are passed over, and a step up to the parent names none.
pub open spec fn last_name(parts: Seq<Seq<char>>) -> Option<Seq<char>>
    decreases parts.len(),
{
    if parts.len() == 0 {
        None
    } else if parts.last().len() == 0 || parts.last() == "."@ {
        last_name(parts.drop_last())
    } else if parts.last() == ".."@ {
        None
    } else {
        Some(parts.last())
    }
}

/// The name of the file that a path leads to.
pub open spec fn file_name(path: Seq<char>) -> Option<Seq<char>> {
    last_name(pieces(path, '/'))
}

/// Where the last dot of a name is, or less than zero where it has none.
pub open spec fn last_dot(name: Seq<char>) -> int
    decreases name.len(),
{
    if name.len() == 0 {
        -1
    } else if name.last() == '.' {
        name.len() - 1
    } else {
        last_dot(name.drop_last())
    }
}

/// The name of the file without its extension. A dot at the start of the name starts none.
pub open spec fn file_stem(path: Seq<char>) -> Option<Seq<char>> {
    match file_name(path) {
        None => None,
        Some(name) => if last_dot(name) > 0 {
            Some(name.take(last_dot(name)))
        } else {
            Some(name)
        },
    }
}

/// What follows the last dot of the name of the file.
pub open spec fn extension(path: Seq<char>) -> Option<Seq<char>> {
    match file_name(path) {
        None => None,
        Some(name) => if last_dot(name) > 0 {
            Some(name.skip(last_dot(name) + 1))
        } else {
            None
        },
    }
}

/// The lower-case form of an ASCII letter; any other character is its own.
pub open spec fn ascii_lower(c: char) -> char {
    if 'A' <= c <= 'Z' {
        (c as u32 + 32) as char
    } else {
        c
    }
}

/// A text with its ASCII letters in lower case.
pub open spec fn lower_text(s: Seq<char>) -> Seq<char> {
    s.map_values(|c: char| ascii_lower(c))
}

/// The lower-case form of an ASCII letter; any other character is its own.
pub fn to_ascii_lowercase(c: char) -> (r: char)
    ensures
        r == ascii_lower(c),
{
    if 'A' <= c && c <= 'Z' {
        (c as u8 + 32) as char
    } else {
        c
    }
}

/// The last dot of a name is a dot, and no dot follows it.
pub proof fn lemma_last_dot(name: Seq<char>)
    ensures
        -1 <= last_dot(name) < name.len(),
        last_dot(name) >= 0 ==> name[last_dot(name)] == '.',
        forall|i: int| last_dot(name) < i < name.len() ==> name[i] != '.',
    decreases name.len(),
{
    if name.len() > 0 && name.last() != '.' {
        lemma_last_dot(name.drop_last());
        assert forall|i: int| last_dot(name) < i < name.len() implies name[i] != '.' by {
            if i < name.len() - 1 {
                assert(name.drop_last()[i] == name[i]);
            }
        }
    }
}

/// The name of the file that a path leads to.
fn name_of(path: &str) -> (r: Option<Vec<char>>)
    ensures
        file_name(path@) == (match r {
            Some(v) => Some(v@),
            None => None,
        }),
{
    let chars = chars_of(path);
    let mut parts = split(chars.as_slice(), '/');
    while parts.len() > 0
        invariant
            last_name(texts(parts@)) == file_name(path@),
        decreases parts.len(),
    {
        let ghost before = parts@;
        let last = parts.pop();
        assert(texts(parts@) =~= texts(before).drop_last());
        assert(texts(before).last() == before.last()@);
        if let Some(part) = last {
            if part.len() > 0 && !same_text(part.as_slice(), ".") {
                if same_text(part.as_slice(), "..") {
                    return None;
                }
                return Some(part);
            }
        }
    }
    None
}

/// Where the last dot of a name is, unless it starts the name.
fn extension_dot(name: &Vec<char>) -> (r: Option<usize>)
    ensures
        match r {
            Some(i) => i == last_dot(name@) && i > 0,
            None => last_dot(name@) <= 0,
        },
{
    let mut i: usize = name.len();
    assert(name@.take(i as int) =~= name@);
    while i > 1
        invariant
            i <= name@.len(),
            last_dot(name@.take(i as int)) == last_dot(name@),
        decreases i,
    {
        let ghost t = name@.take(i as int);
        assert(t.last() == name@[i - 1]);
        assert(t.drop_last() =~= name@.take(i - 1));
        i -= 1;
        if name[i] == '.' {
            return Some(i);
        }
    }
    proof {
        lemma_last_dot(name@.take(i as int));
    }
    None
}

/// The name of the file that a path leads to, without its extension.
pub fn stem_of(path: &str) -> (r: Option<String>)
    ensures
        file_stem(path@) == (match r {
            Some(s) => Some(s@),
            None => None,
        }),
{
    match name_of(path) {
        None => None,
        Some(name) => match extension_dot(&name) {
            Some(i) => {
                proof {
                    lemma_last_dot(name@);
                }
                let stem = slice_subrange(name.as_slice(), 0, i);
                assert(stem@ =~= name@.take(i as int));
                Some(string_of(stem))
            },
            None => Some(string_of(name.as_slice())),
        },
    }
}

/// The extension of the file that a path leads to, in lower case.
pub fn lower_extension_of(path: &str) -> (r: Option<Vec<char>>)
    ensures
        match r {
            Some(v) => extension(path@) matches Some(ext) && v@ == lower_text(ext),
            None => extension(path@) is None,
        },
{
    match name_of(path) {
        None => None,
        Some(name) => match extension_dot(&name) {
            Some(dot) => {
                proof {
                    lemma_last_dot(name@);
                }
                assert(dot < name.len());
                let ghost ext = name@.skip(dot + 1);
                let mut out: Vec<char> = Vec::new();
                let mut i: usize = dot + 1;
                while i < name.len()
                    invariant
                        dot < i <= name@.len(),
                        ext == name@.skip(dot + 1),
                        out@ == lower_text(ext.take(i - dot - 1)),
                    decreases name.len() - i,
                {
                    let ghost k = i - dot - 1;
                    out.push(to_ascii_lowercase(name[i]));
                    assert(ext.take(k + 1) =~= ext.take(k).push(ext[k]));
                    assert(out@ =~= lower_text(ext.take(k + 1)));
                    i += 1;
                }
                assert(ext.take(i - dot - 1) =~= ext);
                Some(out)
            },
            None => None,
        },
    }
}

/// The path of a file with this name in a directory: a slash stands between them, unless the
/// directory ends in one or is empty.
pub open spec fn joined(dir: Seq<char>, name: Seq<char>) -> Seq<char> {
    if dir.len() == 0 || dir.last() == '/' {
        dir + name
    } else {
        dir.push('/') + name
    }
}

/// The path of a file with this name in a directory.
pub fn join(dir: &str, name: &str) -> (r: String)
    ensures
        r@ == joined(dir@, name@),
{
    let chars = chars_of(dir);
    let mut out = dir.to_owned();
    if chars.len() > 0 && chars[chars.len() - 1] != '/' {
        out.push('/');
    }
    out.append(name);
    out
}

/// A file with an extension keeps its name: the stem, a dot and the extension.
pub proof fn lemma_stem_and_extension(path: Seq<char>)
    ensures
        extension(path) matches Some(ext) ==> file_stem(path) matches Some(stem) && file_name(path)
            == Some(stem.push('.') + ext) && !ext.contains('.'),
        extension(path) is None ==> file_stem(path) == file_name(path),
{
    if let Some(name) = file_name(path) {
        lemma_last_dot(name);
        let i = last_dot(name);
        if i > 0 {
            let ext = name.skip(i + 1);
            assert(name.take(i).push('.') + ext =~= name);
            assert forall|k: int| 0 <= k < ext.len() implies ext[k] != '.' by {
                assert(name[i + 1 + k] != '.');
            }
        }
    }
}

/// A file in a directory is named by its own name.
pub proof fn lemma_joined_name(dir: Seq<char>, name: Seq<char>)
    requires
        name.len() > 0,
        !name.contains('/'),
        name != "."@,
        name != ".."@,
    ensures
        file_name(joined(dir, name)) == Some(name),
{
    lemma_pieces_single(name, '/');
    let path = joined(dir, name);
    if dir.len() == 0 {
        assert(path =~= name);
    } else if dir.last() == '/' {
        let front = dir.drop_last();
        assert(path =~= front.push('/') + name);
        lemma_pieces_concat(front, name, '/');
    } else {
        lemma_pieces_concat(dir, name, '/');
    }
    let parts = pieces(path, '/');
    assert(parts.last() == name);
}

/// A slash at its end, and a step to the same directory, change nothing about the file that a
/// path leads to; a step up to the parent leads to none.
pub proof fn lemma_steps(path: Seq<char>)
    ensures
        file_name(path.push('/')) == file_name(path),
        file_name(path.push('/').push('.')) == file_name(path),
        file_name(path.push('/').push('.').push('.')) is None,
{
    let none = Seq::<char>::empty();
    reveal_strlit(".");
    reveal_strlit("..");
    assert("."@ =~= seq!['.']);
    assert(".."@ =~= seq!['.', '.']);
    lemma_pieces_concat(path, none, '/');
    lemma_pieces_single(none, '/');
    lemma_pieces_concat(path, "."@, '/');
    lemma_pieces_single("."@, '/');
    lemma_pieces_concat(path, ".."@, '/');
    lemma_pieces_single(".."@, '/');
    assert(path.push('/') + none =~= path.push('/'));
    assert(path.push('/') + "."@ =~= path.push('/').push('.'));
    assert(path.push('/') + ".."@ =~= path.push('/').push('.').push('.'));
    let before = pieces(path, '/');
    assert((before + seq![none]).drop_last() =~= before);
    assert((before + seq!["."@]).drop_last() =~= before);
    assert((before + seq![".."@]).last() == ".."@);
}

/// The extension of a file is what follows the last dot of its name, and its stem is what comes
/// before; a dot at the start of a name does not count.
pub proof fn lemma_extension(path: Seq<char>, stem: Seq<char>, ext: Seq<char>)
    requires
        file_name(path) == Some(stem.push('.') + ext),
        !ext.contains('.'),
    ensures
        stem.len() > 0 ==> extension(path) == Some(ext) && file_stem(path) == Some(stem),
        stem.len() == 0 ==> extension(path) is None && file_stem(path) == file_name(path),
{
    let name = stem.push('.') + ext;
    let n = stem.len() as int;
    lemma_last_dot(name);
    assert(name[n] == '.');
    if last_dot(name) > n {
        assert(ext[last_dot(name) - n - 1] == '.');
    }
    assert(last_dot(name) == n);
    assert(name.take(n) =~= stem);
    assert(name.skip(n + 1) =~= ext);
}

/// Upper-case letters become the lower-case letters at the same place of the alphabet, and
/// nothing else changes; a text that was put into lower case stays as it is.
pub proof fn lemma_lower_case(s: Seq<char>, i: int)
    requires
        0 <= i < s.len(),
    ensures
        lower_text(s).len() == s.len(),
        'A' <= s[i] <= 'Z' ==> lower_text(s)[i] as int - 'a' as int == s[i] as int - 'A' as int,
        !('A' <= s[i] <= 'Z') ==> lower_text(s)[i] == s[i],
        lower_text(lower_text(s)) == lower_text(s),
{
    assert(lower_text(lower_text(s)) =~= lower_text(s));
}

/// The path of a file in a directory begins with the directory and ends with the name of the
/// file; between them stands one slash, where the directory does not end in one, and nothing
/// where it does or is empty.
pub proof fn lemma_joined_parts(dir: Seq<char>, name: Seq<char>)
    ensures
        joined(dir, name).take(dir.len() as int) == dir,
        joined(dir, name).skip(joined(dir, name).len() - name.len()) == name,
        dir.len() > 0 && dir[dir.len() - 1] != '/' ==> joined(dir, name).len() == dir.len() + 1
            + name.len() && joined(dir, name)[dir.len() as int] == '/',
        dir.len() == 0 || dir[dir.len() - 1] == '/' ==> joined(dir, name).len() == dir.len()
            + name.len(),
{
    let path = joined(dir, name);
    assert(path.take(dir.len() as int) =~= dir);
    assert(path.skip(path.len() - name.len()) =~= name);
}

} // verus!
