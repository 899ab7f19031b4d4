//! Naming rules that the node derive applies to identifiers: labels for
//! types and fields, snake-case variant names, screaming-snake statics.

use vstd::prelude::*;

use crate::text::{
    append_joined, ascii_lower_char, ascii_lower_one, ascii_upper, ascii_upper_char, chars_of,
    is_uppercase, join, string_from_chars, to_uppercase, is_upper_char, uppercase_chars,
};

verus! {

/// `s` with `sep` inserted before every upper-case character except the
/// first, and each character mapped by `map`.
pub open spec fn split_words(s: Seq<char>, sep: Seq<char>, map: spec_fn(char) -> char) -> Seq<char>
    decreases s.len(),
{
    if s.len() == 0 {
        Seq::empty()
    } else {
        let prev = split_words(s.drop_last(), sep, map);
        if s.len() > 1 && is_upper_char(s.last()) {
            prev + sep + seq![map(s.last())]
        } else {
            prev.push(map(s.last()))
        }
    }
}

/// The label of a PascalCase identifier: a space before each upper-case
/// character but the first.
pub open spec fn pascal_label(s: Seq<char>) -> Seq<char> {
    split_words(s, seq![' '], |c: char| c)
}

/// The snake_case form of a PascalCase identifier.
pub open spec fn snake_case(s: Seq<char>) -> Seq<char> {
    split_words(s, seq!['_'], |c: char| ascii_lower_char(c))
}

/// The SCREAMING_SNAKE_CASE form of a PascalCase identifier.
pub open spec fn screaming_snake_case(s: Seq<char>) -> Seq<char> {
    split_words(s, seq!['_'], |c: char| ascii_upper_char(c))
}

/// Title case of a snake_case name as a scan: the label so far, and
/// whether the next character starts a word.
pub open spec fn title_scan(s: Seq<char>) -> (Seq<char>, bool)
    decreases s.len(),
{
    if s.len() == 0 {
        (Seq::empty(), true)
    } else {
        let (out, at_start) = title_scan(s.drop_last());
        let c = s.last();
        if c == '_' {
            (out.push(' '), true)
        } else if at_start {
            (out + uppercase_chars(c), false)
        } else {
            (out.push(c), false)
        }
    }
}

/// The label of a snake_case name: words split at `_`, each with its first
/// character upper-cased, joined by single spaces.
pub open spec fn snake_label(s: Seq<char>) -> Seq<char> {
    title_scan(s).0
}

/// Shared loop of the three PascalCase conversions.
fn split_words_exec(name: &str, sep: char, mode: u8) -> (r: String)
    requires
        mode < 3,
    ensures
        r@ == split_words(
            name@,
            seq![sep],
            if mode == 0 {
                |c: char| c
            } else if mode == 1 {
                |c: char| ascii_lower_char(c)
            } else {
                |c: char| ascii_upper_char(c)
            },
        ),
{
    let ghost map = if mode == 0 {
        |c: char| c
    } else if mode == 1 {
        |c: char| ascii_lower_char(c)
    } else {
        |c: char| ascii_upper_char(c)
    };
    let cs = chars_of(name);
    let mut out: Vec<char> = Vec::new();
    let mut i: usize = 0;
    proof {
        assert(cs@.take(0) =~= Seq::<char>::empty());
    }
    while i < cs.len()
        invariant
            i <= cs@.len(),
            mode < 3,
            map == (if mode == 0 {
                |c: char| c
            } else if mode == 1 {
                |c: char| ascii_lower_char(c)
            } else {
                |c: char| ascii_upper_char(c)
            }),
            out@ == split_words(cs@.take(i as int), seq![sep], map),
        decreases cs@.len() - i,
    {
        let ch = cs[i];
        let ghost prev = out@;
        proof {
            assert(cs@.take(i + 1).drop_last() == cs@.take(i as int));
            assert(cs@.take(i + 1).last() == ch);
        }
        let upper = is_uppercase(ch);
        if i > 0 && upper {
            out.push(sep);
        }
        let mapped = if mode == 0 {
            ch
        } else if mode == 1 {
            ascii_lower_one(ch)
        } else {
            ascii_upper(ch)
        };
        out.push(mapped);
        proof {
            if i > 0 && upper {
                assert(out@ =~= prev + seq![sep] + seq![map(ch)]);
            } else {
                assert(out@ =~= prev.push(map(ch)));
            }
        }
        i = i + 1;
    }
    proof {
        assert(cs@.take(cs@.len() as int) == cs@);
    }
    string_from_chars(out.as_slice())
}

/// Convert a PascalCase identifier to a space-separated label.
/// e.g., "AdaptiveSharpen" -> "Adaptive Sharpen"
pub fn ident_to_label(name: &str) -> (r: String)
    ensures
        r@ == pascal_label(name@),
{
    split_words_exec(name, ' ', 0)
}

/// Convert a PascalCase identifier to snake_case, e.g. "MediumLow" ->
/// "medium_low".
pub fn to_snake_case(name: &str) -> (r: String)
    ensures
        r@ == snake_case(name@),
{
    split_words_exec(name, '_', 1)
}

/// Convert a PascalCase identifier to SCREAMING_SNAKE_CASE, e.g.
/// "HslAdjust" -> "HSL_ADJUST".
pub fn to_screaming_snake(name: &str) -> (r: String)
    ensures
        r@ == screaming_snake_case(name@),
{
    split_words_exec(name, '_', 2)
}

/// Convert a snake_case field name to a title-cased label.
/// e.g., "noise_floor" -> "Noise Floor"
pub fn snake_to_label(name: &str) -> (r: String)
    ensures
        r@ == snake_label(name@),
{
    let cs = chars_of(name);
    let mut out: Vec<char> = Vec::new();
    let mut at_start = true;
    let mut i: usize = 0;
    proof {
        assert(cs@.take(0) =~= Seq::<char>::empty());
    }
    while i < cs.len()
        invariant
            i <= cs@.len(),
            title_scan(cs@.take(i as int)) == (out@, at_start),
        decreases cs@.len() - i,
    {
        let c = cs[i];
        let ghost prev = out@;
        proof {
            assert(cs@.take(i + 1).drop_last() == cs@.take(i as int));
            assert(cs@.take(i + 1).last() == c);
        }
        if c == '_' {
            out.push(' ');
            at_start = true;
        } else if at_start {
            let up = to_uppercase(c);
            let up_chars = chars_of(up.as_str());
            let mut k: usize = 0;
            while k < up_chars.len()
                invariant
                    k <= up_chars@.len(),
                    out@ == prev + up_chars@.take(k as int),
                decreases up_chars@.len() - k,
            {
                out.push(up_chars[k]);
                proof {
                    assert(up_chars@.take(k + 1) == up_chars@.take(k as int).push(up_chars@[k as int]));
                }
                k = k + 1;
            }
            proof {
                assert(up_chars@.take(up_chars@.len() as int) == up_chars@);
            }
            at_start = false;
        } else {
            out.push(c);
            at_start = false;
        }
        i = i + 1;
    }
    proof {
        assert(cs@.take(cs@.len() as int) == cs@);
    }
    string_from_chars(out.as_slice())
}

/// The SCREAMING_SNAKE_CASE form of an identifier is its snake_case form
/// in ASCII upper case.
pub proof fn screaming_is_upper_snake(s: Seq<char>)
    ensures
        screaming_snake_case(s) == snake_case(s).map_values(|c: char| ascii_upper_char(c)),
    decreases s.len(),
{
    if s.len() > 0 {
        screaming_is_upper_snake(s.drop_last());
        let up = |c: char| ascii_upper_char(c);
        let prev = snake_case(s.drop_last());
        let c = s.last();
        assert(ascii_upper_char(ascii_lower_char(c)) == ascii_upper_char(c)) by {
            if 'A' <= c <= 'Z' {
                assert(((c as u32) + 32) as char as u32 == (c as u32) + 32);
            }
        }
        if s.len() > 1 && is_upper_char(c) {
            assert((prev + seq!['_'] + seq![ascii_lower_char(c)]).map_values(up) =~= prev.map_values(
                up,
            ) + seq!['_'] + seq![ascii_upper_char(c)]);
        } else {
            assert(prev.push(ascii_lower_char(c)).map_values(up) =~= prev.map_values(up).push(
                ascii_upper_char(c),
            ));
        }
    } else {
        assert(snake_case(s).map_values(|c: char| ascii_upper_char(c)) =~= Seq::<char>::empty());
    }
}

/// Whether `c` has Unicode's `White_Space` property (what `char::is_whitespace`
/// tests): U+0009 to U+000D, U+0020, U+0085, U+00A0, U+1680, U+2000 to
/// U+200A, U+2028, U+2029, U+202F, U+205F and U+3000.
pub open spec fn is_unicode_space(c: char) -> bool {
    let u = c as u32;
    ||| 0x9 <= u <= 0xd
    ||| u == 0x20
    ||| u == 0x85
    ||| u == 0xa0
    ||| u == 0x1680
    ||| 0x2000 <= u <= 0x200a
    ||| u == 0x2028
    ||| u == 0x2029
    ||| u == 0x202f
    ||| u == 0x205f
    ||| u == 0x3000
}

/// How many whitespace characters `s` starts with.
pub open spec fn leading_spaces(s: Seq<char>) -> nat
    decreases s.len(),
{
    if s.len() > 0 && is_unicode_space(s[0]) {
        1 + leading_spaces(s.drop_first())
    } else {
        0
    }
}

/// How many whitespace characters `s` ends with.
pub open spec fn trailing_spaces(s: Seq<char>) -> nat
    decreases s.len(),
{
    if s.len() > 0 && is_unicode_space(s.last()) {
        1 + trailing_spaces(s.drop_last())
    } else {
        0
    }
}

/// `s` without its leading and trailing whitespace.
pub open spec fn unicode_trim(s: Seq<char>) -> Seq<char> {
    if leading_spaces(s) >= s.len() {
        Seq::empty()
    } else {
        s.subrange(leading_spaces(s) as int, s.len() - trailing_spaces(s))
    }
}

/// Whether `c` has Unicode's `White_Space` property (see [`is_unicode_space`]).
fn is_space_char(c: char) -> (r: bool)
    ensures
        r == is_unicode_space(c),
{
    let u = c as u32;
    (0x9 <= u && u <= 0xd) || u == 0x20 || u == 0x85 || u == 0xa0 || u == 0x1680 || (0x2000 <= u
        && u <= 0x200a) || u == 0x2028 || u == 0x2029 || u == 0x202f || u == 0x205f || u == 0x3000
}

/// Leading whitespace counted up to `a` characters.
proof fn lemma_leading(s: Seq<char>, a: int)
    requires
        0 <= a <= s.len(),
        forall|i: int| 0 <= i < a ==> is_unicode_space(#[trigger] s[i]),
    ensures
        leading_spaces(s) == a + leading_spaces(s.subrange(a, s.len() as int)),
    decreases a,
{
    if a == 0 {
        assert(s.subrange(0, s.len() as int) =~= s);
    } else {
        let t = s.drop_first();
        assert forall|i: int| 0 <= i < a - 1 implies is_unicode_space(#[trigger] t[i]) by {
            assert(t[i] == s[i + 1]);
        }
        lemma_leading(t, a - 1);
        assert(t.subrange(a - 1, t.len() as int) =~= s.subrange(a, s.len() as int));
        assert(is_unicode_space(s[0]));
    }
}

/// Trailing whitespace counted up to `b` characters.
proof fn lemma_trailing(s: Seq<char>, b: int)
    requires
        0 <= b <= s.len(),
        forall|i: int| s.len() - b <= i < s.len() ==> is_unicode_space(#[trigger] s[i]),
    ensures
        trailing_spaces(s) == b + trailing_spaces(s.subrange(0, s.len() - b)),
    decreases b,
{
    if b == 0 {
        assert(s.subrange(0, s.len() as int) =~= s);
    } else {
        let t = s.drop_last();
        assert forall|i: int| t.len() - (b - 1) <= i < t.len() implies is_unicode_space(#[trigger] t[i]) by {
            assert(t[i] == s[i]);
        }
        lemma_trailing(t, b - 1);
        assert(t.subrange(0, t.len() - (b - 1)) =~= s.subrange(0, s.len() - b));
        assert(is_unicode_space(s[s.len() - 1]));
    }
}

/// `s` without its leading and trailing whitespace (what `str::trim` does,
/// whose documentation defines whitespace as Unicode's `White_Space`).
fn trim(s: &str) -> (r: String)
    ensures
        r@ == unicode_trim(s@),
{
    let cs = chars_of(s);
    let n = cs.len();
    let mut a: usize = 0;
    while a < n && is_space_char(cs[a])
        invariant
            a <= n,
            n == cs@.len(),
            forall|i: int| 0 <= i < a ==> is_unicode_space(#[trigger] cs@[i]),
        decreases n - a,
    {
        a = a + 1;
    }
    proof {
        lemma_leading(cs@, a as int);
        let rest = cs@.subrange(a as int, n as int);
        if a < n {
            assert(rest[0] == cs@[a as int]);
        }
    }
    let mut out = String::new();
    if a == n {
        return out;
    }
    let mut b: usize = 0;
    while b < n - a && is_space_char(cs[n - 1 - b])
        invariant
            a < n,
            n == cs@.len(),
            !is_unicode_space(cs@[a as int]),
            b <= n - a,
            forall|i: int| n - b <= i < n ==> is_unicode_space(#[trigger] cs@[i]),
        decreases n - a - b,
    {
        b = b + 1;
    }
    proof {
        if b == n - a {
            assert(is_unicode_space(cs@[a as int]));
        }
        lemma_trailing(cs@, b as int);
        let init = cs@.subrange(0, n - b);
        assert(init.last() == cs@[n - 1 - b]);
    }
    let mut i: usize = a;
    while i < n - b
        invariant
            a <= i <= n - b,
            b < n - a,
            n == cs@.len(),
            out@ =~= cs@.subrange(a as int, i as int),
        decreases n - b - i,
    {
        crate::text::push_char(&mut out, cs[i]);
        i = i + 1;
    }
    out
}

/// The description that the derive makes of a doc comment's lines: each
/// line trimmed, the lines joined by single spaces, the whole trimmed.
pub open spec fn doc_text(lines: Seq<Seq<char>>) -> Seq<char> {
    unicode_trim(join(lines.map_values(|l: Seq<char>| unicode_trim(l)), seq![' ']))
}

/// The description text of a doc comment given by its lines (see
/// [`doc_text`]): blank lines become double spaces inside the text.
pub fn doc_comment_text(lines: &[String]) -> (r: String)
    ensures
        r@ == doc_text(lines@.map_values(|l: String| l@)),
{
    let ghost views = lines@.map_values(|l: String| l@);
    let mut trimmed: Vec<String> = Vec::new();
    let mut i: usize = 0;
    while i < lines.len()
        invariant
            i <= lines@.len(),
            views == lines@.map_values(|l: String| l@),
            trimmed@.map_values(|t: String| t@) == views.take(i as int).map_values(
                |l: Seq<char>| unicode_trim(l),
            ),
        decreases lines@.len() - i,
    {
        let ghost before = trimmed@;
        let t = trim(lines[i].as_str());
        trimmed.push(t);
        proof {
            let done = views.take(i as int);
            assert(views.take(i + 1) =~= done.push(views[i as int]));
            assert(done.push(views[i as int]).map_values(|l: Seq<char>| unicode_trim(l))
                =~= done.map_values(|l: Seq<char>| unicode_trim(l)).push(
                unicode_trim(views[i as int]),
            ));
            assert(trimmed@.map_values(|t: String| t@) =~= before.map_values(|t: String| t@).push(
                unicode_trim(views[i as int]),
            ));
        }
        i = i + 1;
    }
    proof {
        assert(views.take(i as int) =~= views);
    }
    let mut joined = String::new();
    append_joined(&mut joined, &trimmed, " ");
    proof {
        reveal_strlit(" ");
        assert(" "@ =~= seq![' ']);
        assert(joined@ =~= join(views.map_values(|l: Seq<char>| unicode_trim(l)), seq![' ']));
    }
    trim(joined.as_str())
}

} // verus!
