//! Small operations on strings that the rest of the library builds on.

use vstd::prelude::*;

verus! {

/// Whether two string slices hold the same characters.
///
/// Trusted: this is `==` of `str`, which compares the two slices character by
/// character.
#[verifier::external_body]
pub(crate) fn str_eq(a: &str, b: &str) -> (same: bool)
    ensures
        same == (a@ == b@),
{
    a == b
}

/// Whether `part` occurs in `whole` as a run of consecutive characters.
pub open spec fn occurs_in(part: Seq<char>, whole: Seq<char>) -> bool {
    exists|i: int|
        0 <= i && i + part.len() <= whole.len() && #[trigger] whole.subrange(
            i,
            i + part.len(),
        ) == part
}

/// Whether `part` occurs in `whole`.
///
/// Trusted: this is `str::contains` with a string pattern, which is true exactly
/// when the pattern matches a sub-slice of the string.
#[verifier::external_body]
pub(crate) fn str_contains(whole: &str, part: &str) -> (found: bool)
    ensures
        found == occurs_in(part@, whole@),
{
    whole.contains(part)
}

/// The character of one decimal digit.
pub open spec fn digit_char(d: int) -> char {
    if d == 0 {
        '0'
    } else if d == 1 {
        '1'
    } else if d == 2 {
        '2'
    } else if d == 3 {
        '3'
    } else if d == 4 {
        '4'
    } else if d == 5 {
        '5'
    } else if d == 6 {
        '6'
    } else if d == 7 {
        '7'
    } else if d == 8 {
        '8'
    } else {
        '9'
    }
}

/// The decimal digits of a natural number, without leading zeros.
pub open spec fn decimal(n: nat) -> Seq<char>
    decreases n,
{
    if n < 10 {
        seq![digit_char(n as int)]
    } else {
        decimal(n / 10).push(digit_char((n % 10) as int))
    }
}

/// The decimal text of an integer, with a minus sign before a negative one.
pub open spec fn signed_decimal(n: int) -> Seq<char> {
    if n < 0 {
        seq!['-'] + decimal((-n) as nat)
    } else {
        decimal(n as nat)
    }
}

/// The one-character text of a decimal digit.
pub fn digit_str(d: u8) -> (s: &'static str)
    requires
        d < 10,
    ensures
        s@ == seq![digit_char(d as int)],
{
    proof {
        reveal_strlit("0");
        reveal_strlit("1");
        reveal_strlit("2");
        reveal_strlit("3");
        reveal_strlit("4");
        reveal_strlit("5");
        reveal_strlit("6");
        reveal_strlit("7");
        reveal_strlit("8");
        reveal_strlit("9");
    }
    let s = if d == 0 {
        "0"
    } else if d == 1 {
        "1"
    } else if d == 2 {
        "2"
    } else if d == 3 {
        "3"
    } else if d == 4 {
        "4"
    } else if d == 5 {
        "5"
    } else if d == 6 {
        "6"
    } else if d == 7 {
        "7"
    } else if d == 8 {
        "8"
    } else {
        "9"
    };
    s
}

/// The decimal text of `n`.
pub fn u128_text(n: u128) -> (s: String)
    ensures
        s@ == decimal(n as nat),
    decreases n,
{
    if n < 10 {
        digit_str(n as u8).to_string()
    } else {
        let mut s = u128_text(n / 10);
        s.append(digit_str((n % 10) as u8));
        s
    }
}

/// The decimal text of `n`.
pub fn usize_text(n: usize) -> (s: String)
    ensures
        s@ == decimal(n as nat),
{
    u128_text(n as u128)
}

/// The decimal text of `n`, with a minus sign where it is negative.
pub fn i64_text(n: i64) -> (s: String)
    ensures
        s@ == signed_decimal(n as int),
{
    if n < 0 {
        proof {
            reveal_strlit("-");
        }
        let magnitude: u128 = (-(n as i128)) as u128;
        let mut s = "-".to_string();
        let digits = u128_text(magnitude);
        s.append(digits.as_str());
        s
    } else {
        u128_text(n as u128)
    }
}

/// The texts of `parts` one after another.
pub open spec fn concat_all(parts: Seq<Seq<char>>) -> Seq<char>
    decreases parts.len(),
{
    if parts.len() == 0 {
        Seq::empty()
    } else {
        concat_all(parts.drop_last()) + parts.last()
    }
}

/// The texts of `parts` with `sep` between each two neighbours.
pub open spec fn joined(parts: Seq<Seq<char>>, sep: Seq<char>) -> Seq<char>
    decreases parts.len(),
{
    if parts.len() == 0 {
        Seq::empty()
    } else if parts.len() == 1 {
        parts[0]
    } else {
        joined(parts.drop_last(), sep) + sep + parts.last()
    }
}

/// Joins `parts` with `sep` between each two neighbours.
pub fn join(parts: &Vec<String>, sep: &str) -> (s: String)
    ensures
        s@ == joined(parts.deep_view(), sep@),
{
    let mut s = String::new();
    let mut i: usize = 0;
    while i < parts.len()
        invariant
            i <= parts.len(),
            s@ == joined(parts.deep_view().take(i as int), sep@),
        decreases parts.len() - i,
    {
        if i > 0 {
            s.append(sep);
        }
        s.append(parts[i].as_str());
        proof {
            let before = parts.deep_view().take(i as int);
            let after = parts.deep_view().take(i as int + 1);
            assert(after.drop_last() =~= before);
        }
        i += 1;
    }
    assert(parts.deep_view().take(parts.len() as int) =~= parts.deep_view());
    s
}

/// Copies of `lines`, in their order.
pub fn copy_lines(lines: &Vec<String>) -> (out: Vec<String>)
    ensures
        out.deep_view() == lines.deep_view(),
{
    let mut out: Vec<String> = Vec::new();
    let mut i: usize = 0;
    while i < lines.len()
        invariant
            i <= lines.len(),
            out@.len() == i,
            forall|k: int| 0 <= k < i ==> out@[k]@ == lines@[k]@,
        decreases lines.len() - i,
    {
        out.push(lines[i].clone());
        i += 1;
    }
    out
}

/// The first `n` characters of a text, or all of it where it has fewer.
pub open spec fn truncated(text: Seq<char>, n: nat) -> Seq<char> {
    if text.len() <= n {
        text
    } else {
        text.take(n as int)
    }
}

/// The first `n` characters of `text`, or all of it where it has fewer.
pub fn truncate(text: &str, n: usize) -> (r: String)
    ensures
        r@ == truncated(text@, n as nat),
{
    let len = text.unicode_len();
    if len <= n {
        text.to_string()
    } else {
        text.substring_char(0, n).to_string()
    }
}

/// Whether `a` comes before `b`, or is `b`, in the order of a dictionary in which
/// the characters stand in the order of their code points.
pub open spec fn lex_le(a: Seq<char>, b: Seq<char>) -> bool
    decreases a.len(),
{
    if a.len() == 0 {
        true
    } else if b.len() == 0 {
        false
    } else if a[0] != b[0] {
        (a[0] as int) < (b[0] as int)
    } else {
        lex_le(a.skip(1), b.skip(1))
    }
}

/// Whether `a` comes before `b` or is `b`.
///
/// Trusted: this is `<=` of `str`, which orders strings lexicographically by their
/// bytes, and that is the order of their code points.
#[verifier::external_body]
pub(crate) fn str_le(a: &str, b: &str) -> (le: bool)
    ensures
        le == lex_le(a@, b@),
{
    a <= b
}

/// A sorted sequence of texts with one more text, put before the first text that
/// comes after it.
pub open spec fn inserted(sorted: Seq<Seq<char>>, text: Seq<char>) -> Seq<Seq<char>>
    decreases sorted.len(),
{
    if sorted.len() == 0 {
        seq![text]
    } else if lex_le(sorted.last(), text) {
        sorted.push(text)
    } else {
        inserted(sorted.drop_last(), text).push(sorted.last())
    }
}

/// The texts of `texts` in dictionary order.
pub open spec fn sorted_texts(texts: Seq<Seq<char>>) -> Seq<Seq<char>>
    decreases texts.len(),
{
    if texts.len() == 0 {
        Seq::empty()
    } else {
        inserted(sorted_texts(texts.drop_last()), texts.last())
    }
}

/// Puts `text` into the sorted `lines`.
pub fn insert_line(lines: &mut Vec<String>, text: String)
    ensures
        final(lines).deep_view() == inserted(old(lines).deep_view(), text@),
    decreases old(lines).len(),
{
    let n = lines.len();
    if n == 0 {
        lines.push(text);
    } else if str_le(lines[n - 1].as_str(), text.as_str()) {
        lines.push(text);
    } else {
        let last = lines.pop().unwrap();
        assert(lines.deep_view() =~= old(lines).deep_view().drop_last());
        insert_line(lines, text);
        lines.push(last);
    }
}

/// The texts of `lines` in dictionary order.
pub fn sort_lines(lines: &Vec<String>) -> (out: Vec<String>)
    ensures
        out.deep_view() == sorted_texts(lines.deep_view()),
{
    let mut out: Vec<String> = Vec::new();
    let mut i: usize = 0;
    while i < lines.len()
        invariant
            i <= lines.len(),
            out.deep_view() == sorted_texts(lines.deep_view().take(i as int)),
        decreases lines.len() - i,
    {
        proof {
            let next = lines.deep_view().take(i as int + 1);
            assert(next.drop_last() =~= lines.deep_view().take(i as int));
        }
        insert_line(&mut out, lines[i].clone());
        i += 1;
    }
    assert(lines.deep_view().take(lines.len() as int) =~= lines.deep_view());
    out
}

/// The lines of a text: the pieces between its line breaks, in their order. A
/// text without a line break is its own single line, and a text that ends in a
/// line break has an empty last line.
pub open spec fn lines_in(text: Seq<char>) -> Seq<Seq<char>>
    decreases text.len(),
{
    if text.len() == 0 {
        seq![Seq::empty()]
    } else {
        let before = lines_in(text.drop_last());
        if text.last() == '\n' {
            before.push(Seq::empty())
        } else {
            before.update(before.len() - 1, before.last().push(text.last()))
        }
    }
}

/// Trusted: `str::split` with the line break as its pattern gives the pieces of
/// the text that lie between its line breaks, in their order, the empty ones too.
#[verifier::external_body]
pub(crate) fn split_lines(text: &str) -> (lines: Vec<String>)
    ensures
        lines.deep_view() == lines_in(text@),
{
    text.split('\n').map(|line| line.to_string()).collect()
}

/// The lines of a text.
pub fn lines_of(text: &str) -> (lines: Vec<String>)
    ensures
        lines.deep_view() == lines_in(text@),
{
    split_lines(text)
}

/// A text has at least one line; its lines with line breaks between them are
/// the text; and no line holds a line break.
pub proof fn lemma_lines_in(text: Seq<char>)
    ensures
        lines_in(text).len() >= 1,
        joined(lines_in(text), seq!['\n']) == text,
        forall|i: int| 0 <= i < lines_in(text).len() ==> !(#[trigger] lines_in(text)[i]).contains('\n'),
    decreases text.len(),
{
    let lines = lines_in(text);
    if text.len() > 0 {
        let before = lines_in(text.drop_last());
        lemma_lines_in(text.drop_last());
        let sep = seq!['\n'];
        if text.last() == '\n' {
            assert(lines.drop_last() =~= before);
        } else {
            let n = before.len() - 1;
            let grown = before.last().push(text.last());
            assert(lines.drop_last() =~= before.drop_last());
            if before.len() > 1 {
                assert(joined(lines, sep) =~= joined(before, sep).push(text.last()));
            }
            assert forall|i: int| 0 <= i < lines.len() implies !(#[trigger] lines[i]).contains(
                '\n',
            ) by {
                if i == n && grown.contains('\n') {
                    let k = choose|k: int| 0 <= k < grown.len() && grown[k] == '\n';
                    assert(before[n].contains('\n'));
                }
            }
        }
    }
}

/// The texts of `lines`, each followed by a line break.
pub open spec fn line_text(lines: Seq<Seq<char>>) -> Seq<char>
    decreases lines.len(),
{
    if lines.len() == 0 {
        Seq::empty()
    } else {
        line_text(lines.drop_last()) + lines.last() + seq!['\n']
    }
}

/// The text of a file with the lines `lines`: each line followed by a line break.
pub fn text_of(lines: &Vec<String>) -> (text: String)
    ensures
        text@ == line_text(lines.deep_view()),
{
    proof {
        reveal_strlit("\n");
    }
    let mut text = String::new();
    let mut i: usize = 0;
    while i < lines.len()
        invariant
            i <= lines.len(),
            "\n"@ == seq!['\n'],
            text@ == line_text(lines.deep_view().take(i as int)),
        decreases lines.len() - i,
    {
        text.append(lines[i].as_str());
        text.append("\n");
        proof {
            let next = lines.deep_view().take(i as int + 1);
            assert(next.drop_last() =~= lines.deep_view().take(i as int));
        }
        i += 1;
    }
    assert(lines.deep_view().take(lines.len() as int) =~= lines.deep_view());
    text
}

/// The texts of `lines` that are not empty, in their order.
pub open spec fn filled(lines: Seq<Seq<char>>) -> Seq<Seq<char>>
    decreases lines.len(),
{
    if lines.len() == 0 {
        Seq::empty()
    } else if lines.last().len() == 0 {
        filled(lines.drop_last())
    } else {
        filled(lines.drop_last()).push(lines.last())
    }
}

/// The lines of `lines` that are not empty, in their order.
pub fn drop_empty(lines: &Vec<String>) -> (out: Vec<String>)
    ensures
        out.deep_view() == filled(lines.deep_view()),
{
    let mut out: Vec<String> = Vec::new();
    let mut i: usize = 0;
    while i < lines.len()
        invariant
            i <= lines.len(),
            out.deep_view() == filled(lines.deep_view().take(i as int)),
        decreases lines.len() - i,
    {
        proof {
            let next = lines.deep_view().take(i as int + 1);
            assert(next.drop_last() =~= lines.deep_view().take(i as int));
        }
        if lines[i].as_str().unicode_len() > 0 {
            out.push(lines[i].clone());
        }
        i += 1;
    }
    assert(lines.deep_view().take(lines.len() as int) =~= lines.deep_view());
    out
}

} // verus!
