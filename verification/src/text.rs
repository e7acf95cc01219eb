//! Whitespace normalization for extracted page text.
//!
//! Page titles and content blocks are normalized before they enter a
//! [`crate::crawler::DocPage`]: each line's whitespace runs collapse to a
//! single space, lines that become empty disappear, and the surviving lines
//! are rejoined with single newlines.

use vstd::prelude::*;

verus! {

/// Whitespace that separates words within a line: every character with the
/// Unicode `White_Space` property except the line feed, which separates lines.
pub open spec fn is_blank(c: char) -> bool {
    ||| c == ' '
    ||| c == '\t'
    ||| c == '\r'
    ||| c == '\u{b}'
    ||| c == '\u{c}'
    ||| c == '\u{85}'
    ||| c == '\u{a0}'
    ||| c == '\u{1680}'
    ||| ('\u{2000}' <= c && c <= '\u{200a}')
    ||| c == '\u{2028}'
    ||| c == '\u{2029}'
    ||| c == '\u{202f}'
    ||| c == '\u{205f}'
    ||| c == '\u{3000}'
}

/// Any whitespace character, the line feed included.
pub open spec fn is_space(c: char) -> bool {
    is_blank(c) || c == '\n'
}

/// A character that survives normalization as part of a word.
pub open spec fn is_word_char(c: char) -> bool {
    !is_space(c)
}

pub fn blank_char(c: char) -> (r: bool)
    ensures
        r == is_blank(c),
{
    c == ' ' || c == '\t' || c == '\r' || c == '\u{b}' || c == '\u{c}' || c == '\u{85}'
        || c == '\u{a0}' || c == '\u{1680}' || ('\u{2000}' <= c && c <= '\u{200a}')
        || c == '\u{2028}' || c == '\u{2029}' || c == '\u{202f}' || c == '\u{205f}'
        || c == '\u{3000}'
}

/// One pass over the text from position `i`: `acc` holds the output built so
/// far and `pend` the separator owed before the next word (0 none, 1 a space,
/// 2 a newline). A separator is only ever emitted between two words, so a
/// pending separator with an empty `acc` is dropped, as is one left over at
/// the end of the text.
pub open spec fn norm_from(s: Seq<char>, i: int, acc: Seq<char>, pend: int) -> Seq<char>
    decreases s.len() - i,
{
    if i < 0 || i >= s.len() {
        acc
    } else if s[i] == '\n' {
        norm_from(s, i + 1, acc, 2)
    } else if is_blank(s[i]) {
        norm_from(s, i + 1, acc, if pend == 2 { 2int } else { 1int })
    } else {
        norm_from(s, i + 1, emit_sep(acc, pend).push(s[i]), 0)
    }
}

/// The separator owed before a word: a newline if any line break was crossed,
/// else a space, and nothing at all before the first word.
pub open spec fn emit_sep(acc: Seq<char>, pend: int) -> Seq<char> {
    if acc.len() > 0 && pend == 2 {
        acc.push('\n')
    } else if acc.len() > 0 && pend == 1 {
        acc.push(' ')
    } else {
        acc
    }
}

/// The normalized form of a text: intra-line whitespace runs collapsed to
/// single spaces, empty lines dropped, lines rejoined with single newlines,
/// and the whole trimmed.
pub open spec fn normalized(s: Seq<char>) -> Seq<char> {
    norm_from(s, 0, Seq::empty(), 0)
}

/// Running through a maximal run of word characters appends exactly that run,
/// after the separator owed at its start.
proof fn lemma_norm_word(s: Seq<char>, i: int, j: int, acc: Seq<char>, pend: int)
    requires
        0 <= i < j <= s.len(),
        forall|m: int| i <= m < j ==> is_word_char(#[trigger] s[m]),
    ensures
        norm_from(s, i, acc, pend) == norm_from(s, j, emit_sep(acc, pend) + s.subrange(i, j), 0),
    decreases j - i,
{
    assert(is_word_char(s[i]));
    let acc2 = emit_sep(acc, pend).push(s[i]);
    if j == i + 1 {
        assert(emit_sep(acc, pend) + s.subrange(i, j) =~= acc2);
    } else {
        lemma_norm_word(s, i + 1, j, acc2, 0);
        assert(emit_sep(acc2, 0) == acc2);
        assert(acc2 + s.subrange(i + 1, j) =~= emit_sep(acc, pend) + s.subrange(i, j));
    }
}

/// The index of the first non-whitespace character at or after `a`; the
/// text's length if there is none.
pub open spec fn trim_start_idx(s: Seq<char>, a: int) -> int
    decreases s.len() - a,
{
    if a < 0 || a >= s.len() {
        s.len() as int
    } else if is_space(s[a]) {
        trim_start_idx(s, a + 1)
    } else {
        a
    }
}

/// One past the last non-whitespace character before `b`; zero if there is
/// none.
pub open spec fn trim_end_idx(s: Seq<char>, b: int) -> int
    decreases b,
{
    if b <= 0 || b > s.len() {
        0
    } else if is_space(s[b - 1]) {
        trim_end_idx(s, b - 1)
    } else {
        b
    }
}

/// The text with its leading and trailing whitespace removed.
pub open spec fn trimmed(s: Seq<char>) -> Seq<char> {
    let a = trim_start_idx(s, 0);
    let b = trim_end_idx(s, s.len() as int);
    if a < b {
        s.subrange(a, b)
    } else {
        Seq::empty()
    }
}

pub fn space_char(c: char) -> (r: bool)
    ensures
        r == is_space(c),
{
    blank_char(c) || c == '\n'
}

/// Normalize a text: collapse each line's whitespace runs to single spaces,
/// drop lines that become empty, rejoin the rest with single newlines, and
/// trim the ends.
pub fn clean_text(text: &str) -> (r: String)
    ensures
        r@ == normalized(text@),
{
    let n = text.unicode_len();
    let mut out = String::new();
    let mut pend: u8 = 0;
    let mut i: usize = 0;
    while i < n
        invariant
            n == text@.len(),
            i <= n,
            pend <= 2,
            normalized(text@) == norm_from(text@, i as int, out@, pend as int),
        decreases n - i,
    {
        let c = text.get_char(i);
        if c == '\n' {
            pend = 2;
            i = i + 1;
        } else if blank_char(c) {
            if pend != 2 {
                pend = 1;
            }
            i = i + 1;
        } else {
            let mut j = i + 1;
            while j < n && !blank_char(text.get_char(j)) && text.get_char(j) != '\n'
                invariant
                    n == text@.len(),
                    i < j <= n,
                    forall|m: int| i <= m < j ==> is_word_char(#[trigger] text@[m]),
                decreases n - j,
            {
                j = j + 1;
            }
            let ghost out0 = out@;
            proof {
                lemma_norm_word(text@, i as int, j as int, out@, pend as int);
                reveal_strlit(" ");
                reveal_strlit("\n");
            }
            if !out.as_str().is_empty() {
                if pend == 2 {
                    out.append("\n");
                } else if pend == 1 {
                    out.append(" ");
                }
            }
            assert(out@ =~= emit_sep(out0, pend as int));
            out.append(text.substring_char(i, j));
            assert(out@ =~= emit_sep(out0, pend as int) + text@.subrange(i as int, j as int));
            pend = 0;
            i = j;
        }
    }
    out
}

} // verus!
