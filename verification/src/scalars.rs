//! Which texts of a document are read.
//!
//! The reader of documents takes what stands under a path twice where the
//! first reading fails, and trusts the second to fail as well. The two
//! agree unless a key stands twice in one mapping, which the reader is
//! asked beforehand, or a number is read that is not finite. Such a number
//! is written `.inf`, `.Inf`, `.INF`, `.nan`, `.NaN` or `.NAN`, the first
//! three also behind a sign; or it is written in any way at all, with the
//! help of `\`, between double quotes behind a tag.
//!
//! [`finite`] holds of the texts that can hold neither: none of the six
//! words stands in them as a word of its own, and no double quote follows
//! what may be a tag. A text of which it does not hold is not read.

use crate::text::{chars_of, matches_at, occurs_at};
use vstd::prelude::*;

verus! {

/// A letter or a digit of ASCII.
pub open spec fn is_alphanumeric(c: char) -> bool {
    ('a' <= c && c <= 'z') || ('A' <= c && c <= 'Z') || ('0' <= c && c <= '9')
}

/// One of the six words for a number that is not finite stands at `i`.
pub open spec fn spelled(text: Seq<char>, i: int) -> bool {
    matches_at(text, i, ".inf"@) || matches_at(text, i, ".Inf"@) || matches_at(text, i, ".INF"@)
        || matches_at(text, i, ".nan"@) || matches_at(text, i, ".NaN"@) || matches_at(
        text,
        i,
        ".NAN"@,
    )
}

/// No letter or digit stands before `i`: a word may begin there.
pub open spec fn begins(text: Seq<char>, i: int) -> bool {
    i <= 0 || !is_alphanumeric(text[i - 1])
}

/// One of the six words stands at `i` as a word of its own: neither a
/// letter nor a digit stands before it or behind it.
pub open spec fn bare(text: Seq<char>, i: int) -> bool {
    spelled(text, i) && begins(text, i) && (i + 4 >= text.len() || !is_alphanumeric(text[i + 4]))
}

/// Where a text stands with regard to a tag.
#[derive(Debug, Clone, Copy, PartialEq, Eq, Structural)]
pub enum Tagging {
    /// Apart from any tag.
    Apart,
    /// In what may be a tag, or an anchor beside one.
    Tag,
    /// Behind what may be a tag, before what it is a tag of.
    Behind,
    /// In a comment behind what may be a tag.
    Comment,
}

/// A blank, the end of a line, or a character outside ASCII, which may be
/// either.
pub open spec fn is_blank(c: char) -> bool {
    c == ' ' || c == '\t' || c == '\n' || c == '\r' || c > '\x7f'
}

/// Where the text stands after the character `c`, before which `fresh`
/// says that a word may begin. A `!` at the beginning of a word may begin a
/// tag; the tag ends with a blank; blanks, comments and an anchor may stand
/// between it and what it is a tag of.
pub open spec fn tagged(t: Tagging, c: char, fresh: bool) -> Tagging {
    match t {
        Tagging::Apart => if c == '!' && fresh {
            Tagging::Tag
        } else {
            Tagging::Apart
        },
        Tagging::Tag => if is_blank(c) {
            Tagging::Behind
        } else {
            Tagging::Tag
        },
        Tagging::Behind => if is_blank(c) {
            Tagging::Behind
        } else if c == '!' || c == '&' {
            Tagging::Tag
        } else if c == '#' {
            Tagging::Comment
        } else {
            Tagging::Apart
        },
        Tagging::Comment => if c == '\n' {
            Tagging::Behind
        } else if c == '!' && fresh {
            Tagging::Tag
        } else {
            Tagging::Comment
        },
    }
}

/// What is known of a text after some of its characters.
pub struct Seen {
    pub tagging: Tagging,
    /// Whether a number that is not finite may have been written.
    pub risky: bool,
}

/// What is known of `text` after its first `n` characters.
pub open spec fn seen(text: Seq<char>, n: int) -> Seen
    decreases n,
{
    if n <= 0 {
        Seen { tagging: Tagging::Apart, risky: false }
    } else {
        let before = seen(text, n - 1);
        let c = text[n - 1];
        Seen {
            tagging: tagged(before.tagging, c, begins(text, n - 1)),
            risky: before.risky || bare(text, n - 1) || (c == '"' && (before.tagging
                == Tagging::Behind || before.tagging == Tagging::Comment)),
        }
    }
}

/// No number that is not finite can be read from `text`.
pub open spec fn finite(text: Seq<char>) -> bool {
    !seen(text, text.len() as int).risky
}

/// Whether `c` is a letter or a digit of ASCII.
fn alphanumeric(c: char) -> (r: bool)
    ensures
        r == is_alphanumeric(c),
{
    ('a' <= c && c <= 'z') || ('A' <= c && c <= 'Z') || ('0' <= c && c <= '9')
}

/// Whether a word may begin at `i`.
fn begins_at(text: &[char], i: usize) -> (r: bool)
    requires
        i <= text.len(),
    ensures
        r == begins(text@, i as int),
{
    i == 0 || !alphanumeric(text[i - 1])
}

/// Where the text stands after the character `c`.
fn tag_after(t: Tagging, c: char, fresh: bool) -> (r: Tagging)
    ensures
        r == tagged(t, c, fresh),
{
    let blank = c == ' ' || c == '\t' || c == '\n' || c == '\r' || c > '\x7f';
    match t {
        Tagging::Apart => if c == '!' && fresh {
            Tagging::Tag
        } else {
            Tagging::Apart
        },
        Tagging::Tag => if blank {
            Tagging::Behind
        } else {
            Tagging::Tag
        },
        Tagging::Behind => if blank {
            Tagging::Behind
        } else if c == '!' || c == '&' {
            Tagging::Tag
        } else if c == '#' {
            Tagging::Comment
        } else {
            Tagging::Apart
        },
        Tagging::Comment => if c == '\n' {
            Tagging::Behind
        } else if c == '!' && fresh {
            Tagging::Tag
        } else {
            Tagging::Comment
        },
    }
}

/// Whether no number that is not finite can be read from `text`.
pub fn is_finite(text: &str) -> (r: bool)
    ensures
        r == finite(text@),
{
    let chars = chars_of(text);
    let words = [
        chars_of(".inf"),
        chars_of(".Inf"),
        chars_of(".INF"),
        chars_of(".nan"),
        chars_of(".NaN"),
        chars_of(".NAN"),
    ];
    let mut tagging = Tagging::Apart;
    let mut i: usize = 0;
    while i < chars.len()
        invariant
            i <= chars.len(),
            chars@ == text@,
            words[0]@ == ".inf"@,
            words[1]@ == ".Inf"@,
            words[2]@ == ".INF"@,
            words[3]@ == ".nan"@,
            words[4]@ == ".NaN"@,
            words[5]@ == ".NAN"@,
            seen(text@, i as int) == (Seen { tagging, risky: false }),
        decreases chars.len() - i,
    {
        let c = chars[i];
        let fresh = begins_at(chars.as_slice(), i);
        let spelled_here = occurs_at(chars.as_slice(), i, words[0].as_slice()) || occurs_at(
            chars.as_slice(),
            i,
            words[1].as_slice(),
        ) || occurs_at(chars.as_slice(), i, words[2].as_slice()) || occurs_at(
            chars.as_slice(),
            i,
            words[3].as_slice(),
        ) || occurs_at(chars.as_slice(), i, words[4].as_slice()) || occurs_at(
            chars.as_slice(),
            i,
            words[5].as_slice(),
        );
        let alone = spelled_here && fresh && (chars.len() - i <= 4 || !alphanumeric(chars[i + 4]));
        let quoted = c == '"' && (tagging == Tagging::Behind || tagging == Tagging::Comment);
        if alone || quoted {
            proof {
                assert(seen(text@, i as int + 1).risky);
                lemma_risk_stays(text@, i as int + 1, text@.len() as int);
            }
            return false;
        }
        tagging = tag_after(tagging, c, fresh);
        i += 1;
    }
    true
}

/// What may have been written stays written.
pub proof fn lemma_risk_stays(text: Seq<char>, k: int, n: int)
    requires
        seen(text, k).risky,
        k <= n,
    ensures
        seen(text, n).risky,
    decreases n - k,
{
    if k < n {
        lemma_risk_stays(text, k, n - 1);
    }
}

} // verus!
