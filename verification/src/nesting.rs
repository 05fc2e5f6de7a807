//! How deep a configuration text nests.
//!
//! The parser of configuration texts has no limit of its own. It descends
//! once for every bracket, brace and parenthesis that is open, for every
//! operator, and for every `${` and every `%{if` or `%{for` in a string;
//! and the tree that it builds is as deep. [`nesting`] counts, from left to
//! right, how many of these can be open at once, and never counts fewer
//! than there are:
//!
//! - an opening bracket counts until the bracket that closes it;
//! - an operator counts until the bracket around it closes or, directly in
//!   the bracket in which the first of them stands, until the next `=` that
//!   gives a name its value, as none has an end of its own (a `-` that
//!   goes on a name is no operator);
//! - in a string `${` counts until its `}`, and so does every operator
//!   between them; a bracket there counts until the bracket that closes
//!   it; `$${` and `%%{` open nothing;
//! - `%{if` and `%{for` count until `%{endif` or `%{endfor`, and between
//!   them neither a double quote nor the word behind `<<` ends a string;
//! - the text behind `<<` and a word is read as a string is, to the line
//!   that holds the word again;
//! - a comment counts for nothing, from `#` or `//` to the end of its line
//!   or from `/*` to `*/`.
//!
//! A string between `${` and `}` is read as any other, with what counts
//! around it kept in mind until it ends.
//!
//! Where the text takes a form that is not followed here, nothing closes
//! any more from there on, and everything that can open counts to the end
//! of the text. These forms stand behind `<<`: a word of other characters
//! than letters and digits of ASCII, `_` and `-`, a first line that ends
//! the text, and a character outside ASCII behind the word that ends it.

use crate::text::chars_of;
use vstd::prelude::*;

verus! {

/// What the characters read last are of a name. A name begins with a
/// letter and goes on with letters, digits and `-`; but behind `in` and
/// `if` a value may begin at once.
#[derive(Debug, Clone, Copy, PartialEq, Eq, Structural)]
pub enum Word {
    /// No part of a name.
    Free,
    /// The letter `i`, with which a name began.
    First,
    /// The name `in` or `if`, so far.
    Key,
    /// Any other beginning of a name.
    Name,
}

/// Where the reading of a text stands.
#[derive(Debug, Clone, Copy, PartialEq, Eq, Structural)]
pub enum Mode {
    /// Among names, operators and brackets.
    Code,
    /// In a comment that ends with its line.
    Comment,
    /// In a comment that ends with `*/`.
    Block,
    /// In a string.
    Quoted,
    /// In a string, behind a backslash.
    Escaped,
    /// Behind `<<`, in the word that will end the text that follows.
    Tag,
    /// In the text behind `<<` and its word.
    Here,
    /// In a string or in the text behind `<<`, between `${` or `%{` and
    /// `}`.
    Inside,
    /// There, in a comment that ends with its line.
    InsideComment,
    /// There, in a comment that ends with `*/`.
    InsideBlock,
    /// In a form that is not followed: nothing closes any more.
    Open,
}

/// What is kept in mind of a string while a string between its `${` and
/// `}` is read: the word that ends it, and what counted in it.
pub struct Frame {
    pub tag: Seq<char>,
    pub dirs: nat,
    pub inner: nat,
    pub open: nat,
}

/// What is known of a text after some of its characters.
pub struct Reading {
    pub mode: Mode,
    /// The character before, where it matters; a space where it does not.
    pub last: char,
    /// In a string: whether `last` is a `$` or `%` behind another of its
    /// kind, so that a brace behind it opens nothing.
    pub run: bool,
    /// What the characters before are of a name.
    pub word: Word,
    /// The word that ends the text behind `<<`; empty outside such a text.
    pub tag: Seq<char>,
    /// How much of that word the line has shown so far, behind nothing but
    /// blanks; below zero where the line holds anything else.
    pub at: int,
    /// Whether the line is the first of the text behind `<<`, and in the
    /// word whether nothing of it is read yet.
    pub first: bool,
    /// How many brackets are open.
    pub depth: nat,
    /// How many operators count, and at which depth the first of them
    /// stood.
    pub marks: nat,
    pub floor: nat,
    /// How many `%{if` and `%{for` of the string are open.
    pub dirs: nat,
    /// Behind `%{`: 1 before its word, 2 behind an `e` that began the word;
    /// otherwise 0.
    pub lead: nat,
    /// What counts between `${` and `}` besides the brackets: the `${`
    /// and the operators. In a form that is not followed, all that counts.
    pub inner: nat,
    /// How many brackets are open between `${` or `%{` and `}`.
    pub open: nat,
    /// The strings around the one that is read, from the outermost, and
    /// how much counts in all of them.
    pub stack: Seq<Frame>,
    pub base: nat,
    /// The most that counted at once.
    pub deepest: nat,
}

/// A letter of ASCII, or `_`: what a name begins with.
pub open spec fn is_letter(c: char) -> bool {
    ('a' <= c && c <= 'z') || ('A' <= c && c <= 'Z') || c == '_'
}

/// A digit of ASCII.
pub open spec fn is_digit(c: char) -> bool {
    '0' <= c && c <= '9'
}

/// A character that is an operator wherever it stands.
pub open spec fn is_sign(c: char) -> bool {
    c == '!' || c == '?' || c == '+' || c == '*' || c == '%' || c == '<' || c == '>'
}

/// The character `c` behind `last` is an operator, or completes one: a
/// sign, a `-` that goes on no name, or the second of `&&` and `||`.
pub open spec fn operates(c: char, last: char, word: Word) -> bool {
    is_sign(c) || (c == '-' && (word == Word::Free || word == Word::Key)) || (c == '&' && last
        == '&') || (c == '|' && last == '|')
}

/// A character behind which `=` compares and gives no name a value. (An
/// `=` before `>` is no operator either: the two are an arrow.)
pub open spec fn compares(last: char) -> bool {
    last == '!' || last == '<' || last == '>'
}

/// A character that may open something, whatever stands around it.
pub open spec fn opens(c: char) -> bool {
    c == '[' || c == '{' || c == '(' || is_sign(c) || c == '/' || c == '-' || c == '=' || c
        == '&' || c == '|'
}

/// What `c` behind `last` is of a name. No name begins behind a digit or a
/// letter that belongs to none, and behind `in` and `if` only a letter goes
/// on with the name.
pub open spec fn follows(c: char, last: char, word: Word) -> Word {
    match word {
        Word::Free => if is_letter(c) && !is_letter(last) && !is_digit(last) {
            if c == 'i' {
                Word::First
            } else {
                Word::Name
            }
        } else {
            Word::Free
        },
        Word::First => if c == 'n' || c == 'f' {
            Word::Key
        } else if is_letter(c) || is_digit(c) || c == '-' {
            Word::Name
        } else {
            Word::Free
        },
        Word::Key => if is_letter(c) {
            Word::Name
        } else {
            Word::Free
        },
        Word::Name => if is_letter(c) || is_digit(c) || c == '-' {
            Word::Name
        } else {
            Word::Free
        },
    }
}

/// `r` behind an `=` that gave a name its value: what stood before it in
/// the same bracket is complete, so the operators that were first counted
/// in this bracket are gone.
pub open spec fn released(r: Reading) -> Reading {
    if r.marks > 0 && r.floor == r.depth {
        Reading { marks: 0, ..r }
    } else {
        r
    }
}

/// `r` before `c` is read: behind a single `=`, what stood before it counts
/// no more; and a `/` that begins no comment was an operator.
pub open spec fn settled(r: Reading, c: char) -> Reading {
    if r.last == '=' && c != '=' && c != '>' {
        released(r)
    } else if r.last == '/' && c != '/' && c != '*' {
        marked(r, ' ')
    } else {
        r
    }
}

/// What may still come to count for what was read last: a `/` among names
/// and brackets, and a `%{` before its word.
pub open spec fn pending(r: Reading) -> nat {
    if (r.mode == Mode::Code && r.last == '/') || (r.mode == Mode::Inside && r.lead == 1) {
        1
    } else {
        0
    }
}

/// Nothing read yet.
pub open spec fn start() -> Reading {
    Reading {
        mode: Mode::Code,
        last: ' ',
        run: false,
        word: Word::Free,
        tag: Seq::empty(),
        at: 0,
        first: false,
        depth: 0,
        marks: 0,
        floor: 0,
        dirs: 0,
        lead: 0,
        inner: 0,
        open: 0,
        stack: Seq::empty(),
        base: 0,
        deepest: 0,
    }
}

/// `r` where a string begins between `${` and `}`: what counts around it
/// is kept in mind.
pub open spec fn entered(r: Reading) -> Reading {
    Reading {
        stack: r.stack.push(Frame { tag: r.tag, dirs: r.dirs, inner: r.inner, open: r.open }),
        base: r.base + r.dirs + r.inner + r.open,
        tag: Seq::empty(),
        dirs: 0,
        inner: 0,
        open: 0,
        ..r
    }
}

/// `r` where such a string ends: what counted around it counts as before.
pub open spec fn left(r: Reading) -> Reading {
    let frame = r.stack.last();
    let counted = frame.dirs + frame.inner + frame.open;
    Reading {
        stack: r.stack.drop_last(),
        base: if r.base >= counted {
            (r.base - counted) as nat
        } else {
            0
        },
        tag: frame.tag,
        dirs: frame.dirs,
        inner: frame.inner,
        open: frame.open,
        ..r
    }
}

/// `r` turned to another mode.
pub open spec fn turned(r: Reading, mode: Mode) -> Reading {
    Reading { mode, last: ' ', run: false, word: Word::Free, ..r }
}

/// `r` with one more operator that counts.
pub open spec fn marked(r: Reading, c: char) -> Reading {
    Reading {
        marks: r.marks + 1,
        floor: if r.marks == 0 {
            r.depth
        } else {
            r.floor
        },
        last: c,
        word: Word::Free,
        ..r
    }
}

/// `r` after a closing bracket: one bracket fewer is open, and with the
/// bracket around them the operators are gone.
pub open spec fn closed(r: Reading, c: char) -> Reading {
    if r.depth == 0 {
        Reading { last: c, word: Word::Free, ..r }
    } else if r.marks > 0 && r.depth - 1 < r.floor {
        Reading { depth: (r.depth - 1) as nat, marks: 0, last: c, word: Word::Free, ..r }
    } else {
        Reading { depth: (r.depth - 1) as nat, last: c, word: Word::Free, ..r }
    }
}

/// The reading after one more character among names and brackets.
pub open spec fn in_code(r: Reading, c: char) -> Reading {
    code(settled(r, c), c)
}

/// The reading after one more character among names and brackets, once it
/// is settled what counts before it.
pub open spec fn code(r: Reading, c: char) -> Reading {
    if c == '"' {
        Reading { dirs: 0, inner: 0, open: 0, ..turned(r, Mode::Quoted) }
    } else if c == '#' {
        turned(r, Mode::Comment)
    } else if c == '/' && r.last == '/' {
        turned(r, Mode::Comment)
    } else if c == '*' && r.last == '/' {
        turned(r, Mode::Block)
    } else if c == '/' {
        Reading { last: c, word: Word::Free, ..r }
    } else if c == '<' && r.last == '<' {
        Reading {
            tag: Seq::empty(),
            first: true,
            dirs: 0,
            inner: 0,
            open: 0,
            ..turned(r, Mode::Tag)
        }
    } else if c == '[' || c == '{' || c == '(' {
        Reading { depth: r.depth + 1, last: c, word: Word::Free, ..r }
    } else if c == ']' || c == '}' || c == ')' {
        closed(r, c)
    } else if c == '=' && r.last == '=' {
        Reading { last: ' ', ..marked(r, c) }
    } else if (c == '=' && compares(r.last)) || (c == '>' && r.last == '=') {
        Reading { last: ' ', word: Word::Free, ..r }
    } else if operates(c, r.last, r.word) {
        marked(r, c)
    } else {
        Reading { last: c, word: follows(c, r.last, r.word), ..r }
    }
}

/// The reading after one more character of a string or of the text behind
/// `<<` that does not end it. A brace behind one `$` or one `%` begins what
/// has its end at `}`; behind two or more of them in a row it is a brace
/// and no more.
pub open spec fn literal(r: Reading, c: char) -> Reading {
    if c == '{' && r.last == '$' && !r.run {
        Reading { inner: 1, open: 0, lead: 0, ..turned(r, Mode::Inside) }
    } else if c == '{' && r.last == '%' && !r.run {
        Reading { inner: 0, open: 0, lead: 1, ..turned(r, Mode::Inside) }
    } else {
        Reading { last: c, run: (c == '$' || c == '%') && c == r.last, ..r }
    }
}

/// The reading after one more character in a string. Between `%{if` or
/// `%{for` and its end neither a double quote nor a backslash is more than
/// a character of the string.
pub open spec fn in_quoted(r: Reading, c: char) -> Reading {
    if c == '"' && r.dirs == 0 && r.stack.len() > 0 {
        Reading { lead: 0, ..turned(left(r), Mode::Inside) }
    } else if c == '"' && r.dirs == 0 {
        Reading { inner: 0, open: 0, ..turned(r, Mode::Code) }
    } else if c == '\\' && r.dirs == 0 {
        turned(r, Mode::Escaped)
    } else {
        literal(r, c)
    }
}

/// A blank, or the end of a line.
pub open spec fn is_space(c: char) -> bool {
    c == ' ' || c == '\t' || c == '\n' || c == '\r'
}

/// `r` behind `%{` with one more character: the word that follows `%{`
/// says what it is. A word that begins with `en` ends what an earlier word
/// began; one that begins with another `e` does neither; any other begins
/// what counts until its end.
pub open spec fn led(r: Reading, c: char) -> Reading {
    if r.lead == 1 {
        if is_space(c) || c == '~' {
            r
        } else if c == 'e' {
            Reading { lead: 2, ..r }
        } else {
            Reading { lead: 0, dirs: r.dirs + 1, ..r }
        }
    } else if r.lead == 2 {
        if c == 'n' && r.dirs > 0 {
            Reading { lead: 0, dirs: (r.dirs - 1) as nat, ..r }
        } else {
            Reading { lead: 0, ..r }
        }
    } else {
        r
    }
}

/// The mode of a string: that of the text behind `<<` where there is a
/// word to end it.
pub open spec fn string_mode(r: Reading) -> Mode {
    if r.tag.len() > 0 {
        Mode::Here
    } else {
        Mode::Quoted
    }
}

/// The reading after one more character between `${` or `%{` and `}`.
pub open spec fn in_inside(r: Reading, c: char) -> Reading {
    inside(led(r, c), c)
}

/// The same, once the word behind `%{` is taken into account.
pub open spec fn inside(r: Reading, c: char) -> Reading {
    if c == '}' && r.open == 0 {
        Reading { inner: 0, lead: 0, at: -1, ..turned(r, string_mode(r)) }
    } else if c == '}' || c == ']' || c == ')' {
        Reading {
            open: if r.open > 0 {
                (r.open - 1) as nat
            } else {
                0
            },
            last: c,
            word: Word::Free,
            ..r
        }
    } else if c == '{' || c == '[' || c == '(' {
        Reading { open: r.open + 1, last: c, word: Word::Free, ..r }
    } else if c == '"' {
        turned(entered(r), Mode::Quoted)
    } else if c == '#' || (c == '/' && r.last == '/') {
        turned(r, Mode::InsideComment)
    } else if c == '*' && r.last == '/' {
        turned(r, Mode::InsideBlock)
    } else if c == '<' && r.last == '<' {
        Reading { first: true, ..turned(entered(r), Mode::Tag) }
    } else if c == '=' && r.last == '=' {
        Reading { inner: r.inner + 1, last: ' ', word: Word::Free, ..r }
    } else if (c == '=' && compares(r.last)) || (c == '>' && r.last == '=') {
        Reading { last: ' ', word: Word::Free, ..r }
    } else if c == '/' || operates(c, r.last, r.word) {
        Reading { inner: r.inner + 1, last: c, word: Word::Free, ..r }
    } else {
        Reading { last: c, word: follows(c, r.last, r.word), ..r }
    }
}

/// The reading after one more character of the word behind `<<`: a `-`
/// may stand before the word, and the line ends behind it. A word of other
/// characters than letters and digits of ASCII, `_` and `-` is not followed.
pub open spec fn in_tag(r: Reading, c: char) -> Reading {
    if r.last == '\r' {
        if c == '\n' {
            Reading { at: 0, first: true, ..turned(r, Mode::Here) }
        } else {
            turned(r, Mode::Open)
        }
    } else if c == '-' && r.first {
        Reading { first: false, ..r }
    } else if is_letter(c) || (r.tag.len() > 0 && (is_digit(c) || c == '-')) {
        Reading { tag: r.tag.push(c), first: false, ..r }
    } else if c == '\n' && r.tag.len() > 0 {
        Reading { at: 0, first: true, ..turned(r, Mode::Here) }
    } else if c == '\r' && r.tag.len() > 0 {
        Reading { last: c, ..r }
    } else {
        turned(r, Mode::Open)
    }
}

/// The reading after one more character of the text behind `<<` that is no
/// part of the word that ends it.
pub open spec fn in_line(r: Reading, c: char) -> Reading {
    if c == '\n' {
        Reading { at: 0, first: false, last: ' ', run: false, ..r }
    } else {
        Reading { at: -1, first: false, ..literal(r, c) }
    }
}

/// The reading after one more character of the text behind `<<`. The text
/// ends with the line that holds its word behind nothing but blanks, where
/// the word does not go on, unless a `%{if` or `%{for` is open. Where that
/// is the first line, or where a character outside ASCII follows the word,
/// the text is not followed.
pub open spec fn in_here(r: Reading, c: char) -> Reading {
    if r.dirs > 0 {
        in_line(r, c)
    } else if r.at == r.tag.len() {
        if is_letter(c) || is_digit(c) || c == '-' {
            in_line(r, c)
        } else if r.first || c > '\x7f' {
            turned(r, Mode::Open)
        } else if r.stack.len() > 0 {
            in_inside(Reading { at: -1, first: false, lead: 0, ..turned(left(r), Mode::Inside) }, c)
        } else {
            in_code(Reading { tag: Seq::empty(), at: 0, first: false, ..turned(r, Mode::Code) }, c)
        }
    } else if 0 <= r.at < r.tag.len() && c == r.tag[r.at] {
        Reading { at: r.at + 1, last: c, run: false, ..r }
    } else if r.at == 0 && (c == ' ' || c == '\t') {
        Reading { last: c, run: false, ..r }
    } else {
        in_line(r, c)
    }
}

/// The reading after one more character, before the most is taken.
pub open spec fn moved(r: Reading, c: char) -> Reading {
    match r.mode {
        Mode::Code => in_code(r, c),
        Mode::Comment => if c == '\n' {
            turned(r, Mode::Code)
        } else {
            r
        },
        Mode::Block => if c == '/' && r.last == '*' {
            turned(r, Mode::Code)
        } else {
            Reading { last: c, ..r }
        },
        Mode::Quoted => in_quoted(r, c),
        Mode::Escaped => turned(r, Mode::Quoted),
        Mode::Tag => in_tag(r, c),
        Mode::Here => in_here(r, c),
        Mode::Inside => in_inside(r, c),
        Mode::InsideComment => if c == '\n' {
            turned(r, Mode::Inside)
        } else {
            r
        },
        Mode::InsideBlock => if c == '/' && r.last == '*' {
            turned(r, Mode::Inside)
        } else {
            Reading { last: c, ..r }
        },
        Mode::Open => if opens(c) {
            Reading { inner: r.inner + 1, ..r }
        } else {
            r
        },
    }
}

/// How much counts at once in a reading.
pub open spec fn level(r: Reading) -> nat {
    r.depth + r.marks + r.base + r.dirs + r.inner + r.open
}

/// The reading after one more character.
pub open spec fn step(r: Reading, c: char) -> Reading {
    let next = moved(r, c);
    Reading {
        deepest: if level(next) > next.deepest {
            level(next)
        } else {
            next.deepest
        },
        ..next
    }
}

/// The reading after the first `n` characters of `text`.
pub open spec fn read(text: Seq<char>, n: int) -> Reading
    decreases n,
{
    if n <= 0 {
        start()
    } else {
        step(read(text, n - 1), text[n - 1])
    }
}

/// How deep `text` nests: the most that counts at once anywhere in it.
pub open spec fn nesting(text: Seq<char>) -> nat {
    read(text, text.len() as int).deepest
}

/// How deep a text may nest to be handed to the parser. A stack of two
/// mebibytes was seen to hold some eighty descents of the parser, of
/// whatever kind; the limit leaves room beside them.
pub const NESTING_LIMIT: usize = 32;

/// A string around the one that is read, as it is held.
struct HeldFrame {
    tag: Vec<char>,
    dirs: usize,
    inner: usize,
    open: usize,
}

impl View for HeldFrame {
    type V = Frame;

    closed spec fn view(&self) -> Frame {
        Frame {
            tag: self.tag@,
            dirs: self.dirs as nat,
            inner: self.inner as nat,
            open: self.open as nat,
        }
    }
}

/// The strings that are held, each as what it stands for.
closed spec fn frames(held: Seq<HeldFrame>) -> Seq<Frame> {
    Seq::new(held.len(), |i: int| held[i]@)
}

/// A reading as it is held while a text is read.
struct Held {
    mode: Mode,
    last: char,
    run: bool,
    word: Word,
    tag: Vec<char>,
    at: usize,
    live: bool,
    first: bool,
    depth: usize,
    marks: usize,
    floor: usize,
    dirs: usize,
    lead: u8,
    inner: usize,
    open: usize,
    stack: Vec<HeldFrame>,
    base: usize,
    deepest: usize,
}

impl View for Held {
    type V = Reading;

    closed spec fn view(&self) -> Reading {
        Reading {
            mode: self.mode,
            last: self.last,
            run: self.run,
            word: self.word,
            tag: self.tag@,
            at: if self.live {
                self.at as int
            } else {
                -1
            },
            first: self.first,
            depth: self.depth as nat,
            marks: self.marks as nat,
            floor: self.floor as nat,
            dirs: self.dirs as nat,
            lead: self.lead as nat,
            inner: self.inner as nat,
            open: self.open as nat,
            stack: frames(self.stack@),
            base: self.base as nat,
            deepest: self.deepest as nat,
        }
    }
}

/// How much counts in the strings that are kept in mind.
pub open spec fn total(stack: Seq<Frame>) -> nat
    decreases stack.len(),
{
    if stack.len() == 0 {
        0
    } else {
        total(stack.drop_last()) + stack.last().dirs + stack.last().inner + stack.last().open
    }
}

impl Held {
    /// What is held of the strings around is what counts in them.
    closed spec fn wf(&self) -> bool {
        self.base == total(frames(self.stack@))
    }

    /// How much counts at once, with what may still come to count.
    closed spec fn sum(&self) -> int {
        self.depth + self.marks + self.base + self.dirs + self.inner + self.open + pending(
            self@,
        )
    }
}

/// Whether `c` behind `last` is an operator, or completes one.
fn operator(c: char, last: char, word: Word) -> (r: bool)
    ensures
        r == operates(c, last, word),
{
    c == '!' || c == '?' || c == '+' || c == '*' || c == '%' || c == '<' || c == '>' || (c
        == '-' && (word == Word::Free || word == Word::Key)) || (c == '&' && last == '&') || (c == '|' && last
        == '|')
}

/// Whether `c` is a letter of ASCII, or `_`.
fn letter(c: char) -> (r: bool)
    ensures
        r == is_letter(c),
{
    ('a' <= c && c <= 'z') || ('A' <= c && c <= 'Z') || c == '_'
}

/// Whether `c` is a digit of ASCII.
fn digit(c: char) -> (r: bool)
    ensures
        r == is_digit(c),
{
    '0' <= c && c <= '9'
}

/// What `c` behind `last` is of a name.
fn goes_on(c: char, last: char, word: Word) -> (r: Word)
    ensures
        r == follows(c, last, word),
{
    match word {
        Word::Free => if letter(c) && !letter(last) && !digit(last) {
            if c == 'i' {
                Word::First
            } else {
                Word::Name
            }
        } else {
            Word::Free
        },
        Word::First => if c == 'n' || c == 'f' {
            Word::Key
        } else if letter(c) || digit(c) || c == '-' {
            Word::Name
        } else {
            Word::Free
        },
        Word::Key => if letter(c) {
            Word::Name
        } else {
            Word::Free
        },
        Word::Name => if letter(c) || digit(c) || c == '-' {
            Word::Name
        } else {
            Word::Free
        },
    }
}

/// `r` turned to another mode.
fn turn(r: Held, mode: Mode) -> (next: Held)
    ensures
        next@ == turned(r@, mode),
        next.depth == r.depth,
        next.marks == r.marks,
        next.dirs == r.dirs,
        next.inner == r.inner,
        next.open == r.open,
        next.lead == r.lead,
        next.tag == r.tag,
        next.at == r.at,
        next.live == r.live,
        next.first == r.first,
        next.floor == r.floor,
        next.deepest == r.deepest,
        next.base == r.base,
        next.stack == r.stack,
        r.wf() ==> next.wf(),
{
    let mut r = r;
    r.mode = mode;
    r.last = ' ';
    r.run = false;
    r.word = Word::Free;
    r
}

/// `r` before `c` is read.
fn settle(r: Held, c: char) -> (next: Held)
    requires
        r.mode == Mode::Code,
        r.sum() < usize::MAX,
        r.wf(),
    ensures
        next.wf(),
        next@ == settled(r@, c),
        next.mode == Mode::Code,
        next.sum() <= r.sum(),
{
    let mut r = r;
    if r.last == '=' && c != '=' && c != '>' {
        if r.marks > 0 && r.floor == r.depth {
            r.marks = 0;
        }
    } else if r.last == '/' && c != '/' && c != '*' {
        if r.marks == 0 {
            r.floor = r.depth;
        }
        r.marks = r.marks + 1;
        r.last = ' ';
        r.word = Word::Free;
    }
    r
}

/// `r` where a string begins between `${` and `}`.
fn enter(r: Held) -> (next: Held)
    requires
        r.sum() < usize::MAX,
        r.wf(),
    ensures
        next@ == entered(r@),
        next.wf(),
        next.last == r.last,
        next.lead == r.lead,
        next.depth + next.marks + next.base == r.depth + r.marks + r.base + r.dirs + r.inner
            + r.open,
        next.dirs == 0,
        next.inner == 0,
        next.open == 0,
        next.mode == r.mode,
{
    let Held {
        mode,
        last,
        run,
        word,
        tag,
        at,
        live,
        first,
        depth,
        marks,
        floor,
        dirs,
        lead,
        inner,
        open,
        stack,
        base,
        deepest,
    } = r;
    let mut stack = stack;
    let ghost before = stack@;
    stack.push(HeldFrame { tag, dirs, inner, open });
    assert(frames(stack@) =~= frames(before).push(
        Frame { tag: tag@, dirs: dirs as nat, inner: inner as nat, open: open as nat },
    ));
    assert(frames(stack@).drop_last() =~= frames(before));
    Held {
        mode,
        last,
        run,
        word,
        tag: Vec::new(),
        at,
        live,
        first,
        depth,
        marks,
        floor,
        dirs: 0,
        lead,
        inner: 0,
        open: 0,
        stack,
        base: base + dirs + inner + open,
        deepest,
    }
}

/// `r` where such a string ends.
fn leave(r: Held) -> (next: Held)
    requires
        r.stack.len() > 0,
        r.wf(),
    ensures
        next@ == left(r@),
        next.wf(),
        next.depth == r.depth,
        next.marks == r.marks,
        next.base + next.dirs + next.inner + next.open == r.base,
        next.mode == r.mode,
        next.lead == r.lead,
        next.last == r.last,
{
    let Held {
        mode,
        last,
        run,
        word,
        tag,
        at,
        live,
        first,
        depth,
        marks,
        floor,
        dirs,
        lead,
        inner,
        open,
        stack,
        base,
        deepest,
    } = r;
    let mut stack = stack;
    let ghost before = stack@;
    assert(frames(before).last() == before.last()@);
    let frame = stack.pop().unwrap();
    assert(frames(stack@) =~= frames(before).drop_last());
    let HeldFrame { tag: kept, dirs: d, inner: n, open: o } = frame;
    Held {
        mode,
        last,
        run,
        word,
        tag: kept,
        at,
        live,
        first,
        depth,
        marks,
        floor,
        dirs: d,
        lead,
        inner: n,
        open: o,
        stack,
        base: base - d - n - o,
        deepest,
    }
}

/// The reading after one more character among names and brackets.
fn advance_code(r: Held, c: char) -> (next: Held)
    requires
        r.mode == Mode::Code,
        r.sum() < usize::MAX,
        r.wf(),
    ensures
        next.wf(),
        next@ == in_code(r@, c),
        next.sum() <= r.sum() + 1,
{
    let r = settle(r, c);
    advance_settled(r, c)
}

/// The reading after one more character among names and brackets, once it
/// is settled what counts before it.
fn advance_settled(r: Held, c: char) -> (next: Held)
    requires
        r.mode == Mode::Code,
        r.sum() < usize::MAX,
        r.wf(),
    ensures
        next.wf(),
        next@ == code(r@, c),
        next.sum() <= r.sum() + 1,
{
    let mut r = r;
    if c == '"' {
        r.dirs = 0;
        r.inner = 0;
        r.open = 0;
        r = turn(r, Mode::Quoted);
    } else if c == '#' {
        r = turn(r, Mode::Comment);
    } else if (c == '/' || c == '*') && r.last == '/' {
        r = turn(
            r,
            if c == '/' {
                Mode::Comment
            } else {
                Mode::Block
            },
        );
    } else if c == '/' {
        r.last = c;
        r.word = Word::Free;
    } else if c == '<' && r.last == '<' {
        r.tag = Vec::new();
        r.first = true;
        r.dirs = 0;
        r.inner = 0;
        r.open = 0;
        r = turn(r, Mode::Tag);
    } else if c == '[' || c == '{' || c == '(' {
        r.depth = r.depth + 1;
        r.last = c;
        r.word = Word::Free;
    } else if c == ']' || c == '}' || c == ')' {
        if r.depth > 0 {
            r.depth = r.depth - 1;
            if r.marks > 0 && r.depth < r.floor {
                r.marks = 0;
            }
        }
        r.last = c;
        r.word = Word::Free;
    } else if (c == '=' && (r.last == '!' || r.last == '<' || r.last == '>')) || (c == '>'
        && r.last == '=') {
        r.last = ' ';
        r.word = Word::Free;
    } else if (c == '=' && r.last == '=') || operator(c, r.last, r.word) {
        if r.marks == 0 {
            r.floor = r.depth;
        }
        r.marks = r.marks + 1;
        r.last = if c == '=' {
            ' '
        } else {
            c
        };
        r.word = Word::Free;
    } else {
        r.word = goes_on(c, r.last, r.word);
        r.last = c;
    }
    r
}

/// The reading after one more character of a string or of the text behind
/// `<<` that does not end it.
fn advance_literal(r: Held, c: char) -> (next: Held)
    requires
        r.mode == Mode::Quoted || r.mode == Mode::Here,
        r.sum() < usize::MAX,
        r.wf(),
    ensures
        next.wf(),
        next@ == literal(r@, c),
        next.sum() <= r.sum() + 1,
        next.live == r.live,
        next.at == r.at,
        next.first == r.first,
{
    let mut r = r;
    if c == '{' && r.last == '$' && !r.run {
        r.inner = 1;
        r.open = 0;
        r.lead = 0;
        r = turn(r, Mode::Inside);
    } else if c == '{' && r.last == '%' && !r.run {
        r.inner = 0;
        r.open = 0;
        r.lead = 1;
        r = turn(r, Mode::Inside);
    } else {
        r.run = (c == '$' || c == '%') && c == r.last;
        r.last = c;
    }
    r
}

/// The reading after one more character between `${` or `%{` and `}`.
fn advance_inside(r: Held, c: char) -> (next: Held)
    requires
        r.mode == Mode::Inside,
        r.sum() < usize::MAX,
        r.wf(),
    ensures
        next.wf(),
        next@ == in_inside(r@, c),
        next.sum() <= r.sum() + 1,
{
    let r = lead_on(r, c);
    advance_led(r, c)
}

/// `r` behind `%{` with one more character.
fn lead_on(r: Held, c: char) -> (next: Held)
    requires
        r.mode == Mode::Inside,
        r.sum() < usize::MAX,
        r.wf(),
    ensures
        next.wf(),
        next@ == led(r@, c),
        next.mode == Mode::Inside,
        next.sum() <= r.sum(),
{
    let mut r = r;
    if r.lead == 1 {
        if c == ' ' || c == '\t' || c == '\n' || c == '\r' || c == '~' {
        } else if c == 'e' {
            r.lead = 2;
        } else {
            r.lead = 0;
            r.dirs = r.dirs + 1;
        }
    } else if r.lead == 2 {
        if c == 'n' && r.dirs > 0 {
            r.dirs = r.dirs - 1;
        }
        r.lead = 0;
    }
    r
}

/// The reading after one more character between `${` or `%{` and `}`,
/// once the word behind `%{` is taken into account.
fn advance_led(r: Held, c: char) -> (next: Held)
    requires
        r.mode == Mode::Inside,
        r.sum() < usize::MAX,
        r.wf(),
    ensures
        next.wf(),
        next@ == inside(r@, c),
        next.sum() <= r.sum() + 1,
{
    let mut r = r;
    if c == '}' && r.open == 0 {
        r.inner = 0;
        r.lead = 0;
        r.live = false;
        let mode = if r.tag.len() > 0 {
            Mode::Here
        } else {
            Mode::Quoted
        };
        r = turn(r, mode);
    } else if c == '}' || c == ']' || c == ')' {
        if r.open > 0 {
            r.open = r.open - 1;
        }
        r.last = c;
        r.word = Word::Free;
    } else if c == '{' || c == '[' || c == '(' {
        r.open = r.open + 1;
        r.last = c;
        r.word = Word::Free;
    } else if c == '"' {
        r = enter(r);
        r = turn(r, Mode::Quoted);
    } else if c == '#' || (c == '/' && r.last == '/') {
        r = turn(r, Mode::InsideComment);
    } else if c == '*' && r.last == '/' {
        r = turn(r, Mode::InsideBlock);
    } else if c == '<' && r.last == '<' {
        r = enter(r);
        r.first = true;
        r = turn(r, Mode::Tag);
    } else if c == '=' && r.last == '=' {
        r.inner = r.inner + 1;
        r.last = ' ';
        r.word = Word::Free;
    } else if (c == '=' && (r.last == '!' || r.last == '<' || r.last == '>')) || (c == '>'
        && r.last == '=') {
        r.last = ' ';
        r.word = Word::Free;
    } else if c == '/' || operator(c, r.last, r.word) {
        r.inner = r.inner + 1;
        r.last = c;
        r.word = Word::Free;
    } else {
        r.word = goes_on(c, r.last, r.word);
        r.last = c;
    }
    r
}

/// The reading after one more character of the text behind `<<`, or of
/// the word before it.
fn advance_here(r: Held, c: char) -> (next: Held)
    requires
        r.mode == Mode::Here || r.mode == Mode::Tag,
        r.sum() < usize::MAX,
        r.wf(),
    ensures
        next.wf(),
        next@ == moved(r@, c),
        next.sum() <= r.sum() + 1,
{
    let mut r = r;
    if r.mode == Mode::Tag {
        if r.last == '\r' {
            if c == '\n' {
                r.at = 0;
                r.live = true;
                r.first = true;
                r = turn(r, Mode::Here);
            } else {
                r = turn(r, Mode::Open);
            }
        } else if c == '-' && r.first {
            r.first = false;
        } else if letter(c) || (r.tag.len() > 0 && (digit(c) || c == '-')) {
            r.tag.push(c);
            r.first = false;
        } else if c == '\n' && r.tag.len() > 0 {
            r.at = 0;
            r.live = true;
            r.first = true;
            r = turn(r, Mode::Here);
        } else if c == '\r' && r.tag.len() > 0 {
            r.last = c;
        } else {
            r = turn(r, Mode::Open);
        }
        return r;
    }
    let ended = r.dirs == 0 && r.live && r.at == r.tag.len() && !(letter(c) || digit(c) || c
        == '-');
    if ended {
        if r.first || c > '\x7f' {
            r = turn(r, Mode::Open);
        } else if r.stack.len() > 0 {
            r = leave(r);
            r.live = false;
            r.first = false;
            r.lead = 0;
            r = turn(r, Mode::Inside);
            r = advance_inside(r, c);
        } else {
            r.tag = Vec::new();
            r.at = 0;
            r.first = false;
            r = turn(r, Mode::Code);
            r = advance_code(r, c);
        }
    } else if r.dirs == 0 && r.live && r.at < r.tag.len() && c == r.tag[r.at] {
        r.at = r.at + 1;
        r.last = c;
        r.run = false;
    } else if r.dirs == 0 && r.live && r.at == 0 && (c == ' ' || c == '\t') {
        r.last = c;
        r.run = false;
    } else if c == '\n' {
        r.at = 0;
        r.live = true;
        r.first = false;
        r.last = ' ';
        r.run = false;
    } else {
        r = advance_literal(r, c);
        r.live = false;
        r.first = false;
    }
    r
}

/// The reading after one more character in a string or in a comment.
fn advance_other(r: Held, c: char) -> (next: Held)
    requires
        r.mode != Mode::Code,
        r.mode != Mode::Inside,
        r.mode != Mode::Here,
        r.mode != Mode::Tag,
        r.sum() < usize::MAX,
        r.wf(),
    ensures
        next.wf(),
        next@ == moved(r@, c),
        next.sum() <= r.sum() + 1,
{
    let mut r = r;
    match r.mode {
        Mode::Comment => {
            if c == '\n' {
                r = turn(r, Mode::Code);
            }
        },
        Mode::Block => {
            if c == '/' && r.last == '*' {
                r = turn(r, Mode::Code);
            } else {
                r.last = c;
            }
        },
        Mode::Quoted => {
            if c == '"' && r.dirs == 0 && r.stack.len() > 0 {
                r = leave(r);
                r.lead = 0;
                r = turn(r, Mode::Inside);
            } else if c == '"' && r.dirs == 0 {
                r.inner = 0;
                r.open = 0;
                r = turn(r, Mode::Code);
            } else if c == '\\' && r.dirs == 0 {
                r = turn(r, Mode::Escaped);
            } else {
                r = advance_literal(r, c);
            }
        },
        Mode::Escaped => {
            r = turn(r, Mode::Quoted);
        },
        Mode::InsideComment => {
            if c == '\n' {
                r = turn(r, Mode::Inside);
            }
        },
        Mode::InsideBlock => {
            if c == '/' && r.last == '*' {
                r = turn(r, Mode::Inside);
            } else {
                r.last = c;
            }
        },
        Mode::Open => {
            if c == '[' || c == '{' || c == '(' || c == '!' || c == '?' || c == '+' || c == '*'
                || c == '%' || c == '<' || c == '>' || c == '/' || c == '-' || c == '=' || c
                == '&' || c == '|' {
                r.inner = r.inner + 1;
            }
        },
        _ => {},
    }
    r
}

/// A character changes the most that counted only as the last thing.
proof fn lemma_deepest_stays(r: Reading, c: char)
    ensures
        moved(r, c).deepest == r.deepest,
{
}

/// The reading after one more character, before the most is taken.
fn advance(r: Held, c: char) -> (next: Held)
    requires
        r.sum() < usize::MAX,
        r.wf(),
    ensures
        next.wf(),
        next@ == moved(r@, c),
        next.sum() <= r.sum() + 1,
        next.deepest == r.deepest,
{
    proof {
        lemma_deepest_stays(r@, c);
    }
    match r.mode {
        Mode::Code => advance_code(r, c),
        Mode::Inside => advance_inside(r, c),
        Mode::Here | Mode::Tag => advance_here(r, c),
        _ => advance_other(r, c),
    }
}

/// `r` with the most that counted at once.
fn top(r: Held) -> (next: Held)
    requires
        r.sum() <= usize::MAX,
        r.wf(),
    ensures
        next.wf(),
        next@ == (Reading {
            deepest: if level(r@) > r@.deepest {
                level(r@)
            } else {
                r@.deepest
            },
            ..r@
        }),
        next.sum() == r.sum(),
        next.deepest <= r.sum() || next.deepest == r.deepest,
{
    let mut r = r;
    let now: usize = r.depth + r.marks + r.base + r.dirs + r.inner + r.open;
    if now > r.deepest {
        r.deepest = now;
    }
    r
}

/// The reading after one more character.
fn stride(r: Held, c: char) -> (next: Held)
    requires
        r.sum() < usize::MAX,
        r.deepest < usize::MAX,
        r.wf(),
    ensures
        next.wf(),
        next@ == step(r@, c),
        next.sum() <= r.sum() + 1,
        next.deepest <= r.sum() + 1 || next.deepest == r.deepest,
{
    let moved = advance(r, c);
    top(moved)
}

/// How deep `text` nests.
pub fn nests(text: &str) -> (r: usize)
    ensures
        r == nesting(text@),
{
    let chars = chars_of(text);
    let mut held = Held {
        mode: Mode::Code,
        last: ' ',
        run: false,
        word: Word::Free,
        tag: Vec::new(),
        at: 0,
        live: true,
        first: false,
        depth: 0,
        marks: 0,
        floor: 0,
        dirs: 0,
        lead: 0,
        inner: 0,
        open: 0,
        stack: Vec::new(),
        base: 0,
        deepest: 0,
    };
    assert(frames(held.stack@) =~= Seq::<Frame>::empty());
    let mut i: usize = 0;
    while i < chars.len()
        invariant
            i <= chars.len(),
            chars@ == text@,
            held@ == read(text@, i as int),
            held.sum() <= i,
            held.wf(),
            held.deepest <= i,
        decreases chars.len() - i,
    {
        assert(read(text@, i + 1) == step(read(text@, i as int), text@[i as int]));
        held = stride(held, chars[i]);
        i += 1;
    }
    held.deepest
}

} // verus!
