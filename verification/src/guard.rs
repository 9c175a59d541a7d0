//! Which texts the parser is run on.
//!
//! The parser of `mediawiki_parser` matches the names of a few tags without
//! regard to case. It does so by comparing upper-case forms, one character
//! of the name after the other, and then advances by the length in bytes of
//! the name as the grammar writes it. A character outside ASCII whose
//! upper-case form holds an ASCII character (`ß`, `ſ`, `ı`, some ligatures)
//! can so be taken for a letter of a tag name, and the parser is left
//! between two bytes of that character, where it panics.
//!
//! The parser tries a tag name in one place only: behind `<`, after blanks,
//! and in a closing tag after `/` and more blanks. If such a character is to
//! be taken for a letter, only ASCII letters stand between it and that
//! place. [`parser_takes`] describes the texts without such a character in
//! such a place; on all others the parser is not run.

use vstd::prelude::*;

verus! {

/// The upper-case form of `c`, as std's `char::to_uppercase` yields it.
pub uninterp spec fn upper_case_of(c: char) -> Seq<char>;

/// Calls `char::to_uppercase` and collects what it yields. The contract only
/// names the result: it is whatever std's tables say.
#[verifier::external_body]
fn upper_case(c: char) -> (upper: Vec<char>)
    ensures
        upper@ == upper_case_of(c),
{
    c.to_uppercase().collect()
}

/// Whether `c` is an ASCII character.
pub open spec fn is_ascii(c: char) -> bool {
    (c as u32) < 128
}

/// Whether `c` is an ASCII letter.
pub open spec fn is_letter(c: char) -> bool {
    ('a' <= c && c <= 'z') || ('A' <= c && c <= 'Z')
}

/// Whether `c` is a blank or a tab.
pub open spec fn is_blank(c: char) -> bool {
    c == ' ' || c == '\t'
}

/// Whether `c` is outside ASCII while its upper-case form holds an ASCII
/// character: what the parser can take for a letter of a tag name, and
/// then miscount.
pub open spec fn passes_for_ascii(c: char) -> bool {
    !is_ascii(c) && exists|i: int| 0 <= i < upper_case_of(c).len() && is_ascii(upper_case_of(c)[i])
}

/// Where a place in a text lies with regard to the head of a tag.
#[derive(Debug, Clone, Copy, PartialEq, Eq, Structural)]
pub enum Reach {
    /// Nowhere near: no tag name is tried here.
    Outside,
    /// Behind `<` and blanks.
    Opened,
    /// Behind `<`, blanks, `/` and blanks.
    Closing,
    /// Behind either of these and one ASCII letter or more.
    Name,
}

/// Where the place behind `c` lies, if the place before `c` lies at `from`.
pub open spec fn reach_behind(from: Reach, c: char) -> Reach {
    if c == '<' {
        Reach::Opened
    } else {
        match from {
            Reach::Outside => Reach::Outside,
            Reach::Opened => if is_blank(c) {
                Reach::Opened
            } else if c == '/' {
                Reach::Closing
            } else if is_letter(c) {
                Reach::Name
            } else {
                Reach::Outside
            },
            Reach::Closing => if is_blank(c) {
                Reach::Closing
            } else if is_letter(c) {
                Reach::Name
            } else {
                Reach::Outside
            },
            Reach::Name => if is_letter(c) {
                Reach::Name
            } else {
                Reach::Outside
            },
        }
    }
}

/// Where the place before the character with index `at` lies.
pub open spec fn reach(text: Seq<char>, at: int) -> Reach
    decreases at,
{
    if at <= 0 || at > text.len() {
        Reach::Outside
    } else {
        reach_behind(reach(text, at - 1), text[at - 1])
    }
}

/// The texts that the parser is run on: those in which no character that
/// passes for ASCII stands where a tag name may be tried or go on.
pub open spec fn parser_takes(text: Seq<char>) -> bool {
    forall|at: int|
        0 <= at < text.len() && #[trigger] reach(text, at) != Reach::Outside ==> !passes_for_ascii(
            text[at],
        )
}

/// Decides [`passes_for_ascii`].
fn char_passes_for_ascii(c: char) -> (passes: bool)
    ensures
        passes == passes_for_ascii(c),
{
    if (c as u32) < 128 {
        return false;
    }
    let upper = upper_case(c);
    let mut i: usize = 0;
    while i < upper.len()
        invariant
            !is_ascii(c),
            upper@ == upper_case_of(c),
            i <= upper.len(),
            forall|j: int| 0 <= j < i ==> !is_ascii(upper@[j]),
        decreases upper.len() - i,
    {
        if (upper[i] as u32) < 128 {
            assert(is_ascii(upper_case_of(c)[i as int]));
            return true;
        }
        i += 1;
    }
    false
}

/// Computes [`reach_behind`].
fn step_behind(from: Reach, c: char) -> (to: Reach)
    ensures
        to == reach_behind(from, c),
{
    let blank = c == ' ' || c == '\t';
    let letter = ('a' <= c && c <= 'z') || ('A' <= c && c <= 'Z');
    if c == '<' {
        Reach::Opened
    } else {
        match from {
            Reach::Outside => Reach::Outside,
            Reach::Opened => if blank {
                Reach::Opened
            } else if c == '/' {
                Reach::Closing
            } else if letter {
                Reach::Name
            } else {
                Reach::Outside
            },
            Reach::Closing => if blank {
                Reach::Closing
            } else if letter {
                Reach::Name
            } else {
                Reach::Outside
            },
            Reach::Name => if letter {
                Reach::Name
            } else {
                Reach::Outside
            },
        }
    }
}

/// Decides [`parser_takes`], in one pass over the text.
pub fn parser_can_take(text: &str) -> (takes: bool)
    ensures
        takes == parser_takes(text@),
{
    let mut here = Reach::Outside;
    for c in it: text.chars()
        invariant
            it.seq() == text@,
            here == reach(text@, it.index() as int),
            forall|at: int|
                0 <= at < it.index() && #[trigger] reach(text@, at) != Reach::Outside
                    ==> !passes_for_ascii(text@[at]),
    {
        if here != Reach::Outside && char_passes_for_ascii(c) {
            return false;
        }
        here = step_behind(here, c);
    }
    true
}

} // verus!
