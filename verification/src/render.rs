//! The line that reports the counts of one source.

use vstd::prelude::*;
use vstd::string::StringExecFns;
use crate::record::{Counts, FileInfo};

verus! {

/// Which of the four counts are shown.
#[derive(Debug, Clone, Copy, PartialEq, Eq, Structural)]
pub struct Selection {
    pub lines: bool,
    pub words: bool,
    pub bytes: bool,
    pub chars: bool,
}

impl Selection {
    /// No count is chosen.
    pub open spec fn is_empty(self) -> bool {
        !self.lines && !self.words && !self.bytes && !self.chars
    }

    /// All four counts.
    pub open spec fn all() -> Selection {
        Selection { lines: true, words: true, bytes: true, chars: true }
    }

    /// The selection that is shown: all four counts where none was chosen, else the
    /// chosen ones.
    pub fn or_all(self) -> (shown: Selection)
        ensures
            shown == if self.is_empty() {
                Selection::all()
            } else {
                self
            },
            !shown.is_empty(),
    {
        if !self.words && !self.lines && !self.chars && !self.bytes {
            Selection { lines: true, words: true, bytes: true, chars: true }
        } else {
            self
        }
    }
}

/// The character of a decimal digit.
pub open spec fn digit(d: nat) -> char {
    if d == 0 {
        '0'
    } else if d == 1 {
        '1'
    } else if d == 2 {
        '2'
    } else if d == 3 {
        '3'
    } else if d == 4 {
        '4'
    } else if d == 5 {
        '5'
    } else if d == 6 {
        '6'
    } else if d == 7 {
        '7'
    } else if d == 8 {
        '8'
    } else {
        '9'
    }
}

/// The decimal numeral of `n`, without leading zeros.
pub open spec fn decimal(n: nat) -> Seq<char>
    decreases n,
{
    if n < 10 {
        seq![digit(n)]
    } else {
        decimal(n / 10).push(digit(n % 10))
    }
}

/// What one count adds to the line: a space, the number and the unit with the space
/// before it, or nothing where the count is not shown.
pub open spec fn field(show: bool, n: nat, unit: Seq<char>) -> Seq<char> {
    if show {
        seq![' '] + decimal(n) + unit
    } else {
        Seq::<char>::empty()
    }
}

/// The line for `counts` under `label`: the label, ` =`, then the shown counts in the
/// order lines, words, chars, bytes.
pub open spec fn rendered(label: Seq<char>, counts: Counts, shown: Selection) -> Seq<char> {
    label + " ="@ + field(shown.lines, counts.lines, " lines"@) + field(
        shown.words,
        counts.words,
        " words"@,
    ) + field(shown.chars, counts.chars, " chars"@) + field(shown.bytes, counts.bytes, " bytes"@)
}

/// Calls `String::push`. Trusted: the character is added at the end of the string.
#[verifier::external_body]
fn push_char(out: &mut String, c: char)
    ensures
        final(out)@ == old(out)@.push(c),
{
    out.push(c);
}

fn digit_char(d: usize) -> (c: char)
    requires
        d < 10,
    ensures
        c == digit(d as nat),
{
    if d == 0 {
        '0'
    } else if d == 1 {
        '1'
    } else if d == 2 {
        '2'
    } else if d == 3 {
        '3'
    } else if d == 4 {
        '4'
    } else if d == 5 {
        '5'
    } else if d == 6 {
        '6'
    } else if d == 7 {
        '7'
    } else if d == 8 {
        '8'
    } else {
        '9'
    }
}

/// Writes the decimal numeral of `n` at the end of `out`.
pub fn append_decimal(out: &mut String, n: usize)
    ensures
        final(out)@ == old(out)@ + decimal(n as nat),
    decreases n,
{
    if n >= 10 {
        append_decimal(out, n / 10);
    }
    push_char(out, digit_char(n % 10));
    proof {
        let before = old(out)@;
        if n >= 10 {
            assert((before + decimal((n / 10) as nat)).push(digit((n % 10) as nat)) =~= before
                + decimal(n as nat));
        } else {
            assert(before.push(digit(n as nat)) =~= before + decimal(n as nat));
        }
    }
}

fn append_field(out: &mut String, show: bool, n: usize, unit: &str)
    ensures
        final(out)@ == old(out)@ + field(show, n as nat, unit@),
{
    if show {
        push_char(out, ' ');
        append_decimal(out, n);
        out.append(unit);
        assert(out@ =~= old(out)@ + field(show, n as nat, unit@));
    } else {
        assert(out@ =~= old(out)@ + field(show, n as nat, unit@));
    }
}

/// The line that reports `info` under the label `lhs`, with the counts that `shown`
/// chooses.
pub fn display(lhs: &str, info: &FileInfo, shown: &Selection) -> (line: String)
    ensures
        line@ == rendered(lhs@, info@, *shown),
{
    let mut out = String::from_str(lhs);
    out.append(" =");
    append_field(&mut out, shown.lines, info.num_lines, " lines");
    append_field(&mut out, shown.words, info.num_words, " words");
    append_field(&mut out, shown.chars, info.num_chars, " chars");
    append_field(&mut out, shown.bytes, info.num_bytes, " bytes");
    out
}

/// Where only the words are chosen, the line holds the word count and no other.
pub proof fn lemma_only_words(label: Seq<char>, counts: Counts)
    ensures
        rendered(
            label,
            counts,
            Selection { lines: false, words: true, bytes: false, chars: false },
        ) == label + " ="@ + seq![' '] + decimal(counts.words) + " words"@,
{
    let shown = Selection { lines: false, words: true, bytes: false, chars: false };
    assert(rendered(label, counts, shown) =~= label + " ="@ + seq![' '] + decimal(counts.words)
        + " words"@);
}

} // verus!
