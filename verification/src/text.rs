//! What the counts of a text are: segments, lines, words and encoded length.

use vstd::prelude::*;
use vstd::utf8::{encode_scalar, encode_utf8};
use crate::record::Counts;

verus! {

/// Whether `c` has the Unicode property White_Space, as `char::is_whitespace` reports it.
pub uninterp spec fn white_space(c: char) -> bool;

/// Calls `char::is_whitespace`. Trusted: the answer is the White_Space property of `c`,
/// which this library names `white_space` and does not spell out.
#[verifier::external_body]
pub(crate) fn is_whitespace(c: char) -> (blank: bool)
    ensures
        blank == white_space(c),
{
    c.is_whitespace()
}

/// The pieces of `s` between occurrences of `sep`. There is always at least one piece;
/// a separator at either end or two in a row give an empty piece.
pub open spec fn split(s: Seq<char>, sep: char) -> Seq<Seq<char>>
    decreases s.len(),
{
    if s.len() == 0 {
        seq![Seq::<char>::empty()]
    } else {
        let before = split(s.drop_last(), sep);
        if s.last() == sep {
            before.push(Seq::<char>::empty())
        } else {
            before.drop_last().push(before.last().push(s.last()))
        }
    }
}

/// A piece is a word when something other than white space is in it, that is, when
/// trimming it leaves something.
pub open spec fn is_word(piece: Seq<char>) -> bool {
    exists|i: int| 0 <= i < piece.len() && !white_space(#[trigger] piece[i])
}

/// How many of the pieces are words.
pub open spec fn count_words(pieces: Seq<Seq<char>>) -> nat
    decreases pieces.len(),
{
    if pieces.len() == 0 {
        0
    } else {
        count_words(pieces.drop_last()) + if is_word(pieces.last()) { 1nat } else { 0nat }
    }
}

/// The words of a line: the pieces between single spaces that are words.
pub open spec fn words_in(line: Seq<char>) -> nat {
    count_words(split(line, ' '))
}

/// The number of bytes that the UTF-8 encoding of `s` takes.
pub open spec fn utf8_len(s: Seq<char>) -> nat {
    encode_utf8(s).len()
}

/// The sum of what each line adds: one line, its words, its encoded length and its
/// number of characters, the last two each raised by `extra`.
pub open spec fn tally(lines: Seq<Seq<char>>, extra: nat) -> Counts
    decreases lines.len(),
{
    if lines.len() == 0 {
        Counts::zero()
    } else {
        tally(lines.drop_last(), extra).plus(
            Counts {
                lines: 1,
                words: words_in(lines.last()),
                bytes: utf8_len(lines.last()) + extra,
                chars: lines.last().len() + extra,
            },
        )
    }
}

/// All segments but the last, each with the line feed that ended it.
pub open spec fn terminated(segments: Seq<Seq<char>>) -> Seq<Seq<char>> {
    Seq::new((segments.len() - 1) as nat, |i: int| segments[i].push('\n'))
}

/// The lines that reading `text` line by line gives: each runs up to and including a
/// line feed, and what follows the last line feed is a line only if it is not empty.
pub open spec fn stream_lines(text: Seq<char>) -> Seq<Seq<char>> {
    let segments = split(text, '\n');
    if segments.last().len() == 0 {
        terminated(segments)
    } else {
        terminated(segments).push(segments.last())
    }
}

/// The counts of `text` read line by line.
pub open spec fn stream_counts(text: Seq<char>) -> Counts {
    tally(stream_lines(text), 0)
}

/// The counts of `text` taken as one buffer: every segment between line feeds counts as
/// a line and adds one byte and one character for a line feed, the last segment too.
pub open spec fn blob_counts(text: Seq<char>) -> Counts {
    tally(split(text, '\n'), 1)
}

/// The pieces of `line` before its last one that are words.
pub open spec fn closed_words(line: Seq<char>) -> nat {
    count_words(split(line, ' ').drop_last())
}

/// The piece of `line` after its last space.
pub open spec fn open_piece(line: Seq<char>) -> Seq<char> {
    split(line, ' ').last()
}

/// A text always has at least one piece.
pub proof fn lemma_split_nonempty(s: Seq<char>, sep: char)
    ensures
        split(s, sep).len() >= 1,
    decreases s.len(),
{
    if s.len() > 0 {
        lemma_split_nonempty(s.drop_last(), sep);
    }
}

/// What one more character does to the pieces.
pub proof fn lemma_split_push(s: Seq<char>, c: char, sep: char)
    ensures
        split(s, sep).len() >= 1,
        c == sep ==> split(s.push(c), sep) == split(s, sep).push(Seq::<char>::empty()),
        c != sep ==> split(s.push(c), sep) == split(s, sep).drop_last().push(
            split(s, sep).last().push(c),
        ),
{
    lemma_split_nonempty(s, sep);
    assert(s.push(c).drop_last() =~= s);
}

/// A piece with one more character is a word if it was one or the character is not
/// white space.
pub proof fn lemma_is_word_push(piece: Seq<char>, c: char)
    ensures
        is_word(piece.push(c)) == (is_word(piece) || !white_space(c)),
        !is_word(Seq::<char>::empty()),
{
    let longer = piece.push(c);
    if is_word(piece) {
        let i = choose|i: int| 0 <= i < piece.len() && !white_space(#[trigger] piece[i]);
        assert(!white_space(longer[i]));
    }
    if !white_space(c) {
        assert(!white_space(longer[piece.len() as int]));
    }
    if is_word(longer) {
        let i = choose|i: int| 0 <= i < longer.len() && !white_space(#[trigger] longer[i]);
        if i < piece.len() {
            assert(!white_space(piece[i]));
        }
    }
}

/// One more piece adds one word if it is a word, and none otherwise.
pub proof fn lemma_count_words_push(pieces: Seq<Seq<char>>, piece: Seq<char>)
    ensures
        count_words(pieces.push(piece)) == count_words(pieces) + if is_word(piece) {
            1nat
        } else {
            0nat
        },
{
    assert(pieces.push(piece).drop_last() =~= pieces);
}

/// What one more character does to the words of a line.
pub proof fn lemma_words_push(line: Seq<char>, c: char)
    ensures
        words_in(line) == closed_words(line) + if is_word(open_piece(line)) {
            1nat
        } else {
            0nat
        },
        c == ' ' ==> closed_words(line.push(c)) == words_in(line) && open_piece(line.push(c))
            == Seq::<char>::empty(),
        c != ' ' ==> closed_words(line.push(c)) == closed_words(line) && open_piece(
            line.push(c),
        ) == open_piece(line).push(c),
        words_in(line) <= words_in(line.push(c)),
        closed_words(Seq::<char>::empty()) == 0,
        open_piece(Seq::<char>::empty()) == Seq::<char>::empty(),
{
    let pieces = split(line, ' ');
    lemma_split_push(line, c, ' ');
    lemma_is_word_push(open_piece(line), c);
    assert(pieces =~= pieces.drop_last().push(pieces.last()));
    lemma_count_words_push(pieces.drop_last(), pieces.last());
    if c == ' ' {
        assert(pieces.push(Seq::<char>::empty()).drop_last() =~= pieces);
        lemma_count_words_push(pieces, Seq::<char>::empty());
    } else {
        let longer = pieces.drop_last().push(pieces.last().push(c));
        assert(longer.drop_last() =~= pieces.drop_last());
        lemma_count_words_push(pieces.drop_last(), pieces.last().push(c));
    }
    let none = split(Seq::<char>::empty(), ' ');
    assert(none.drop_last() =~= Seq::<Seq<char>>::empty());
}

/// The encoded length grows by the width of the character added.
pub proof fn lemma_utf8_len_push(s: Seq<char>, c: char)
    ensures
        utf8_len(s.push(c)) == utf8_len(s) + encode_scalar(c as u32).len(),
        1 <= encode_scalar(c as u32).len() <= 4,
        utf8_len(Seq::<char>::empty()) == 0,
    decreases s.len(),
{
    if s.len() == 0 {
        assert(s.push(c).drop_first() =~= Seq::<char>::empty());
        assert(encode_utf8(Seq::<char>::empty()) =~= Seq::<u8>::empty());
    } else {
        assert(s.push(c).drop_first() =~= s.drop_first().push(c));
        lemma_utf8_len_push(s.drop_first(), c);
    }
}

/// Adding characters at the end never shortens the encoding.
pub proof fn lemma_utf8_len_prefix(s: Seq<char>, n: int)
    requires
        0 <= n <= s.len(),
    ensures
        utf8_len(s.take(n)) <= utf8_len(s),
    decreases s.len() - n,
{
    if n < s.len() {
        assert(s.take(n + 1) =~= s.take(n).push(s[n]));
        lemma_utf8_len_push(s.take(n), s[n]);
        lemma_utf8_len_prefix(s, n + 1);
    } else {
        assert(s.take(n) =~= s);
    }
}

/// One more line adds what it counts to the sum.
pub proof fn lemma_tally_push(lines: Seq<Seq<char>>, line: Seq<char>, extra: nat)
    ensures
        tally(lines.push(line), extra) == tally(lines, extra).plus(
            Counts {
                lines: 1,
                words: words_in(line),
                bytes: utf8_len(line) + extra,
                chars: line.len() + extra,
            },
        ),
{
    assert(lines.push(line).drop_last() =~= lines);
}

} // verus!
