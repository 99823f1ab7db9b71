//! How the counts of a text change as the text grows.

use vstd::prelude::*;
use vstd::utf8::encode_scalar;
use crate::text::{
    blob_counts, lemma_split_push, lemma_tally_push, lemma_utf8_len_push, lemma_words_push, split,
    stream_counts, stream_lines, tally, terminated, utf8_len,
};

verus! {

/// One more character adds its encoded width to the bytes and one to the characters of a
/// text read line by line, adds at most one line, and takes no word away.
pub proof fn lemma_stream_step(text: Seq<char>, c: char)
    ensures
        stream_counts(text).lines <= stream_counts(text.push(c)).lines <= stream_counts(
            text,
        ).lines + 1,
        stream_counts(text).words <= stream_counts(text.push(c)).words,
        stream_counts(text.push(c)).bytes == stream_counts(text).bytes + encode_scalar(
            c as u32,
        ).len(),
        stream_counts(text.push(c)).chars == stream_counts(text).chars + 1,
{
    let segments = split(text, '\n');
    let cur = segments.last();
    let closed = terminated(segments);
    lemma_split_push(text, c, '\n');
    lemma_utf8_len_push(cur, c);
    lemma_words_push(cur, c);
    lemma_tally_push(closed, cur, 0);
    lemma_tally_push(closed, cur.push(c), 0);
    lemma_utf8_len_push(Seq::<char>::empty(), c);
    lemma_words_push(Seq::<char>::empty(), c);
    if cur.len() == 0 {
        assert(cur =~= Seq::<char>::empty());
    }
    if c == '\n' {
        assert(terminated(segments.push(Seq::<char>::empty())) =~= closed.push(cur.push('\n')));
    } else {
        let grown = segments.drop_last().push(cur.push(c));
        assert(terminated(grown) =~= closed);
    }
}

/// One more character adds to the bytes and the characters of a text counted as one
/// buffer what it adds to the text, adds at most one line, and takes no word away.
pub proof fn lemma_blob_step(text: Seq<char>, c: char)
    ensures
        blob_counts(text).lines <= blob_counts(text.push(c)).lines <= blob_counts(text).lines + 1,
        blob_counts(text).words <= blob_counts(text.push(c)).words,
        blob_counts(text.push(c)).bytes == blob_counts(text).bytes + encode_scalar(
            c as u32,
        ).len(),
        blob_counts(text.push(c)).chars == blob_counts(text).chars + 1,
{
    let segments = split(text, '\n');
    let cur = segments.last();
    lemma_split_push(text, c, '\n');
    lemma_utf8_len_push(cur, c);
    lemma_words_push(cur, c);
    lemma_utf8_len_push(Seq::<char>::empty(), c);
    lemma_words_push(Seq::<char>::empty(), c);
    assert(segments =~= segments.drop_last().push(cur));
    lemma_tally_push(segments.drop_last(), cur, 1);
    if c == '\n' {
        lemma_tally_push(segments, Seq::<char>::empty(), 1);
    } else {
        lemma_tally_push(segments.drop_last(), cur.push(c), 1);
    }
}

/// Read line by line, a text followed by more text has in every field at least the count
/// of the text alone.
pub proof fn lemma_stream_counts_grow(text: Seq<char>, more: Seq<char>)
    ensures
        stream_counts(text).le(stream_counts(text + more)),
    decreases more.len(),
{
    if more.len() == 0 {
        assert(text + more =~= text);
    } else {
        lemma_stream_counts_grow(text, more.drop_last());
        lemma_stream_step(text + more.drop_last(), more.last());
        assert((text + more.drop_last()).push(more.last()) =~= text + more);
    }
}

/// Counted as one buffer, a text followed by more text has in every field at least the
/// count of the text alone.
pub proof fn lemma_blob_counts_grow(text: Seq<char>, more: Seq<char>)
    ensures
        blob_counts(text).le(blob_counts(text + more)),
    decreases more.len(),
{
    if more.len() == 0 {
        assert(text + more =~= text);
    } else {
        lemma_blob_counts_grow(text, more.drop_last());
        lemma_blob_step(text + more.drop_last(), more.last());
        assert((text + more.drop_last()).push(more.last()) =~= text + more);
    }
}

/// Read line by line, the bytes of a text are the length of its encoding, its characters
/// are its length, and neither lines nor words outnumber the characters. An empty text
/// counts zero in every field.
pub proof fn lemma_stream_sizes(text: Seq<char>)
    ensures
        stream_counts(text).bytes == utf8_len(text),
        stream_counts(text).chars == text.len(),
        stream_counts(text).lines <= text.len(),
        text.len() == 0 ==> stream_counts(text) == crate::record::Counts::zero(),
    decreases text.len(),
{
    if text.len() == 0 {
        assert(text =~= Seq::<char>::empty());
        lemma_utf8_len_push(text, ' ');
        assert(terminated(split(text, '\n')) =~= Seq::<Seq<char>>::empty());
    } else {
        lemma_stream_sizes(text.drop_last());
        lemma_stream_step(text.drop_last(), text.last());
        lemma_utf8_len_push(text.drop_last(), text.last());
        assert(text.drop_last().push(text.last()) =~= text);
    }
}

/// Counted as one buffer, a text has one byte and one character more than it holds, and
/// one line more than it has line feeds: at least one, and at most one more than it has
/// characters.
pub proof fn lemma_blob_sizes(text: Seq<char>)
    ensures
        blob_counts(text).bytes == utf8_len(text) + 1,
        blob_counts(text).chars == text.len() + 1,
        blob_counts(text).lines == split(text, '\n').len(),
        1 <= blob_counts(text).lines <= text.len() + 1,
    decreases text.len(),
{
    lemma_tally_lines(split(text, '\n'), 1);
    if text.len() == 0 {
        assert(text =~= Seq::<char>::empty());
        lemma_utf8_len_push(text, ' ');
        lemma_tally_push(Seq::<Seq<char>>::empty(), Seq::<char>::empty(), 1);
        assert(split(text, '\n') =~= Seq::<Seq<char>>::empty().push(Seq::<char>::empty()));
    } else {
        lemma_blob_sizes(text.drop_last());
        lemma_blob_step(text.drop_last(), text.last());
        lemma_utf8_len_push(text.drop_last(), text.last());
        assert(text.drop_last().push(text.last()) =~= text);
    }
}

/// Every line counts once.
pub proof fn lemma_tally_lines(lines: Seq<Seq<char>>, extra: nat)
    ensures
        tally(lines, extra).lines == lines.len(),
    decreases lines.len(),
{
    if lines.len() > 0 {
        lemma_tally_lines(lines.drop_last(), extra);
    }
}

/// The lines read from a text are as many as the count says.
pub proof fn lemma_stream_line_count(text: Seq<char>)
    ensures
        stream_counts(text).lines == stream_lines(text).len(),
{
    lemma_tally_lines(stream_lines(text), 0);
}

} // verus!
