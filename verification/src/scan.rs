//! A one-pass counter: it takes a text character by character and keeps the counts of
//! what it has seen.

use vstd::prelude::*;
use vstd::utf8::encode_scalar;
use crate::record::FileInfo;
use crate::text::{
    blob_counts, closed_words, is_whitespace, is_word, lemma_is_word_push, lemma_split_nonempty,
    lemma_split_push, lemma_tally_push, lemma_utf8_len_prefix, lemma_utf8_len_push,
    lemma_words_push, open_piece, split, stream_counts, tally, terminated, utf8_len, white_space,
};

verus! {

/// The number of bytes that `c` takes in UTF-8.
pub fn char_width(c: char) -> (width: usize)
    ensures
        width == encode_scalar(c as u32).len(),
        1 <= width <= 4,
{
    let code: u32 = c as u32;
    if code <= 0x7F {
        1
    } else if code <= 0x7FF {
        2
    } else if code <= 0xFFFF {
        3
    } else {
        4
    }
}

/// The counts of the text seen so far, with the segment after the last line feed and the
/// piece after its last space still open.
pub struct Scanner {
    blob: bool,
    done: FileInfo,
    cur_bytes: usize,
    cur_chars: usize,
    cur_words: usize,
    in_word: bool,
    seen: Ghost<Seq<char>>,
}

impl Scanner {
    /// The text taken so far.
    pub closed spec fn seen(&self) -> Seq<char> {
        self.seen@
    }

    /// Whether the text is counted as one buffer rather than line by line.
    pub closed spec fn is_blob(&self) -> bool {
        self.blob
    }

    /// The encoded length up to which the counts of a text fit in `usize`.
    pub open spec fn limit(blob: bool) -> int {
        if blob {
            usize::MAX - 1
        } else {
            usize::MAX as int
        }
    }

    /// The fields hold the counts of the closed lines, of the open segment and of its
    /// open piece, and the text is short enough for its counts to fit.
    pub closed spec fn wf(&self) -> bool {
        let segments = split(self.seen@, '\n');
        let cur = segments.last();
        &&& self.done@ == if self.blob {
            tally(segments.drop_last(), 1)
        } else {
            tally(terminated(segments), 0)
        }
        &&& self.cur_bytes == utf8_len(cur)
        &&& self.cur_chars == cur.len()
        &&& self.cur_words == closed_words(cur)
        &&& self.in_word == is_word(open_piece(cur))
        &&& self.done.num_bytes + self.cur_bytes == utf8_len(self.seen@)
        &&& utf8_len(self.seen@) <= Self::limit(self.blob)
        &&& self.done.num_chars <= self.done.num_bytes
        &&& self.cur_chars <= self.cur_bytes
        &&& self.done.num_lines <= self.done.num_chars
        &&& self.done.num_words <= self.done.num_chars
        &&& self.cur_words + (if self.in_word { 1int } else { 0int }) <= self.cur_chars
    }

    /// A scanner that has seen nothing; `blob` chooses how the text is counted.
    pub fn new(blob: bool) -> (scanner: Scanner)
        ensures
            scanner.wf(),
            scanner.seen() == Seq::<char>::empty(),
            scanner.is_blob() == blob,
    {
        proof {
            let nothing = Seq::<char>::empty();
            lemma_words_push(nothing, ' ');
            lemma_utf8_len_push(nothing, ' ');
            assert(split(nothing, '\n').drop_last() =~= Seq::<Seq<char>>::empty());
            assert(terminated(split(nothing, '\n')) =~= Seq::<Seq<char>>::empty());
        }
        Scanner {
            blob,
            done: FileInfo::new(),
            cur_bytes: 0,
            cur_chars: 0,
            cur_words: 0,
            in_word: false,
            seen: Ghost(Seq::empty()),
        }
    }

    /// Takes one character, of which the caller says whether it is white space.
    pub fn push(&mut self, c: char, blank: bool)
        requires
            old(self).wf(),
            blank == white_space(c),
            utf8_len(old(self).seen().push(c)) <= Self::limit(old(self).is_blob()),
        ensures
            final(self).wf(),
            final(self).seen() == old(self).seen().push(c),
            final(self).is_blob() == old(self).is_blob(),
    {
        let width = char_width(c);
        let ghost segments = split(self.seen@, '\n');
        let ghost cur = segments.last();
        proof {
            lemma_split_push(self.seen@, c, '\n');
            lemma_utf8_len_push(self.seen@, c);
            lemma_utf8_len_push(cur, c);
            lemma_words_push(cur, c);
            lemma_is_word_push(open_piece(cur), c);
            lemma_words_push(Seq::<char>::empty(), ' ');
            lemma_utf8_len_push(Seq::<char>::empty(), ' ');
        }
        if c == '\n' {
            let ended: bool = if self.blob {
                self.in_word
            } else {
                self.in_word || !blank
            };
            let words: usize = if ended {
                self.cur_words + 1
            } else {
                self.cur_words
            };
            proof {
                let line = if self.blob {
                    cur
                } else {
                    cur.push('\n')
                };
                lemma_words_push(line, ' ');
                let grown = segments.push(Seq::<char>::empty());
                if self.blob {
                    assert(grown.drop_last() =~= segments);
                    assert(segments =~= segments.drop_last().push(cur));
                    lemma_tally_push(segments.drop_last(), cur, 1);
                } else {
                    assert(terminated(grown) =~= terminated(segments).push(cur.push('\n')));
                    lemma_tally_push(terminated(segments), cur.push('\n'), 0);
                }
            }
            self.done.num_lines = self.done.num_lines + 1;
            self.done.num_words = self.done.num_words + words;
            self.done.num_bytes = self.done.num_bytes + self.cur_bytes + 1;
            self.done.num_chars = self.done.num_chars + self.cur_chars + 1;
            self.cur_bytes = 0;
            self.cur_chars = 0;
            self.cur_words = 0;
            self.in_word = false;
        } else {
            proof {
                let grown = segments.drop_last().push(cur.push(c));
                assert(grown.drop_last() =~= segments.drop_last());
                assert(terminated(grown) =~= terminated(segments));
            }
            self.cur_bytes = self.cur_bytes + width;
            self.cur_chars = self.cur_chars + 1;
            if c == ' ' {
                if self.in_word {
                    self.cur_words = self.cur_words + 1;
                }
                self.in_word = false;
            } else if !blank {
                self.in_word = true;
            }
        }
        self.seen = Ghost(self.seen@.push(c));
    }

    /// Takes every character of `text`, in order.
    pub fn feed(&mut self, text: &str)
        requires
            old(self).wf(),
            utf8_len(old(self).seen() + text@) <= Self::limit(old(self).is_blob()),
        ensures
            final(self).wf(),
            final(self).seen() == old(self).seen() + text@,
            final(self).is_blob() == old(self).is_blob(),
    {
        broadcast use vstd::string::group_string_axioms;

        let ghost before = self.seen();
        let ghost blob = self.is_blob();
        assert(before + text@.take(0) =~= before);
        for c in it: text.chars()
            invariant
                it.seq() == text@,
                self.wf(),
                self.is_blob() == blob,
                self.seen() == before + text@.take(it.index()),
                utf8_len(before + text@) <= Self::limit(blob),
        {
            proof {
                let n = it.index();
                let whole = before + text@;
                assert(whole.take(before.len() + n + 1) =~= (before + text@.take(n)).push(c));
                assert(before + text@.take(n + 1) =~= (before + text@.take(n)).push(c));
                lemma_utf8_len_prefix(whole, before.len() + n + 1);
            }
            let blank = is_whitespace(c);
            self.push(c, blank);
        }
        assert(text@.take(text@.len() as int) =~= text@);
    }

    /// The counts of the text taken so far.
    pub fn finish(&self) -> (info: FileInfo)
        requires
            self.wf(),
        ensures
            info@ == if self.is_blob() {
                blob_counts(self.seen())
            } else {
                stream_counts(self.seen())
            },
            info.num_bytes == utf8_len(self.seen()) + if self.is_blob() { 1int } else { 0int },
    {
        let ghost segments = split(self.seen@, '\n');
        let ghost cur = segments.last();
        proof {
            lemma_split_nonempty(self.seen@, '\n');
            lemma_words_push(cur, ' ');
            assert(segments =~= segments.drop_last().push(cur));
            lemma_tally_push(segments.drop_last(), cur, 1);
            lemma_tally_push(terminated(segments), cur, 0);
        }
        let words: usize = if self.in_word {
            self.cur_words + 1
        } else {
            self.cur_words
        };
        if self.blob {
            FileInfo {
                num_lines: self.done.num_lines + 1,
                num_words: self.done.num_words + words,
                num_bytes: self.done.num_bytes + self.cur_bytes + 1,
                num_chars: self.done.num_chars + self.cur_chars + 1,
            }
        } else if self.cur_chars > 0 {
            FileInfo {
                num_lines: self.done.num_lines + 1,
                num_words: self.done.num_words + words,
                num_bytes: self.done.num_bytes + self.cur_bytes,
                num_chars: self.done.num_chars + self.cur_chars,
            }
        } else {
            self.done
        }
    }
}

} // verus!
