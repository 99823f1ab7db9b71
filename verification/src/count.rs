//! Counting a whole source: a text as one buffer, or the bytes of a file line by line.

use vstd::prelude::*;
use vstd::utf8::{decode_utf8, valid_utf8};
use crate::growth::{lemma_blob_sizes, lemma_stream_line_count, lemma_stream_sizes};
use crate::record::FileInfo;
use crate::scan::Scanner;
use crate::text::{blob_counts, split, stream_counts, stream_lines, utf8_len};

verus! {

/// Why a source has no counts.
#[derive(Debug, Clone, Copy, PartialEq, Eq, Structural)]
pub enum CountError {
    /// The bytes of the source are not valid UTF-8 text.
    Encoding,
}

/// Calls `std::str::from_utf8`. Trusted: it gives a text exactly when the bytes are valid
/// UTF-8, and the text is then what the bytes decode to.
#[verifier::external_body]
fn decode(bytes: &[u8]) -> (text: Option<&str>)
    ensures
        text is Some <==> valid_utf8(bytes@),
        text is Some ==> text.unwrap()@ == decode_utf8(bytes@),
{
    match std::str::from_utf8(bytes) {
        Ok(text) => Some(text),
        Err(_) => None,
    }
}

/// Counts `text` as one buffer: every segment between line feeds is a line and adds one
/// byte and one character for a line feed, the last segment too.
pub fn count_in_str(text: &str) -> (info: FileInfo)
    requires
        utf8_len(text@) < usize::MAX,
    ensures
        info@ == blob_counts(text@),
        info.num_lines == split(text@, '\n').len(),
        info.num_bytes == utf8_len(text@) + 1,
        info.num_chars == text@.len() + 1,
{
    proof {
        lemma_blob_sizes(text@);
    }
    let mut scanner = Scanner::new(true);
    assert(Seq::<char>::empty() + text@ =~= text@);
    scanner.feed(text);
    scanner.finish()
}

/// Counts the bytes of a source as text read line by line. Bytes that are not valid
/// UTF-8 give `CountError::Encoding`; all others are counted.
pub fn count_file(bytes: &[u8]) -> (counted: Result<FileInfo, CountError>)
    ensures
        valid_utf8(bytes@) <==> counted is Ok,
        counted is Ok ==> counted.unwrap()@ == stream_counts(decode_utf8(bytes@)),
        counted is Ok ==> counted.unwrap().num_lines == stream_lines(decode_utf8(bytes@)).len(),
        counted is Ok ==> counted.unwrap().num_bytes == bytes@.len(),
        counted is Ok ==> counted.unwrap().num_chars == decode_utf8(bytes@).len(),
        counted is Err ==> counted == Err::<FileInfo, CountError>(CountError::Encoding),
{
    match decode(bytes) {
        None => Err(CountError::Encoding),
        Some(text) => {
            broadcast use vstd::utf8::decode_utf8_encode_utf8;

            let mut scanner = Scanner::new(false);
            proof {
                lemma_stream_sizes(text@);
                lemma_stream_line_count(text@);
            }
            assert(utf8_len(text@) == bytes.len());
            assert(Seq::<char>::empty() + text@ =~= text@);
            scanner.feed(text);
            Ok(scanner.finish())
        },
    }
}

} // verus!
