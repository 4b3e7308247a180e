//! Tokenizer: an input line becomes its whitespace-delimited tokens.
//! The line is trimmed, split on single spaces, and empty pieces are
//! dropped, so runs of spaces collapse; no quoting or escaping is done.

use vstd::prelude::*;

use crate::text::keep_nonblank;
use crate::text::nonblank_pieces;
use crate::text::spec_split;
use crate::text::spec_trim;
use crate::text::split_on;
use crate::text::trim_ws;

verus! {

/// The tokens of an input line: the non-empty pieces of the trimmed line
/// split on single spaces.
pub open spec fn spec_tokenize(line: Seq<char>) -> Seq<Seq<char>> {
    nonblank_pieces(spec_split(spec_trim(line), ' '))
}

proof fn lemma_tokens_nonempty_rec(pieces: Seq<Seq<char>>)
    ensures
        forall|i: int|
            0 <= i < nonblank_pieces(pieces).len() ==> #[trigger] nonblank_pieces(
                pieces,
            )[i].len() > 0,
    decreases pieces.len(),
{
    if pieces.len() == 0 {
    } else {
        lemma_tokens_nonempty_rec(pieces.drop_first());
        let rest = nonblank_pieces(pieces.drop_first());
        if pieces[0].len() > 0 {
            assert forall|i: int| 0 <= i < nonblank_pieces(pieces).len() implies #[trigger]
            nonblank_pieces(pieces)[i].len() > 0 by {
                if i > 0 {
                    assert(nonblank_pieces(pieces)[i] == rest[i - 1]);
                }
            }
        }
    }
}

/// Every token of a line is non-empty: empty pieces are filtered out, so
/// runs of spaces collapse and leading or trailing whitespace adds nothing.
pub proof fn lemma_tokens_nonempty(line: Seq<char>)
    ensures
        forall|i: int|
            0 <= i < spec_tokenize(line).len() ==> #[trigger] spec_tokenize(line)[i].len() > 0,
{
    lemma_tokens_nonempty_rec(spec_split(spec_trim(line), ' '));
}

/// Splits an input line into its tokens. A blank line gives no tokens.
pub fn tokenize(line: &str) -> (tokens: Vec<String>)
    ensures
        tokens.deep_view() == spec_tokenize(line@),
{
    let trimmed = trim_ws(line);
    let pieces = split_on(trimmed, ' ');
    keep_nonblank(&pieces)
}

} // verus!
