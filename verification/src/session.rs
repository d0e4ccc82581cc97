//! A request from end to end: what the client wrote, what the engine answers.

use vstd::prelude::*;

use crate::acceptor::request_of;
use crate::engine::Request;
use crate::lines::{is_plain_line, join_lines, lemma_split_joined};
use crate::ranking::MAX_VISIBLE;

verus! {

/// A list written one candidate per line reaches the engine as it was written,
/// and a commit on row `row` of the view that it opens answers with the
/// candidate at that place of the list. The candidates are plain lines, so that
/// the text can hold them one per line; the row is one of the rows that the
/// opening view shows.
pub proof fn lemma_round_trip(list: Seq<Seq<char>>, row: int)
    requires
        forall|i: int| 0 <= i < list.len() ==> is_plain_line(#[trigger] list[i]),
        0 <= row < list.len(),
        row < MAX_VISIBLE,
    ensures
        request_of(join_lines(list)) == Some(list),
        Request::arrived(list).rows.len() > row,
        Request::arrived(list).with_cursor(row).chosen() == list[row],
{
    lemma_split_joined(list);
}

} // verus!
