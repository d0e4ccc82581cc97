//! The selection engine: one request at a time, from the arrival of a candidate
//! list to the reply that ends it.

use vstd::prelude::*;

use crate::lines::texts;
use crate::ranking::{
    head_rows, is_match, is_ranked_view, lemma_equal_scores_keep_list_order,
    lemma_higher_score_first, lemma_ranked_view_unique, rank, row_indices, MAX_VISIBLE,
};
use crate::scorer::{score_candidates, scores_of, skim_score};

verus! {

/// A request as the engine holds it: the list that arrived, the query typed so
/// far, the ranked view of the list under that query, and the highlighted row.
pub ghost struct Request {
    pub candidates: Seq<Seq<char>>,
    pub query: Seq<char>,
    pub rows: Seq<int>,
    pub cursor: int,
}

impl Request {
    /// The rows are the ranked view of the list under the query, and the cursor
    /// is on one of them, or at 0 where there is none.
    pub open spec fn is_valid(self) -> bool {
        &&& is_ranked_view(scores_of(self.candidates, self.query), self.rows)
        &&& 0 <= self.cursor
        &&& self.cursor < self.rows.len() || self.cursor == 0
    }

    /// The request that a list opens: no query yet, the head of the list shown,
    /// the cursor on the first row.
    pub open spec fn arrived(candidates: Seq<Seq<char>>) -> Request {
        Request { candidates, query: Seq::empty(), rows: head_rows(candidates.len()), cursor: 0 }
    }

    /// The request after the cursor was asked to move to `row`: it moves where
    /// that row exists and stays where it does not.
    pub open spec fn with_cursor(self, row: int) -> Request {
        if 0 <= row < self.rows.len() {
            Request { cursor: row, ..self }
        } else {
            self
        }
    }

    /// The texts of the rows, top row first.
    pub open spec fn shown(self) -> Seq<Seq<char>> {
        Seq::new(self.rows.len(), |k: int| self.candidates[self.rows[k]])
    }

    /// What a commit answers: the text of the highlighted row, or nothing where
    /// no row is shown.
    pub open spec fn chosen(self) -> Seq<char> {
        if self.rows.len() > 0 {
            self.candidates[self.rows[self.cursor]]
        } else {
            Seq::empty()
        }
    }
}

/// The view is a function of list and query: two valid requests on the same list
/// with the same query show the same rows in the same order.
pub proof fn lemma_same_query_same_view(first: Request, second: Request)
    requires
        first.is_valid(),
        second.is_valid(),
        first.candidates == second.candidates,
        first.query == second.query,
    ensures
        first.rows == second.rows,
        first.shown() == second.shown(),
{
    lemma_ranked_view_unique(
        scores_of(first.candidates, first.query),
        first.rows,
        second.rows,
    );
}

/// A valid request never shows more than `MAX_VISIBLE` rows, however long its
/// list is, and each row is a candidate of the list that the query matches.
pub proof fn lemma_view_is_bounded(request: Request)
    requires
        request.is_valid(),
    ensures
        request.rows.len() <= MAX_VISIBLE,
        request.shown().len() <= MAX_VISIBLE,
        forall|k: int|
            0 <= k < request.rows.len() ==> 0 <= #[trigger] request.rows[k]
                < request.candidates.len() && skim_score(
                request.candidates[request.rows[k]],
                request.query,
            ) is Some,
{
    let scores = scores_of(request.candidates, request.query);
    assert forall|k: int| 0 <= k < request.rows.len() implies is_match(
        scores,
        #[trigger] request.rows[k],
    ) by {}
}

/// Of two candidates that the query matches, the one with the higher score comes
/// first: where the lower one is shown, the higher one is shown above it.
pub proof fn lemma_better_match_first(request: Request, higher: int, lower: int)
    requires
        request.is_valid(),
        0 <= higher < request.candidates.len(),
        0 <= lower < request.candidates.len(),
        skim_score(request.candidates[higher], request.query) matches Some(high) && skim_score(
            request.candidates[lower],
            request.query,
        ) matches Some(low) && high > low,
        request.rows.contains(lower),
    ensures
        request.rows.contains(higher),
        request.rows.index_of(higher) < request.rows.index_of(lower),
{
    lemma_higher_score_first(
        scores_of(request.candidates, request.query),
        request.rows,
        higher,
        lower,
    );
}

/// What a key press means to the engine.
#[derive(Clone, Copy, Debug, PartialEq, Eq)]
pub enum Key {
    /// The key that takes the highlighted row.
    Commit,
    /// The key that gives the request up.
    Cancel,
    /// Any other key: it is left to the input field.
    Other,
}

/// What the engine holds of an open request.
struct Held {
    candidates: Vec<String>,
    query: String,
    rows: Vec<usize>,
    cursor: usize,
}

impl View for Held {
    type V = Request;

    closed spec fn view(&self) -> Request {
        Request {
            candidates: texts(self.candidates@),
            query: self.query@,
            rows: row_indices(self.rows@),
            cursor: self.cursor as int,
        }
    }
}

/// The selection engine. It is idle until a list arrives, holds one request until
/// a commit, a cancel or the closing of the window, and is idle again. Whatever
/// request it holds is a valid one.
///
/// The engine owns no widget. After `receive`, `set_query` and `move_cursor` the
/// caller puts `visible_rows` on the screen and highlights `selected_row`; a
/// reply that a key press or the closing of the window returns is to be sent,
/// once, and the window hidden.
pub struct Engine {
    held: Option<Held>,
}

impl View for Engine {
    type V = Option<Request>;

    /// `None` while idle, the request while one is open.
    closed spec fn view(&self) -> Option<Request> {
        match self.held {
            Some(held) => Some(held@),
            None => None,
        }
    }
}

impl Engine {
    /// The request that the engine holds, if any, is a valid one. This holds of
    /// every engine; each function says so of the engine it leaves.
    pub open spec fn wf(&self) -> bool {
        self@ matches Some(request) ==> request.is_valid()
    }

    #[verifier::type_invariant]
    closed spec fn always_wf(&self) -> bool {
        self.wf()
    }

    /// An idle engine.
    pub fn new() -> (engine: Engine)
        ensures
            engine.wf(),
            engine@ is None,
    {
        Engine { held: None }
    }

    /// Whether a request is open, which is when the window is to be on the
    /// screen: it is shown when a list arrives and hidden with the reply.
    pub fn is_open(&self) -> (open: bool)
        ensures
            self.wf(),
            open == (self@ is Some),
    {
        proof {
            use_type_invariant(self);
        }
        self.held.is_some()
    }

    /// The texts to show, top row first; none while idle.
    pub fn visible_rows(&self) -> (shown: Vec<String>)
        ensures
            shown@.len() <= MAX_VISIBLE,
            self@ is None ==> shown@.len() == 0,
            self@ matches Some(request) ==> texts(shown@) == request.shown(),
    {
        let mut shown: Vec<String> = Vec::new();
        proof {
            use_type_invariant(self);
        }
        match &self.held {
            None => {},
            Some(held) => {
                let ghost request = held@;
                let mut k: usize = 0;
                while k < held.rows.len()
                    invariant
                        request.is_valid(),
                        held@ == request,
                        k <= held.rows.len(),
                        shown.len() == k,
                        forall|j: int| 0 <= j < k ==> (#[trigger] shown[j])@ == request.shown()[j],
                    decreases held.rows.len() - k,
                {
                    proof {
                        assert(is_match(
                            scores_of(request.candidates, request.query),
                            request.rows[k as int],
                        ));
                    }
                    shown.push(held.candidates[held.rows[k]].clone());
                    k += 1;
                }
            },
        }
        shown
    }

    /// The highlighted row; `None` while idle and where no row is shown.
    pub fn selected_row(&self) -> (row: Option<usize>)
        ensures
            row is Some <==> (self@ matches Some(request) && request.rows.len() > 0),
            row matches Some(at) ==> at == self@->0.cursor,
    {
        match &self.held {
            Some(held) => if held.rows.len() > 0 {
                Some(held.cursor)
            } else {
                None
            },
            None => None,
        }
    }

    /// The query typed so far; empty while idle.
    pub fn query(&self) -> (text: String)
        ensures
            self@ is None ==> text@.len() == 0,
            self@ matches Some(request) ==> text@ == request.query,
    {
        match &self.held {
            Some(held) => held.query.clone(),
            None => String::new(),
        }
    }

    /// A candidate list arrives and opens a request on it, in place of whatever
    /// the engine held.
    pub fn receive(&mut self, candidates: Vec<String>)
        ensures
            final(self).wf(),
            final(self)@ == Some(Request::arrived(texts(candidates@))),
    {
        let scores = score_candidates(&candidates, "");
        let rows = rank(&scores);
        proof {
            reveal_strlit("");
            assert(""@ =~= Seq::<char>::empty());
            lemma_equal_scores_keep_list_order(scores@, row_indices(rows@), 0i64);
        }
        self.held = Some(Held { candidates, query: String::new(), rows, cursor: 0 });
    }

    /// The query changed: the view is ranked anew from the whole list and the
    /// cursor goes back to the first row. Without an open request nothing
    /// happens.
    pub fn set_query(&mut self, query: &str)
        ensures
            final(self).wf(),
            old(self)@ is None ==> final(self)@ is None,
            old(self)@ matches Some(before) ==> (final(self)@ matches Some(after)
                && after.candidates == before.candidates && after.query == query@
                && is_ranked_view(scores_of(before.candidates, query@), after.rows)
                && after.cursor == 0),
    {
        let mut taken: Option<Held> = None;
        core::mem::swap(&mut self.held, &mut taken);
        match taken {
            None => {},
            Some(held) => {
                let scores = score_candidates(&held.candidates, query);
                let rows = rank(&scores);
                self.held = Some(
                    Held { candidates: held.candidates, query: query.to_owned(), rows, cursor: 0 },
                );
            },
        }
    }

    /// The highlight was moved to `row`. A row that is not shown, or a move
    /// without an open request, changes nothing.
    pub fn move_cursor(&mut self, row: usize)
        ensures
            final(self).wf(),
            old(self)@ is None ==> final(self)@ is None,
            old(self)@ matches Some(before) ==> final(self)@ == Some(before.with_cursor(row as int)),
    {
        proof {
            use_type_invariant(&*self);
        }
        let mut taken: Option<Held> = None;
        core::mem::swap(&mut self.held, &mut taken);
        match taken {
            None => {},
            Some(held) => {
                let cursor = if row < held.rows.len() {
                    row
                } else {
                    held.cursor
                };
                self.held = Some(
                    Held { candidates: held.candidates, query: held.query, rows: held.rows, cursor },
                );
            },
        }
    }

    /// The commit key: the request is answered with the text of the highlighted
    /// row, or with the empty text where no row is shown, and the engine goes
    /// idle. Without an open request there is nothing to answer.
    pub fn commit(&mut self) -> (reply: Option<String>)
        ensures
            final(self)@ is None,
            old(self)@ is None ==> reply is None,
            old(self)@ matches Some(before) ==> (reply matches Some(text) && text@
                == before.chosen()),
    {
        proof {
            use_type_invariant(&*self);
        }
        let mut taken: Option<Held> = None;
        core::mem::swap(&mut self.held, &mut taken);
        match taken {
            None => None,
            Some(held) => {
                if held.rows.len() > 0 {
                    proof {
                        let request = held@;
                        assert(is_match(
                            scores_of(request.candidates, request.query),
                            request.rows[request.cursor],
                        ));
                    }
                    Some(held.candidates[held.rows[held.cursor]].clone())
                } else {
                    Some(String::new())
                }
            },
        }
    }

    /// The cancel key: the request is answered with the empty text, whatever is
    /// shown, and the engine goes idle. Without an open request there is nothing
    /// to answer.
    pub fn cancel(&mut self) -> (reply: Option<String>)
        ensures
            final(self)@ is None,
            old(self)@ is None ==> reply is None,
            old(self)@ is Some ==> (reply matches Some(text) && text@.len() == 0),
    {
        let mut taken: Option<Held> = None;
        core::mem::swap(&mut self.held, &mut taken);
        match taken {
            None => None,
            Some(_) => Some(String::new()),
        }
    }

    /// A key was pressed: the commit key commits, the cancel key cancels, and
    /// any other key changes nothing and answers nothing.
    pub fn key_pressed(&mut self, key: Key) -> (reply: Option<String>)
        ensures
            key is Other ==> final(self)@ == old(self)@ && reply is None,
            !(key is Other) ==> final(self)@ is None,
            !(key is Other) && old(self)@ is None ==> reply is None,
            key is Commit && old(self)@ is Some ==> (reply matches Some(text) && text@
                == old(self)@->0.chosen()),
            key is Cancel && old(self)@ is Some ==> (reply matches Some(text) && text@.len()
                == 0),
    {
        match key {
            Key::Commit => self.commit(),
            Key::Cancel => self.cancel(),
            Key::Other => None,
        }
    }

    /// The window was closed: the same as a cancel.
    pub fn window_closed(&mut self) -> (reply: Option<String>)
        ensures
            final(self)@ is None,
            old(self)@ is None ==> reply is None,
            old(self)@ is Some ==> (reply matches Some(text) && text@.len() == 0),
    {
        self.cancel()
    }
}

} // verus!
