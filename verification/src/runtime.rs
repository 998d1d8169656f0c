//! What the background samplers that both front ends run decide between their requests.

use vstd::prelude::*;
use crate::ft::types::{Health, RequestPage, RequestRecord};

verus! {

/// How many recorded requests one page asks for.
pub const REQUEST_PAGE: u64 = 200;

/// The poll of the server's control plane: where in the recorded requests it has got to.
///
/// `/health` is cheap and always answered, so it drives the loop; the rest is only
/// meaningful once the engine is serving, and skipping it while the engine loads keeps a
/// loading engine from being polled pointlessly for minutes.
#[derive(Debug)]
pub struct Poll {
    pub cursor: u64,
}

/// What follows the answer to `/health`.
#[derive(Debug, Clone, Copy, PartialEq, Eq, Structural)]
pub enum Next {
    /// Read the statistics, the pools and a page of requests from this cursor on.
    ReadAll { cursor: u64, limit: u64 },
    /// There is nothing more to ask in this round.
    Rest,
}

/// A page of recorded requests that is news, and where the next page starts.
#[derive(Debug)]
pub struct News {
    pub entries: Vec<RequestRecord>,
    pub next_cursor: u64,
}


impl Poll {
    pub fn new() -> (r: Self)
        ensures
            r.cursor == 0,
    {
        Poll { cursor: 0 }
    }

    /// The server is now polled at another address, whose requests are read from the start.
    pub fn moved(&mut self)
        ensures
            final(self).cursor == 0,
    {
        self.cursor = 0;
    }

    /// Take in what `/health` said, or that it did not answer. A server that does not answer
    /// is the normal state while nothing is running; one that comes up later numbers its
    /// requests anew.
    pub fn health(&mut self, health: Option<&Health>) -> (r: Next)
        ensures
            final(self).cursor == (if health is None {
                0
            } else {
                old(self).cursor
            }),
            r == (match health {
                Some(h) if h.status@ == "ok"@ => Next::ReadAll {
                    cursor: old(self).cursor,
                    limit: REQUEST_PAGE,
                },
                _ => Next::Rest,
            }),
    {
        match health {
            Some(h) => if h.is_ready() {
                Next::ReadAll { cursor: self.cursor, limit: REQUEST_PAGE }
            } else {
                Next::Rest
            },
            None => {
                self.cursor = 0;
                Next::Rest
            },
        }
    }

    /// Take in a page of requests. One that holds nothing and leads nowhere is no news.
    pub fn page(&mut self, page: RequestPage) -> (r: Option<News>)
        ensures
            final(self).cursor == page.next_cursor,
            r is Some <==> page.entries@.len() > 0 || page.next_cursor != old(self).cursor,
            r is Some ==> r->0.entries == page.entries && r->0.next_cursor == page.next_cursor,
    {
        if page.entries.len() > 0 || page.next_cursor != self.cursor {
            self.cursor = page.next_cursor;
            Some(News { entries: page.entries, next_cursor: page.next_cursor })
        } else {
            None
        }
    }
}

} // verus!
