//! The pagination driver: pages `1, 2, ...` of 100 items are requested until
//! a page comes back short (an empty page is short too), or the page cap is
//! passed. A page answered `304 Not Modified` is skipped.

use vstd::prelude::*;

verus! {

/// Items asked for per page.
pub const PER_PAGE: usize = 100;

/// Where a run of page requests stands.
#[derive(Clone, Copy, Debug)]
pub struct Pagination {
    /// The page to request next.
    pub page: usize,
    /// The last page that may be requested, where capped.
    pub max_pages: Option<usize>,
    /// No more pages are to be requested.
    pub finished: bool,
}

pub open spec fn start(max_pages: Option<usize>) -> Pagination {
    Pagination { page: 1, max_pages, finished: max_pages == Some(0usize) }
}

/// Moving on to the next page: finished once past the cap (or out of page
/// numbers).
pub open spec fn advanced(p: Pagination) -> Pagination {
    if p.page == usize::MAX {
        Pagination { finished: true, ..p }
    } else {
        Pagination {
            page: (p.page + 1) as usize,
            finished: match p.max_pages {
                Some(m) => p.page + 1 > m,
                None => false,
            },
            ..p
        }
    }
}

/// After a page of `len` items: finished where it is short, else advanced.
pub open spec fn after_page(p: Pagination, len: nat) -> Pagination {
    if len < PER_PAGE {
        Pagination { finished: true, ..p }
    } else {
        advanced(p)
    }
}

/// The number of requests made from `p` while the server answers with pages
/// of the lengths `lens`, in order.
pub open spec fn requests(p: Pagination, lens: Seq<nat>) -> nat
    decreases lens.len(),
{
    if p.finished || lens.len() == 0 {
        0
    } else {
        1 + requests(after_page(p, lens[0]), lens.drop_first())
    }
}

/// The number of pages needed to see every item: up to and including the
/// first short page.
pub open spec fn needed(lens: Seq<nat>) -> nat
    decreases lens.len(),
{
    if lens.len() == 0 {
        0
    } else if lens[0] < PER_PAGE {
        1
    } else {
        1 + needed(lens.drop_first())
    }
}

pub open spec fn min(a: nat, b: nat) -> nat {
    if a <= b {
        a
    } else {
        b
    }
}

proof fn lemma_requests_from(p: Pagination, lens: Seq<nat>)
    requires
        !p.finished,
        p.page >= 1,
        match p.max_pages {
            Some(m) => p.page <= m,
            None => p.page + lens.len() <= usize::MAX + 1,
        },
    ensures
        requests(p, lens) == match p.max_pages {
            Some(m) => min(needed(lens), (m - p.page + 1) as nat),
            None => needed(lens),
        },
    decreases lens.len(),
{
    if lens.len() > 0 {
        let tail = lens.drop_first();
        let q = after_page(p, lens[0]);
        assert(requests(p, lens) == 1 + requests(q, tail));
        if lens[0] >= PER_PAGE {
            assert(needed(lens) == 1 + needed(tail));
            if !q.finished {
                lemma_requests_from(q, tail);
            } else {
                assert(requests(q, tail) == 0);
                if p.max_pages is None {
                    assert(tail.len() == 0);
                    assert(needed(tail) == 0);
                }
            }
        } else {
            assert(requests(q, tail) == 0);
            assert(needed(lens) == 1);
        }
    }
}

/// Pagination requests exactly the pages needed, up to the cap: page after
/// page until one comes back short, and never a page past the cap.
pub proof fn lemma_pagination_requests(max_pages: Option<usize>, lens: Seq<nat>)
    requires
        lens.len() <= usize::MAX,
    ensures
        requests(start(max_pages), lens) == match max_pages {
            Some(m) => min(needed(lens), m as nat),
            None => needed(lens),
        },
{
    if max_pages != Some(0usize) {
        lemma_requests_from(start(max_pages), lens);
    }
}

impl Pagination {
    /// The start of a run capped at `max_pages` pages, where given.
    pub fn new(max_pages: Option<usize>) -> (r: Self)
        ensures
            r == start(max_pages),
    {
        let finished = match max_pages {
            Some(m) => m == 0,
            None => false,
        };
        Pagination { page: 1, max_pages, finished }
    }

    /// The page to request next, or `None` once finished.
    pub fn next_page(&self) -> (r: Option<usize>)
        ensures
            r == if self.finished {
                None
            } else {
                Some(self.page)
            },
    {
        if self.finished {
            None
        } else {
            Some(self.page)
        }
    }

    /// The current page was answered `304 Not Modified`: skip it.
    pub fn on_not_modified(&mut self)
        ensures
            *final(self) == advanced(*old(self)),
    {
        if self.page == usize::MAX {
            self.finished = true;
        } else {
            self.page = self.page + 1;
            self.finished = match self.max_pages {
                Some(m) => self.page > m,
                None => false,
            };
        }
    }

    /// The current page came back with `len` items.
    pub fn on_page(&mut self, len: usize)
        ensures
            *final(self) == after_page(*old(self), len as nat),
    {
        if len < PER_PAGE {
            self.finished = true;
        } else {
            self.on_not_modified();
        }
    }
}

} // verus!
