//! Continuation tokens for list operations.
//!
//! Results are ordered by the stable entity id; a token records the last id
//! already returned, so that inserts and deletes between page fetches
//! neither duplicate nor skip entries already handed out. Callers treat the
//! token as opaque and must not assume it is an offset.

use vstd::prelude::*;

verus! {

/// A page request: the token returned by the previous page (`None` for the
/// first page) and the page size.
#[derive(Clone, Copy, Debug, PartialEq, Eq, Structural)]
pub struct PaginationQuery {
    pub page_token: Option<u64>,
    pub page_size: usize,
}

/// One page of ids, in ascending order, with the token for the next fetch.
/// An empty page carries no token: the listing is exhausted.
#[derive(Clone, Debug)]
pub struct Page {
    pub ids: Vec<u64>,
    pub next_token: Option<u64>,
}

/// Ids strictly ascending.
pub open spec fn ids_sorted(s: Seq<u64>) -> bool {
    forall|i: int, j: int| 0 <= i < j < s.len() ==> s[i] < s[j]
}

/// Whether an id lies beyond the boundary a token records.
pub open spec fn after_token(t: Option<u64>, id: u64) -> bool {
    match t {
        None => true,
        Some(b) => id > b,
    }
}

/// How many leading ids the token cuts away.
pub open spec fn cut(s: Seq<u64>, t: Option<u64>) -> int
    decreases s.len(),
{
    match t {
        None => 0,
        Some(b) => if s.len() == 0 {
            0
        } else if s[0] <= b {
            1 + cut(s.drop_first(), t)
        } else {
            0
        },
    }
}

/// The page a sorted listing yields for a token: the first `p` ids beyond
/// the boundary.
pub open spec fn page_of(s: Seq<u64>, t: Option<u64>, p: int) -> Seq<u64> {
    let c = cut(s, t);
    let take = if p <= s.len() - c {
        p
    } else {
        s.len() - c
    };
    s.subrange(c, c + take)
}

/// On a sorted listing the cut splits it exactly: everything before the cut
/// is at or below the boundary, everything after lies beyond it.
pub proof fn lemma_cut_bounds(s: Seq<u64>, t: Option<u64>)
    requires
        ids_sorted(s),
    ensures
        0 <= cut(s, t) <= s.len(),
        forall|k: int| 0 <= k < cut(s, t) ==> !after_token(t, s[k]),
        forall|k: int| cut(s, t) <= k < s.len() ==> after_token(t, s[k]),
    decreases s.len(),
{
    match t {
        None => {},
        Some(b) => {
            if s.len() == 0 {
            } else if s[0] <= b {
                assert(ids_sorted(s.drop_first()));
                lemma_cut_bounds(s.drop_first(), t);
                assert forall|k: int| 1 <= k < s.len() implies s.drop_first()[k - 1] == s[k] by {}
            } else {
                assert forall|k: int| 0 <= k < s.len() implies after_token(t, s[k]) by {
                    if k > 0 {
                        assert(s[0] < s[k]);
                    }
                }
            }
        },
    }
}

/// The cut right after the id at position `j` is `j + 1`.
pub proof fn lemma_cut_at(s: Seq<u64>, j: int)
    requires
        ids_sorted(s),
        0 <= j < s.len(),
    ensures
        cut(s, Some(s[j])) == j + 1,
    decreases s.len(),
{
    if j == 0 {
        assert(s[0] <= s[0]);
        assert(ids_sorted(s.drop_first()));
        lemma_cut_bounds(s.drop_first(), Some(s[0]));
        if s.len() > 1 {
            assert(after_token(Some(s[0]), s.drop_first()[0]));
            if cut(s.drop_first(), Some(s[0])) > 0 {
                assert(!after_token(Some(s[0]), s.drop_first()[0]));
            }
        }
    } else {
        assert(s[0] < s[j]);
        assert(ids_sorted(s.drop_first()));
        assert(s.drop_first()[j - 1] == s[j]);
        lemma_cut_at(s.drop_first(), j - 1);
    }
}

/// Every id the pages of a sorted listing can yield, following tokens from
/// `t` for at most `fuel` pages of size `p`.
pub open spec fn pages_from(s: Seq<u64>, t: Option<u64>, p: int, fuel: nat) -> Seq<u64>
    decreases fuel,
{
    if fuel == 0 {
        Seq::empty()
    } else {
        let pg = page_of(s, t, p);
        if pg.len() == 0 {
            Seq::empty()
        } else {
            pg + pages_from(s, Some(pg.last()), p, (fuel - 1) as nat)
        }
    }
}

/// Following continuation tokens from `t` until a page comes back empty
/// yields exactly the ids beyond `t`, each one once, in order — no
/// duplicates, nothing skipped. `fuel` bounds the number of fetches; one
/// per remaining id is always enough.
pub proof fn lemma_pagination_complete(s: Seq<u64>, t: Option<u64>, p: int, fuel: nat)
    requires
        ids_sorted(s),
        p >= 1,
        fuel >= s.len() - cut(s, t),
    ensures
        pages_from(s, t, p, fuel) == s.subrange(cut(s, t), s.len() as int),
    decreases fuel,
{
    lemma_cut_bounds(s, t);
    let c = cut(s, t);
    let pg = page_of(s, t, p);
    if pg.len() == 0 {
        assert(c == s.len());
        assert(s.subrange(c, s.len() as int) =~= Seq::<u64>::empty());
        assert(pages_from(s, t, p, fuel) =~= Seq::<u64>::empty());
    } else {
        let last = pg.last();
        let take = if p <= s.len() - c {
            p
        } else {
            s.len() - c
        };
        assert(last == s[c + take - 1]);
        lemma_cut_at(s, c + take - 1);
        lemma_pagination_complete(s, Some(last), p, (fuel - 1) as nat);
        assert(pages_from(s, t, p, fuel) == pg + pages_from(s, Some(last), p, (fuel - 1) as nat));
        assert(pg + s.subrange(c + take, s.len() as int) =~= s.subrange(c, s.len() as int));
    }
}

/// A full listing is recovered from the first page on: with no token the
/// cut is zero, so the pages yield every id exactly once.
pub proof fn lemma_pagination_yields_all(s: Seq<u64>, p: int, fuel: nat)
    requires
        ids_sorted(s),
        p >= 1,
        fuel >= s.len(),
    ensures
        pages_from(s, None, p, fuel) == s,
        forall|i: int, j: int|
            0 <= i < j < pages_from(s, None, p, fuel).len() ==> pages_from(s, None, p, fuel)[i]
                != pages_from(s, None, p, fuel)[j],
{
    lemma_pagination_complete(s, None, p, fuel);
    assert(s.subrange(0, s.len() as int) =~= s);
}

/// Cut a page out of a sorted id listing: the first `page_size` ids beyond
/// the token, and the token to continue from. An empty page has no token.
pub fn paginate_ids(ids: &Vec<u64>, query: PaginationQuery) -> (r: Page)
    requires
        ids_sorted(ids@),
        query.page_size >= 1,
    ensures
        r.ids@ == page_of(ids@, query.page_token, query.page_size as int),
        r.next_token == (if r.ids@.len() == 0 {
            None::<u64>
        } else {
            Some(r.ids@.last())
        }),
        ids_sorted(r.ids@),
{
    proof {
        lemma_cut_bounds(ids@, query.page_token);
    }
    let mut start: usize = 0;
    while start < ids.len() && !after_exec(query.page_token, ids[start])
        invariant
            start <= ids@.len(),
            forall|k: int| 0 <= k < start ==> !after_token(query.page_token, ids@[k]),
        decreases ids@.len() - start,
    {
        start += 1;
    }
    proof {
        let c = cut(ids@, query.page_token);
        if start < ids@.len() {
            assert(after_token(query.page_token, ids@[start as int]));
        }
        assert(start == c) by {
            if start < c {
                assert(!after_token(query.page_token, ids@[start as int]));
            }
            if c < start {
                assert(!after_token(query.page_token, ids@[c]));
            }
        }
    }
    let mut out: Vec<u64> = Vec::new();
    let mut i: usize = start;
    while i < ids.len() && out.len() < query.page_size
        invariant
            start <= i <= ids@.len(),
            out@.len() == i - start,
            out@.len() <= query.page_size,
            out@ == ids@.subrange(start as int, i as int),
        decreases ids@.len() - i,
    {
        out.push(ids[i]);
        proof {
            assert(out@ =~= ids@.subrange(start as int, i + 1));
        }
        i += 1;
    }
    proof {
        assert(out@ =~= page_of(ids@, query.page_token, query.page_size as int));
    }
    let next_token = if out.len() == 0 {
        None
    } else {
        Some(out[out.len() - 1])
    };
    Page { ids: out, next_token }
}

/// Executable check of `after_token`.
pub fn after_exec(t: Option<u64>, id: u64) -> (r: bool)
    ensures
        r == after_token(t, id),
{
    match t {
        None => true,
        Some(b) => id > b,
    }
}

} // verus!
