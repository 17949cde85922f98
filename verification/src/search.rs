//! Read-only queries over a project snapshot: exact and partial title
//! search, time-window filters, and comment-text search.
//!
//! Every query returns the ids of the matching issues in insertion order,
//! and every "no matches" case is an explicit absent result, distinct from an
//! empty collection.

use crate::issue::IssueView;
use crate::project::{Project, ProjectView};
use crate::text::{chars_of, contains_seq, mutual_contains, mutual_contains_exec, str_eq};
use vstd::prelude::*;

verus! {

/// The ids of the issues whose title equals the query, in insertion order.
pub open spec fn exact_ids(s: Seq<(u64, IssueView)>, q: Seq<char>) -> Seq<u64> {
    s.filter(|e: (u64, IssueView)| e.1.name == q).map_values(|e: (u64, IssueView)| e.0)
}

/// The ids of the issues whose title contains the query or is contained in
/// it, in insertion order.
pub open spec fn partial_ids(s: Seq<(u64, IssueView)>, q: Seq<char>) -> Seq<u64> {
    s.filter(|e: (u64, IssueView)| mutual_contains(e.1.name, q)).map_values(
        |e: (u64, IssueView)| e.0,
    )
}

/// The ids of the issues created inside the inclusive window.
pub open spec fn created_ids(s: Seq<(u64, IssueView)>, st: i64, ed: i64) -> Seq<u64> {
    s.filter(|e: (u64, IssueView)| st <= e.1.created_at <= ed).map_values(
        |e: (u64, IssueView)| e.0,
    )
}

/// The ids of the issues updated inside the inclusive window.
pub open spec fn updated_ids(s: Seq<(u64, IssueView)>, st: i64, ed: i64) -> Seq<u64> {
    s.filter(|e: (u64, IssueView)| st <= e.1.updated_at <= ed).map_values(
        |e: (u64, IssueView)| e.0,
    )
}

/// The ids of the issues with some comment, visible or hidden, whose body
/// contains the query.
pub open spec fn comment_ids(s: Seq<(u64, IssueView)>, q: Seq<char>) -> Seq<u64> {
    s.filter(
        |e: (u64, IssueView)|
            exists|i: int|
                0 <= i < e.1.messages.len() && contains_seq(#[trigger] e.1.messages[i].message, q),
    ).map_values(|e: (u64, IssueView)| e.0)
}

/// Every element of a filtered sequence is an element of the sequence.
proof fn lemma_filter_subset<A>(s: Seq<A>, pred: spec_fn(A) -> bool)
    ensures
        forall|j: int|
            0 <= j < s.filter(pred).len() ==> s.contains(#[trigger] s.filter(pred)[j]),
    decreases s.len(),
{
    reveal(Seq::filter);
    if s.len() > 0 {
        let d = s.drop_last();
        lemma_filter_subset(d, pred);
        assert forall|j: int|
            0 <= j < s.filter(pred).len() implies s.contains(#[trigger] s.filter(pred)[j]) by {
            if j < d.filter(pred).len() {
                assert(s.filter(pred)[j] == d.filter(pred)[j]);
                assert(d.contains(d.filter(pred)[j]));
                let k = choose|k: int| 0 <= k < d.len() && d[k] == d.filter(pred)[j];
                assert(s[k] == d[k]);
            } else {
                assert(s.filter(pred)[j] == s.last());
                assert(s[s.len() - 1] == s.last());
            }
        }
    }
}

/// Some stored issue carries the id and its title equals `q`.
pub open spec fn some_issue_named(s: Seq<(u64, IssueView)>, id: u64, q: Seq<char>) -> bool {
    exists|i: int| 0 <= i < s.len() && (#[trigger] s[i]).0 == id && s[i].1.name == q
}

/// Some stored issue carries the id and its title contains `q` or is
/// contained in it.
pub open spec fn some_issue_matching(s: Seq<(u64, IssueView)>, id: u64, q: Seq<char>) -> bool {
    exists|i: int|
        0 <= i < s.len() && (#[trigger] s[i]).0 == id && mutual_contains(s[i].1.name, q)
}

/// Search correctness for the exact and partial title queries: an id comes
/// back exactly when some stored issue carries it and its title matches —
/// equality for the exact query, substring containment in either direction
/// for the partial one.
pub proof fn lemma_search_correct(s: Seq<(u64, IssueView)>, q: Seq<char>)
    ensures
        forall|j: int|
            0 <= j < exact_ids(s, q).len() ==> some_issue_named(
                s,
                #[trigger] exact_ids(s, q)[j],
                q,
            ),
        forall|i: int|
            0 <= i < s.len() && (#[trigger] s[i]).1.name == q ==> exact_ids(s, q).contains(s[i].0),
        forall|j: int|
            0 <= j < partial_ids(s, q).len() ==> some_issue_matching(
                s,
                #[trigger] partial_ids(s, q)[j],
                q,
            ),
        forall|i: int|
            0 <= i < s.len() && mutual_contains((#[trigger] s[i]).1.name, q) ==> partial_ids(
                s,
                q,
            ).contains(s[i].0),
{
    let pe = |e: (u64, IssueView)| e.1.name == q;
    let pp = |e: (u64, IssueView)| mutual_contains(e.1.name, q);
    lemma_filter_subset(s, pe);
    lemma_filter_subset(s, pp);
    assert forall|j: int| 0 <= j < exact_ids(s, q).len() implies some_issue_named(
        s,
        #[trigger] exact_ids(s, q)[j],
        q,
    ) by {
        let e = s.filter(pe)[j];
        s.lemma_filter_pred(pe, j);
        assert(s.contains(e));
        let i = choose|i: int| 0 <= i < s.len() && s[i] == e;
        assert(s[i].0 == exact_ids(s, q)[j] && s[i].1.name == q);
    }
    assert forall|i: int|
        0 <= i < s.len() && (#[trigger] s[i]).1.name == q implies exact_ids(s, q).contains(
        s[i].0,
    ) by {
        s.lemma_filter_contains(pe, i);
        let j = choose|j: int| 0 <= j < s.filter(pe).len() && s.filter(pe)[j] == s[i];
        assert(exact_ids(s, q)[j] == s[i].0);
    }
    assert forall|j: int| 0 <= j < partial_ids(s, q).len() implies some_issue_matching(
        s,
        #[trigger] partial_ids(s, q)[j],
        q,
    ) by {
        let e = s.filter(pp)[j];
        s.lemma_filter_pred(pp, j);
        assert(s.contains(e));
        let i = choose|i: int| 0 <= i < s.len() && s[i] == e;
        assert(s[i].0 == partial_ids(s, q)[j] && mutual_contains(s[i].1.name, q));
    }
    assert forall|i: int|
        0 <= i < s.len() && mutual_contains((#[trigger] s[i]).1.name, q) implies partial_ids(
        s,
        q,
    ).contains(s[i].0) by {
        s.lemma_filter_contains(pp, i);
        let j = choose|j: int| 0 <= j < s.filter(pp).len() && s.filter(pp)[j] == s[i];
        assert(partial_ids(s, q)[j] == s[i].0);
    }
}

impl Project {
    /// The ids of the issues whose title equals the query exactly; no match
    /// is an absent result, not an empty list.
    pub fn search_issues(&self, query: &str) -> (r: Option<Vec<u64>>)
        ensures
            match r {
                Some(v) => v@ == exact_ids(self@.issues, query@) && v@.len() > 0,
                None => exact_ids(self@.issues, query@).len() == 0,
            },
    {
        let ghost s = self@.issues;
        let ghost pe = |e: (u64, IssueView)| e.1.name == query@;
        let mut out: Vec<u64> = Vec::new();
        let mut i: usize = 0;
        while i < self.issues.len()
            invariant
                i <= self.issues@.len(),
                s == self@.issues,
                pe == (|e: (u64, IssueView)| e.1.name == query@),
                out@ == s.take(i as int).filter(pe).map_values(|e: (u64, IssueView)| e.0),
            decreases self.issues@.len() - i,
        {
            proof {
                assert(s.take(i + 1).drop_last() =~= s.take(i as int));
                assert(s[i as int] == (self.issues@[i as int].0, self.issues@[i as int].1@));
                reveal_with_fuel(Seq::filter, 2);
            }
            if str_eq(self.issues[i].1.name.as_str(), query) {
                out.push(self.issues[i].0);
                proof {
                    assert(pe(s[i as int]));
                    assert(out@ =~= s.take(i + 1).filter(pe).map_values(
                        |e: (u64, IssueView)| e.0,
                    ));
                }
            } else {
                proof {
                    assert(!pe(s[i as int]));
                    assert(out@ =~= s.take(i + 1).filter(pe).map_values(
                        |e: (u64, IssueView)| e.0,
                    ));
                }
            }
            i += 1;
        }
        proof {
            assert(s.take(s.len() as int) =~= s);
        }
        if out.len() == 0 {
            None
        } else {
            Some(out)
        }
    }

    /// The first (oldest-inserted) issue whose title equals the query
    /// exactly, by id; absent when nothing matches.
    pub fn search_issue(&self, query: &str) -> (r: Option<u64>)
        ensures
            match r {
                Some(id) => exact_ids(self@.issues, query@).len() > 0 && id == exact_ids(
                    self@.issues,
                    query@,
                )[0],
                None => exact_ids(self@.issues, query@).len() == 0,
            },
    {
        match self.search_issues(query) {
            Some(v) => Some(v[0]),
            None => None,
        }
    }

    /// The ids of the issues whose title contains the query, or whose title
    /// the query contains; no match is an absent result.
    pub fn find_from_title(&self, query: &str) -> (r: Option<Vec<u64>>)
        ensures
            match r {
                Some(v) => v@ == partial_ids(self@.issues, query@) && v@.len() > 0,
                None => partial_ids(self@.issues, query@).len() == 0,
            },
    {
        let ghost s = self@.issues;
        let ghost pp = |e: (u64, IssueView)| mutual_contains(e.1.name, query@);
        let qchars = chars_of(query);
        let mut out: Vec<u64> = Vec::new();
        let mut i: usize = 0;
        while i < self.issues.len()
            invariant
                i <= self.issues@.len(),
                s == self@.issues,
                qchars@ == query@,
                pp == (|e: (u64, IssueView)| mutual_contains(e.1.name, query@)),
                out@ == s.take(i as int).filter(pp).map_values(|e: (u64, IssueView)| e.0),
            decreases self.issues@.len() - i,
        {
            proof {
                assert(s.take(i + 1).drop_last() =~= s.take(i as int));
                assert(s[i as int] == (self.issues@[i as int].0, self.issues@[i as int].1@));
                reveal_with_fuel(Seq::filter, 2);
            }
            let name = chars_of(self.issues[i].1.name.as_str());
            proof {
                assert(name@ == s[i as int].1.name);
            }
            if mutual_contains_exec(&name, &qchars) {
                out.push(self.issues[i].0);
                proof {
                    assert(pp(s[i as int]));
                    assert(out@ =~= s.take(i + 1).filter(pp).map_values(
                        |e: (u64, IssueView)| e.0,
                    ));
                }
            } else {
                proof {
                    assert(!pp(s[i as int]));
                    assert(out@ =~= s.take(i + 1).filter(pp).map_values(
                        |e: (u64, IssueView)| e.0,
                    ));
                }
            }
            i += 1;
        }
        proof {
            assert(s.take(s.len() as int) =~= s);
        }
        if out.len() == 0 {
            None
        } else {
            Some(out)
        }
    }

    /// The ids of the issues created inside the inclusive window; no match
    /// is an absent result.
    pub fn find_from_created_time(&self, st: i64, ed: i64) -> (r: Option<Vec<u64>>)
        ensures
            match r {
                Some(v) => v@ == created_ids(self@.issues, st, ed) && v@.len() > 0,
                None => created_ids(self@.issues, st, ed).len() == 0,
            },
    {
        let ghost s = self@.issues;
        let ghost pc = |e: (u64, IssueView)| st <= e.1.created_at <= ed;
        let mut out: Vec<u64> = Vec::new();
        let mut i: usize = 0;
        while i < self.issues.len()
            invariant
                i <= self.issues@.len(),
                s == self@.issues,
                pc == (|e: (u64, IssueView)| st <= e.1.created_at <= ed),
                out@ == s.take(i as int).filter(pc).map_values(|e: (u64, IssueView)| e.0),
            decreases self.issues@.len() - i,
        {
            proof {
                assert(s.take(i + 1).drop_last() =~= s.take(i as int));
                assert(s[i as int] == (self.issues@[i as int].0, self.issues@[i as int].1@));
                reveal_with_fuel(Seq::filter, 2);
            }
            let ca = self.issues[i].1.created_at;
            proof {
                assert(ca == s[i as int].1.created_at);
            }
            if st <= ca && ca <= ed {
                out.push(self.issues[i].0);
                proof {
                    assert(pc(s[i as int]));
                    assert(out@ =~= s.take(i + 1).filter(pc).map_values(
                        |e: (u64, IssueView)| e.0,
                    ));
                }
            } else {
                proof {
                    assert(!pc(s[i as int]));
                    assert(out@ =~= s.take(i + 1).filter(pc).map_values(
                        |e: (u64, IssueView)| e.0,
                    ));
                }
            }
            i += 1;
        }
        proof {
            assert(s.take(s.len() as int) =~= s);
        }
        if out.len() == 0 {
            None
        } else {
            Some(out)
        }
    }

    /// The ids of the issues updated inside the inclusive window; no match
    /// is an absent result.
    pub fn find_from_updated_time(&self, st: i64, ed: i64) -> (r: Option<Vec<u64>>)
        ensures
            match r {
                Some(v) => v@ == updated_ids(self@.issues, st, ed) && v@.len() > 0,
                None => updated_ids(self@.issues, st, ed).len() == 0,
            },
    {
        let ghost s = self@.issues;
        let ghost pu = |e: (u64, IssueView)| st <= e.1.updated_at <= ed;
        let mut out: Vec<u64> = Vec::new();
        let mut i: usize = 0;
        while i < self.issues.len()
            invariant
                i <= self.issues@.len(),
                s == self@.issues,
                pu == (|e: (u64, IssueView)| st <= e.1.updated_at <= ed),
                out@ == s.take(i as int).filter(pu).map_values(|e: (u64, IssueView)| e.0),
            decreases self.issues@.len() - i,
        {
            proof {
                assert(s.take(i + 1).drop_last() =~= s.take(i as int));
                assert(s[i as int] == (self.issues@[i as int].0, self.issues@[i as int].1@));
                reveal_with_fuel(Seq::filter, 2);
            }
            let ua = self.issues[i].1.updated_at;
            proof {
                assert(ua == s[i as int].1.updated_at);
            }
            if st <= ua && ua <= ed {
                out.push(self.issues[i].0);
                proof {
                    assert(pu(s[i as int]));
                    assert(out@ =~= s.take(i + 1).filter(pu).map_values(
                        |e: (u64, IssueView)| e.0,
                    ));
                }
            } else {
                proof {
                    assert(!pu(s[i as int]));
                    assert(out@ =~= s.take(i + 1).filter(pu).map_values(
                        |e: (u64, IssueView)| e.0,
                    ));
                }
            }
            i += 1;
        }
        proof {
            assert(s.take(s.len() as int) =~= s);
        }
        if out.len() == 0 {
            None
        } else {
            Some(out)
        }
    }

    /// The ids of the issues having at least one comment, visible or hidden,
    /// whose body contains the query; no match is an absent result.
    pub fn find_from_comments(&self, query: &str) -> (r: Option<Vec<u64>>)
        ensures
            match r {
                Some(v) => v@ == comment_ids(self@.issues, query@) && v@.len() > 0,
                None => comment_ids(self@.issues, query@).len() == 0,
            },
    {
        let ghost s = self@.issues;
        let ghost pm = |e: (u64, IssueView)|
            exists|k: int|
                0 <= k < e.1.messages.len() && contains_seq(
                    #[trigger] e.1.messages[k].message,
                    query@,
                );
        let mut out: Vec<u64> = Vec::new();
        let mut i: usize = 0;
        while i < self.issues.len()
            invariant
                i <= self.issues@.len(),
                s == self@.issues,
                pm == (|e: (u64, IssueView)|
                    exists|k: int|
                        0 <= k < e.1.messages.len() && contains_seq(
                            #[trigger] e.1.messages[k].message,
                            query@,
                        )),
                out@ == s.take(i as int).filter(pm).map_values(|e: (u64, IssueView)| e.0),
            decreases self.issues@.len() - i,
        {
            proof {
                assert(s.take(i + 1).drop_last() =~= s.take(i as int));
                assert(s[i as int] == (self.issues@[i as int].0, self.issues@[i as int].1@));
                reveal_with_fuel(Seq::filter, 2);
            }
            if self.issues[i].1.contains_comment(query) {
                out.push(self.issues[i].0);
                proof {
                    assert(pm(s[i as int]));
                    assert(out@ =~= s.take(i + 1).filter(pm).map_values(
                        |e: (u64, IssueView)| e.0,
                    ));
                }
            } else {
                proof {
                    assert(!pm(s[i as int]));
                    assert(out@ =~= s.take(i + 1).filter(pm).map_values(
                        |e: (u64, IssueView)| e.0,
                    ));
                }
            }
            i += 1;
        }
        proof {
            assert(s.take(s.len() as int) =~= s);
        }
        if out.len() == 0 {
            None
        } else {
            Some(out)
        }
    }
}

} // verus!
