use vstd::prelude::*;

use crate::packets::Request;

verus! {

#[derive(Debug, Clone, Copy, PartialEq, Eq, Hash, Structural)]
pub enum RequestStatus {
    Sending,
    AwaitingResponse,
    Approved,
    Denied,
}

/// The requests a player has made, each with how far it has got; no request twice.
pub struct Requests {
    map: Vec<(Request, RequestStatus)>,
}

/// The map from request to status that a list of entries describes.
pub open spec fn status_map(s: Seq<(Request, RequestStatus)>) -> Map<Request, RequestStatus>
    decreases s.len(),
{
    if s.len() == 0 {
        Map::empty()
    } else {
        status_map(s.drop_last()).insert(s.last().0, s.last().1)
    }
}

proof fn lemma_status_map(s: Seq<(Request, RequestStatus)>, r: Request)
    requires
        forall|i: int, j: int| 0 <= i < j < s.len() ==> (#[trigger] s[i]).0 != (#[trigger] s[j]).0,
    ensures
        status_map(s).contains_key(r) <==> exists|i: int| 0 <= i < s.len() && (#[trigger] s[i]).0 == r,
        forall|i: int| 0 <= i < s.len() && (#[trigger] s[i]).0 == r ==> status_map(s)[r] == s[i].1,
    decreases s.len(),
{
    if s.len() > 0 {
        let t = s.drop_last();
        lemma_status_map(t, r);
        assert forall|i: int| 0 <= i < t.len() implies #[trigger] t[i] == s[i] by {}
        if status_map(s).contains_key(r) && s.last().0 != r {
            let i = choose|i: int| 0 <= i < t.len() && (#[trigger] t[i]).0 == r;
            assert(s[i].0 == r);
        }
        if exists|i: int| 0 <= i < s.len() && (#[trigger] s[i]).0 == r {
            let i = choose|i: int| 0 <= i < s.len() && (#[trigger] s[i]).0 == r;
            if i < s.len() - 1 {
                assert(t[i].0 == r);
            }
        }
    }
}

impl Requests {
    /// The status of each request made.
    pub closed spec fn statuses(self) -> Map<Request, RequestStatus> {
        status_map(self.map@)
    }

    pub closed spec fn wf(self) -> bool {
        forall|i: int, j: int| 0 <= i < j < self.map@.len() ==> (#[trigger] self.map@[i]).0 != (#[trigger] self.map@[j]).0
    }

    pub fn new() -> (r: Self)
        ensures
            r.wf(),
            r.statuses() == Map::<Request, RequestStatus>::empty(),
    {
        Self { map: Vec::new() }
    }

    fn index_of(&self, request: Request) -> (r: Option<usize>)
        requires
            self.wf(),
        ensures
            match r {
                Some(i) => i < self.map@.len() && self.map@[i as int].0 == request
                    && self.statuses().contains_key(request) && self.statuses()[request] == self.map@[i as int].1,
                None => !self.statuses().contains_key(request),
            },
    {
        proof { lemma_status_map(self.map@, request); }
        let n = self.map.len();
        for i in 0..n
            invariant
                n == self.map@.len(),
                self.wf(),
                forall|j: int| 0 <= j < i ==> (#[trigger] self.map@[j]).0 != request,
        {
            if self.map[i].0 == request {
                proof { lemma_status_map(self.map@, request); }
                return Some(i);
            }
        }
        None
    }

    /// Makes a request, unless it was made already.
    pub fn make_request(&mut self, request: Request)
        requires
            old(self).wf(),
        ensures
            final(self).wf(),
            final(self).statuses() == if old(self).statuses().contains_key(request) {
                old(self).statuses()
            } else {
                old(self).statuses().insert(request, RequestStatus::Sending)
            },
    {
        if self.index_of(request).is_none() {
            let ghost before = self.map@;
            self.map.push((request, RequestStatus::Sending));
            proof {
                lemma_status_map(before, request);
                assert(self.map@.drop_last() == before);
                assert forall|i: int, j: int| 0 <= i < j < self.map@.len()
                    implies (#[trigger] self.map@[i]).0 != (#[trigger] self.map@[j]).0 by {
                    if j == before.len() {
                        assert(before[i].0 != request);
                    }
                }
            }
        }
    }

    /// Gets the status of a request without removing it.
    pub fn get_status(&self, request: Request) -> (s: Option<RequestStatus>)
        requires
            self.wf(),
        ensures
            s == (if self.statuses().contains_key(request) { Some(self.statuses()[request]) } else { None }),
    {
        match self.index_of(request) {
            Some(i) => Some(self.map[i].1),
            None => None,
        }
    }

    /// Tries to read a request result. Returns `None` if the request is unanswered, otherwise
    /// returns whether the request was approved and removes the request.
    pub fn consume(&mut self, request: Request) -> (r: Option<bool>)
        requires
            old(self).wf(),
        ensures
            final(self).wf(),
            match (if old(self).statuses().contains_key(request) { Some(old(self).statuses()[request]) } else { None }) {
                Some(RequestStatus::Approved) => r == Some(true) && final(self).statuses() == old(self).statuses().remove(request),
                Some(RequestStatus::Denied) => r == Some(false) && final(self).statuses() == old(self).statuses().remove(request),
                _ => r is None && final(self).statuses() == old(self).statuses(),
            },
    {
        match self.index_of(request) {
            Some(i) => {
                let status = self.map[i].1;
                match status {
                    RequestStatus::Approved => {
                        self.remove_at(i);
                        Some(true)
                    },
                    RequestStatus::Denied => {
                        self.remove_at(i);
                        Some(false)
                    },
                    _ => None,
                }
            },
            None => None,
        }
    }

    fn remove_at(&mut self, i: usize)
        requires
            old(self).wf(),
            i < old(self).map@.len(),
        ensures
            final(self).wf(),
            final(self).statuses() == old(self).statuses().remove(old(self).map@[i as int].0),
    {
        let ghost before = self.map@;
        let ghost request = before[i as int].0;
        self.map.remove(i);
        proof {
            let after = self.map@;
            assert(after == before.remove(i as int));
            assert forall|a: int, b: int| 0 <= a < b < after.len()
                implies (#[trigger] after[a]).0 != (#[trigger] after[b]).0 by {
                let a0 = if a < i { a } else { a + 1 };
                let b0 = if b < i { b } else { b + 1 };
                assert(after[a] == before[a0] && after[b] == before[b0]);
            }
            assert forall|r: Request| #[trigger] status_map(after).contains_key(r) == old(self).statuses().remove(request).contains_key(r)
                && (status_map(after).contains_key(r) ==> status_map(after)[r] == old(self).statuses().remove(request)[r]) by {
                lemma_status_map(before, r);
                lemma_status_map(after, r);
                if status_map(after).contains_key(r) {
                    let k = choose|k: int| 0 <= k < after.len() && (#[trigger] after[k]).0 == r;
                    let k0 = if k < i { k } else { k + 1 };
                    assert(after[k] == before[k0]);
                    assert(r != request);
                }
                if old(self).statuses().remove(request).contains_key(r) {
                    let k0 = choose|k: int| 0 <= k < before.len() && (#[trigger] before[k]).0 == r;
                    assert(k0 != i);
                    let k = if k0 < i { k0 } else { k0 - 1 };
                    assert(after[k] == before[k0]);
                }
            }
            assert(status_map(after) =~= old(self).statuses().remove(request));
        }
    }

    /// Records the answer to a request that was made.
    pub fn set_approval(&mut self, request: Request, approved: bool)
        requires
            old(self).wf(),
        ensures
            final(self).wf(),
            final(self).statuses() == if old(self).statuses().contains_key(request) {
                old(self).statuses().insert(request, if approved { RequestStatus::Approved } else { RequestStatus::Denied })
            } else {
                old(self).statuses()
            },
    {
        match self.index_of(request) {
            Some(i) => {
                let status = if approved { RequestStatus::Approved } else { RequestStatus::Denied };
                let ghost before = self.map@;
                self.map.set(i, (request, status));
                proof {
                    let after = self.map@;
                    assert forall|a: int, b: int| 0 <= a < b < after.len()
                        implies (#[trigger] after[a]).0 != (#[trigger] after[b]).0 by {
                        assert(after[a].0 == before[a].0 && after[b].0 == before[b].0);
                    }
                    assert forall|r: Request| #[trigger] status_map(after).contains_key(r)
                        == old(self).statuses().insert(request, status).contains_key(r)
                        && (status_map(after).contains_key(r) ==> status_map(after)[r] == old(self).statuses().insert(request, status)[r]) by {
                        lemma_status_map(before, r);
                        lemma_status_map(after, r);
                        if status_map(after).contains_key(r) {
                            let k = choose|k: int| 0 <= k < after.len() && (#[trigger] after[k]).0 == r;
                            assert(after[k].0 == before[k].0);
                        }
                        if old(self).statuses().contains_key(r) {
                            let k = choose|k: int| 0 <= k < before.len() && (#[trigger] before[k]).0 == r;
                            assert(after[k].0 == before[k].0);
                        }
                        if r == request {
                            assert(after[i as int].0 == r);
                        }
                    }
                    assert(status_map(after) =~= old(self).statuses().insert(request, status));
                }
            },
            None => {},
        }
    }
}

/// Once a request was made and answered, consuming it gives the answer back and forgets the
/// request.
pub proof fn answered_request_is_consumed(a: Requests, b: Requests, c: Requests, request: Request, approved: bool, r: Option<bool>)
    requires
        a.statuses().contains_key(request),
        b.statuses() == a.statuses().insert(request, if approved { RequestStatus::Approved } else { RequestStatus::Denied }),
        match (if b.statuses().contains_key(request) { Some(b.statuses()[request]) } else { None }) {
            Some(RequestStatus::Approved) => r == Some(true) && c.statuses() == b.statuses().remove(request),
            Some(RequestStatus::Denied) => r == Some(false) && c.statuses() == b.statuses().remove(request),
            _ => r is None && c.statuses() == b.statuses(),
        },
    ensures
        r == Some(approved),
        !c.statuses().contains_key(request),
{
}

/// Making a request that was already made changes nothing: its status is kept.
pub proof fn remade_request_keeps_status(a: Requests, b: Requests, request: Request)
    requires
        a.statuses().contains_key(request),
        b.statuses() == if a.statuses().contains_key(request) {
            a.statuses()
        } else {
            a.statuses().insert(request, RequestStatus::Sending)
        },
    ensures
        b.statuses()[request] == a.statuses()[request],
{
}

} // verus!
