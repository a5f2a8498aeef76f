//! The cursor that walks the sessions of a run, pass after pass.

use crate::session::Session;
use vstd::prelude::*;

verus! {

/// Where a run stands: the index of the current session among `len`, the
/// number of full passes completed, and the number of passes after which the
/// run ends (`None` for a run that goes on for ever).
pub ghost struct Cursor {
    pub position: nat,
    pub len: nat,
    pub iteration: nat,
    pub limit: Option<nat>,
}

impl Cursor {
    /// The cursor at the start of a run of `len` sessions.
    pub open spec fn start(len: nat, limit: Option<nat>) -> Cursor {
        Cursor { position: 0, len, iteration: 0, limit }
    }

    /// The position lies within the sessions, and the passes completed stay
    /// below the limit; only a cursor that has completed none may stand in a
    /// run without such a limit.
    pub open spec fn wf(self) -> bool {
        &&& if self.len == 0 {
            self.position == 0
        } else {
            self.position < self.len
        }
        &&& self.iteration == 0 || (self.limit is Some && self.iteration < self.limit->0)
    }

    /// Whether the run has nothing to run: no sessions, or no passes.
    pub open spec fn is_run_finished(self) -> bool {
        self.len == 0 || self.limit == Some(0nat)
    }

    /// Whether this is the first session of the first pass of a bounded run.
    pub open spec fn is_first(self) -> bool {
        self.position == 0 && self.limit is Some && self.iteration == 0
    }

    /// Whether this is the last session of the last pass of a bounded run.
    pub open spec fn is_last(self) -> bool {
        self.position + 1 == self.len && self.limit is Some && self.iteration + 1
            == self.limit->0
    }

    /// The cursor one session on: the next index; from the last index back to
    /// the first, which completes a pass where passes are counted; and no
    /// move at all from the end of the last pass, or where there are no
    /// sessions.
    pub open spec fn advanced(self) -> Cursor {
        if self.len == 0 {
            self
        } else if self.position + 1 < self.len {
            Cursor { position: self.position + 1, ..self }
        } else {
            match self.limit {
                None => Cursor { position: 0, ..self },
                Some(limit) => if self.iteration + 1 < limit {
                    Cursor { position: 0, iteration: self.iteration + 1, ..self }
                } else {
                    self
                },
            }
        }
    }

    /// The cursor one session back: the mirror image of `advanced`.
    pub open spec fn retreated(self) -> Cursor {
        if self.len == 0 {
            self
        } else if self.position > 0 {
            Cursor { position: (self.position - 1) as nat, ..self }
        } else {
            match self.limit {
                None => Cursor { position: (self.len - 1) as nat, ..self },
                Some(_) => if self.iteration > 0 {
                    Cursor {
                        position: (self.len - 1) as nat,
                        iteration: (self.iteration - 1) as nat,
                        ..self
                    }
                } else {
                    self
                },
            }
        }
    }

    /// The cursor moved to `index` within the same pass.
    pub open spec fn jumped(self, index: nat) -> Cursor {
        Cursor { position: index, ..self }
    }

    /// The cursor after `count` steps forward.
    pub open spec fn advanced_by(self, count: nat) -> Cursor
        decreases count,
    {
        if count == 0 {
            self
        } else {
            self.advanced_by((count - 1) as nat).advanced()
        }
    }

    /// The cursor after `count` steps back.
    pub open spec fn retreated_by(self, count: nat) -> Cursor
        decreases count,
    {
        if count == 0 {
            self
        } else {
            self.retreated_by((count - 1) as nat).retreated()
        }
    }
}

/// The cursor over a list of sessions.
#[derive(Clone, Copy, Debug)]
pub struct SessionId {
    index: usize,
    len: usize,
    infinite: bool,
    iter_no: u64,
    total_iter: u64,
}

impl View for SessionId {
    type V = Cursor;

    closed spec fn view(&self) -> Cursor {
        Cursor {
            position: self.index as nat,
            len: self.len as nat,
            iteration: self.iter_no as nat,
            limit: if self.infinite {
                None
            } else {
                Some(self.total_iter as nat)
            },
        }
    }
}

impl Default for SessionId {
    fn default() -> (sid: SessionId)
        ensures
            sid@ == Cursor::start(0, Some(0nat)),
    {
        SessionId { index: 0, len: 0, infinite: false, iter_no: 0, total_iter: 0 }
    }
}

impl SessionId {
    #[verifier::type_invariant]
    spec fn valid(self) -> bool {
        self@.wf()
    }

    /// The cursor at the start of a run over `sessions`, with `iterations`
    /// passes, or without end where none is given.
    pub fn new(sessions: &[Session], iterations: Option<u64>) -> (sid: SessionId)
        ensures
            sid@ == Cursor::start(
                sessions@.len(),
                match iterations {
                    Some(n) => Some(n as nat),
                    None => None,
                },
            ),
            sid@.wf(),
    {
        SessionId {
            index: 0,
            len: sessions.len(),
            infinite: iterations.is_none(),
            iter_no: 0,
            total_iter: match iterations {
                Some(n) => n,
                None => 0,
            },
        }
    }

    /// The index of the current session.
    pub fn curr(&self) -> (index: usize)
        ensures
            index == self@.position,
            self@.wf(),
    {
        proof {
            use_type_invariant(self);
        }
        self.index
    }

    /// The number of sessions the cursor walks over.
    pub fn len(&self) -> (len: usize)
        ensures
            len == self@.len,
            self@.wf(),
    {
        proof {
            use_type_invariant(self);
        }
        self.len
    }

    /// The number of full passes completed.
    pub fn iter_no(&self) -> (iteration: u64)
        ensures
            iteration == self@.iteration,
    {
        self.iter_no
    }

    /// The number of passes the run is limited to; `None` for a run without end.
    pub fn total_iter(&self) -> (limit: Option<u64>)
        ensures
            match limit {
                Some(n) => self@.limit == Some(n as nat),
                None => self@.limit is None,
            },
    {
        if self.infinite {
            None
        } else {
            Some(self.total_iter)
        }
    }

    /// The cursor one session on.
    pub fn next(&self) -> (next: SessionId)
        ensures
            next@ == self@.advanced(),
            next@.wf(),
    {
        proof {
            use_type_invariant(self);
        }
        let mut next = *self;
        if self.len == 0 {
        } else if self.index + 1 < self.len {
            next.index = self.index + 1;
        } else if self.infinite {
            next.index = 0;
        } else if self.iter_no < u64::MAX && self.iter_no + 1 < self.total_iter {
            next.index = 0;
            next.iter_no = self.iter_no + 1;
        }
        next
    }

    /// The cursor one session back.
    pub fn prev(&self) -> (prev: SessionId)
        ensures
            prev@ == self@.retreated(),
            prev@.wf(),
    {
        proof {
            use_type_invariant(self);
        }
        let mut prev = *self;
        if self.len == 0 {
        } else if self.index > 0 {
            prev.index = self.index - 1;
        } else if self.infinite {
            prev.index = self.len - 1;
        } else if self.iter_no > 0 {
            prev.index = self.len - 1;
            prev.iter_no = self.iter_no - 1;
        }
        prev
    }

    /// The cursor moved to the session at `idx`, within the same pass.
    pub fn jump(&self, idx: usize) -> (at: SessionId)
        requires
            idx < self@.len,
        ensures
            at@ == self@.jumped(idx as nat),
            at@.wf(),
    {
        proof {
            use_type_invariant(self);
        }
        SessionId { index: idx, ..*self }
    }

    /// Whether the cursor is at the last session of the last pass.
    pub fn is_last(&self) -> (last: bool)
        ensures
            last == self@.is_last(),
    {
        proof {
            use_type_invariant(self);
        }
        self.len > 0 && self.index == self.len - 1 && !self.infinite && self.total_iter > 0
            && self.iter_no == self.total_iter - 1
    }

    /// Whether the cursor is at the first session of the first pass.
    pub fn is_first(&self) -> (first: bool)
        ensures
            first == self@.is_first(),
    {
        self.index == 0 && !self.infinite && self.iter_no == 0
    }

    /// Whether the run has nothing to run.
    pub fn is_run_finished(&self) -> (finished: bool)
        ensures
            finished == self@.is_run_finished(),
    {
        self.len == 0 || (!self.infinite && self.total_iter == 0)
    }

    /// The cursor with `iteration` passes completed, provided the run still
    /// has passes left then; otherwise the cursor as it is.
    pub fn with_iter_no(&self, iteration: u64) -> (sid: SessionId)
        ensures
            sid@ == if self@.limit is Some && iteration < self@.limit->0 {
                Cursor { iteration: iteration as nat, ..self@ }
            } else {
                self@
            },
            sid@.wf(),
    {
        proof {
            use_type_invariant(self);
        }
        if !self.infinite && iteration < self.total_iter {
            SessionId { iter_no: iteration, ..*self }
        } else {
            *self
        }
    }
}

/// Moving the cursor keeps it well formed.
pub proof fn lemma_moves_keep_wf(c: Cursor)
    requires
        c.wf(),
    ensures
        c.advanced().wf(),
        c.retreated().wf(),
        forall|i: nat| i < c.len ==> #[trigger] c.jumped(i).wf(),
{
}

/// In a run without end no session is the first or the last, however many
/// steps forward or back have been taken.
pub proof fn lemma_unbounded_has_no_edges(c: Cursor, forward: nat, back: nat)
    requires
        c.limit is None,
    ensures
        !c.advanced_by(forward).is_first(),
        !c.advanced_by(forward).is_last(),
        !c.retreated_by(back).is_first(),
        !c.retreated_by(back).is_last(),
        c.advanced_by(forward).limit is None,
        c.retreated_by(back).limit is None,
    decreases forward + back,
{
    if forward > 0 {
        lemma_unbounded_has_no_edges(c, (forward - 1) as nat, back);
    }
    if back > 0 {
        lemma_unbounded_has_no_edges(c, forward, (back - 1) as nat);
    }
}

/// A step forward followed by a step back returns to where it started,
/// from every position of a run that is not its very last.
pub proof fn lemma_advance_then_retreat(c: Cursor)
    requires
        c.wf(),
        !c.is_run_finished(),
        !c.is_last(),
    ensures
        c.advanced().retreated() == c,
{
}

/// A step back followed by a step forward returns to where it started,
/// from every position of a run that is not its very first.
pub proof fn lemma_retreat_then_advance(c: Cursor)
    requires
        c.wf(),
        !c.is_run_finished(),
        !c.is_first(),
    ensures
        c.retreated().advanced() == c,
{
}

/// After a jump the cursor stands at the index it was sent to, in the pass
/// it was in.
pub proof fn lemma_jump_lands(c: Cursor, index: nat)
    ensures
        c.jumped(index).position == index,
        c.jumped(index).iteration == c.iteration,
        c.jumped(index).limit == c.limit,
        c.jumped(index).len == c.len,
{
}

/// A bounded run of `len` sessions and `limit` passes, walked from its
/// start: step `k` stands at session `k % len` of pass `k / len`; the last
/// session of the last pass is reached after `len * limit - 1` steps and at
/// no step before; and from there the cursor moves no further.
pub proof fn lemma_bounded_run(len: nat, limit: nat, k: nat)
    requires
        len > 0,
        limit > 0,
    ensures
        ({
            let c = Cursor::start(len, Some(limit)).advanced_by(k);
            &&& c.wf()
            &&& c.len == len
            &&& c.limit == Some(limit)
            &&& k < len * limit ==> c.position == k % len && c.iteration == k / len
            &&& k + 1 >= len * limit ==> c.position == len - 1 && c.iteration == limit - 1
            &&& c.is_last() <==> k + 1 >= len * limit
            &&& c.is_last() ==> c.advanced() == c
        }),
    decreases k,
{
    let start = Cursor::start(len, Some(limit));
    assert(len * limit >= 1) by (nonlinear_arith)
        requires
            len > 0,
            limit > 0,
    ;
    if k == 0 {
        assert(0nat % len == 0 && 0nat / len == 0) by (nonlinear_arith)
            requires
                len > 0,
        ;
        if 1 >= len * limit {
            assert(len == 1 && limit == 1) by (nonlinear_arith)
                requires
                    len > 0,
                    limit > 0,
                    len * limit <= 1,
            ;
        }
        if len == 1 && limit == 1 {
            assert(len * limit == 1) by (nonlinear_arith)
                requires
                    len == 1,
                    limit == 1,
            ;
        }
    } else {
        let j = (k - 1) as nat;
        lemma_bounded_run(len, limit, j);
        let before = start.advanced_by(j);
        let c = before.advanced();
        assert(start.advanced_by(k) == c);
        if k < len * limit {
            // The step from `j` to `k` stays within the run.
            let q = j / len;
            let r = j % len;
            assert(j == q * len + r && 0 <= r < len) by (nonlinear_arith)
                requires
                    len > 0,
                    q == j / len,
                    r == j % len,
            ;
            if r + 1 < len {
                assert(k / len == q && k % len == r + 1) by (nonlinear_arith)
                    requires
                        len > 0,
                        k == q * len + r + 1,
                        r + 1 < len,
                ;
            } else {
                assert((q + 1) * len == q * len + len) by (nonlinear_arith);
                assert(k / len == q + 1 && k % len == 0) by (nonlinear_arith)
                    requires
                        len > 0,
                        k == (q + 1) * len,
                ;
                assert(q + 1 < limit) by (nonlinear_arith)
                    requires
                        len > 0,
                        (q + 1) * len < len * limit,
                ;
            }
            if k + 1 >= len * limit {
                let qk = k / len;
                let rk = k % len;
                assert(k == qk * len + rk && 0 <= rk < len) by (nonlinear_arith)
                    requires
                        len > 0,
                        qk == k / len,
                        rk == k % len,
                ;
                assert(qk == limit - 1 && rk == len - 1) by (nonlinear_arith)
                    requires
                        len > 0,
                        limit > 0,
                        k == qk * len + rk,
                        0 <= rk < len,
                        k + 1 == len * limit,
                ;
            } else {
                let qk = k / len;
                let rk = k % len;
                assert(k == qk * len + rk && 0 <= rk < len) by (nonlinear_arith)
                    requires
                        len > 0,
                        qk == k / len,
                        rk == k % len,
                ;
                assert(!(qk + 1 == limit && rk + 1 == len)) by (nonlinear_arith)
                    requires
                        len > 0,
                        k == qk * len + rk,
                        k + 1 < len * limit,
                ;
            }
        }
    }
}

} // verus!
