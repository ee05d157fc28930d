use crate::account::AccountId;
use crate::assoc::{lookup, AssocMap, TableKey};
use crate::errors::TokenError;
use vstd::prelude::*;

verus! {

/// One snapshot: the voting power an account held from `marker` on.
#[derive(Clone, Copy, Debug, PartialEq, Eq, Structural)]
pub struct Checkpoint {
    pub marker: u64,
    pub votes: u128,
}

/// Markers strictly increase along a history (equal markers coalesce on
/// append, so no two entries share one).
pub open spec fn markers_increasing(h: Seq<Checkpoint>) -> bool {
    forall|i: int, j: int| 0 <= i < j < h.len() ==> h[i].marker < h[j].marker
}

/// The power recorded at the greatest marker at most `m`; zero when the
/// query precedes all history or no history exists.
pub open spec fn power_at_spec(h: Seq<Checkpoint>, m: u64) -> u128
    decreases h.len(),
{
    if h.len() == 0 {
        0
    } else if h.last().marker <= m {
        h.last().votes
    } else {
        power_at_spec(h.drop_last(), m)
    }
}

/// The most recent power; zero without history.
pub open spec fn latest_spec(h: Seq<Checkpoint>) -> u128 {
    if h.len() == 0 {
        0
    } else {
        h.last().votes
    }
}

/// Whether an append at `m` is accepted: history must never move backward.
pub open spec fn marker_ok_spec(h: Seq<Checkpoint>, m: u64) -> bool {
    h.len() == 0 || h.last().marker <= m
}

/// What `append` returns for a history and a marker.
pub open spec fn append_outcome(h: Seq<Checkpoint>, m: u64) -> Result<(), TokenError> {
    if marker_ok_spec(h, m) {
        Ok(())
    } else {
        Err(TokenError::InvalidMarker)
    }
}

/// The history after a successful append: an equal marker overwrites the
/// last snapshot in place, a later one appends.
pub open spec fn append_next(h: Seq<Checkpoint>, m: u64, votes: u128) -> Seq<Checkpoint> {
    if h.len() > 0 && h.last().marker == m {
        h.update(h.len() - 1, Checkpoint { marker: m, votes })
    } else {
        h.push(Checkpoint { marker: m, votes })
    }
}

/// An account's append-only, time-ordered history of snapshots.
pub struct CheckpointHistory {
    pub list: Vec<Checkpoint>,
}

impl CheckpointHistory {
    pub open spec fn wf(&self) -> bool {
        markers_increasing(self.list@)
    }

    pub fn new() -> (r: CheckpointHistory)
        ensures
            r.wf(),
            r.list@.len() == 0,
    {
        CheckpointHistory { list: Vec::new() }
    }

    /// An exact copy of this history.
    pub fn clone_history(&self) -> (r: CheckpointHistory)
        ensures
            r.list@ == self.list@,
    {
        let mut out: Vec<Checkpoint> = Vec::new();
        let mut i: usize = 0;
        while i < self.list.len()
            invariant
                i <= self.list@.len(),
                out@ == self.list@.take(i as int),
            decreases self.list@.len() - i,
        {
            out.push(self.list[i]);
            proof {
                assert(out@ =~= self.list@.take(i as int + 1));
            }
            i = i + 1;
        }
        proof {
            assert(self.list@.take(self.list@.len() as int) =~= self.list@);
        }
        CheckpointHistory { list: out }
    }

    /// Overwrite-or-append at `marker`; a marker before the last recorded
    /// one is rejected and leaves the history untouched.
    pub fn append(&mut self, marker: u64, votes: u128) -> (res: Result<(), TokenError>)
        requires
            old(self).wf(),
        ensures
            final(self).wf(),
            res == append_outcome(old(self).list@, marker),
            res is Ok ==> final(self).list@ == append_next(old(self).list@, marker, votes),
            res is Err ==> *final(self) == *old(self),
    {
        let ghost h0 = self.list@;
        let n = self.list.len();
        if n > 0 {
            let last = self.list[n - 1];
            if marker < last.marker {
                return Err(TokenError::InvalidMarker);
            }
            if last.marker == marker {
                let slot = vstd::std_specs::vec::vec_index_mut(&mut self.list, n - 1);
                *slot = Checkpoint { marker, votes };
                proof {
                    let h1 = self.list@;
                    assert(h1 == h0.update(n - 1, Checkpoint { marker, votes }));
                    assert forall|i: int, j: int|
                        0 <= i < j < h1.len() implies h1[i].marker < h1[j].marker by {
                        assert(h0[i].marker < h0[j].marker);
                    }
                }
                return Ok(());
            }
        }
        self.list.push(Checkpoint { marker, votes });
        proof {
            let h1 = self.list@;
            assert(h1 == h0.push(Checkpoint { marker, votes }));
            assert forall|i: int, j: int|
                0 <= i < j < h1.len() implies h1[i].marker < h1[j].marker by {
                if j == h1.len() - 1 {
                    if n > 0 {
                        if i < n - 1 {
                            assert(h0[i].marker < h0[n - 1].marker);
                        }
                        assert(h0[n - 1].marker < marker);
                    }
                } else {
                    assert(h0[i].marker < h0[j].marker);
                }
            }
            assert(h1 == append_next(h0, marker, votes));
        }
        Ok(())
    }

    /// The most recent power, or zero if no history exists.
    pub fn latest(&self) -> (p: u128)
        ensures
            p == latest_spec(self.list@),
    {
        let n = self.list.len();
        if n == 0 {
            0
        } else {
            self.list[n - 1].votes
        }
    }

    pub fn count(&self) -> (n: usize)
        ensures
            n == self.list@.len(),
    {
        self.list.len()
    }

    pub fn at(&self, pos: usize) -> (c: Option<Checkpoint>)
        ensures
            pos < self.list@.len() ==> c == Some(self.list@[pos as int]),
            pos >= self.list@.len() ==> c is None,
    {
        if pos < self.list.len() {
            Some(self.list[pos])
        } else {
            None
        }
    }

    /// The power as of `m`, by binary search over the ordered history:
    /// logarithmic in the number of checkpoints.
    pub fn power_at(&self, m: u64) -> (p: u128)
        requires
            self.wf(),
        ensures
            p == power_at_spec(self.list@, m),
    {
        let ghost h = self.list@;
        let mut lo: usize = 0;
        let mut hi: usize = self.list.len();
        while lo < hi
            invariant
                lo <= hi <= self.list@.len(),
                h == self.list@,
                markers_increasing(h),
                forall|j: int| hi <= j < h.len() ==> h[j].marker > m,
                forall|j: int| 0 <= j < lo ==> h[j].marker <= m,
            decreases hi - lo,
        {
            let mid = lo + (hi - lo) / 2;
            if self.list[mid].marker <= m {
                proof {
                    assert forall|j: int| 0 <= j < mid + 1 implies h[j].marker <= m by {
                        if j < mid {
                            assert(h[j].marker < h[mid as int].marker);
                        }
                    }
                }
                lo = mid + 1;
            } else {
                hi = mid;
            }
        }
        proof {
            lemma_power_at_prefix(h, m, lo as int);
        }
        if lo == 0 {
            0
        } else {
            self.list[lo - 1].votes
        }
    }
}

/// If everything from index `k` on is after `m`, and entry `k - 1` (when
/// there is one) is not, the answer of `power_at_spec` is pinned.
proof fn lemma_power_at_prefix(h: Seq<Checkpoint>, m: u64, k: int)
    requires
        markers_increasing(h),
        0 <= k <= h.len(),
        forall|j: int| k <= j < h.len() ==> h[j].marker > m,
        k > 0 ==> h[k - 1].marker <= m,
    ensures
        power_at_spec(h, m) == if k == 0 {
            0u128
        } else {
            h[k - 1].votes
        },
    decreases h.len(),
{
    if h.len() == 0 {
    } else if h.last().marker <= m {
        assert(k == h.len());
    } else {
        assert(k < h.len());
        lemma_power_at_prefix(h.drop_last(), m, k);
    }
}

/// Law: markers never decrease along a well-formed history.
pub proof fn law_markers_nondecreasing(h: CheckpointHistory, i: int, j: int)
    requires
        h.wf(),
        0 <= i <= j < h.list@.len(),
    ensures
        h.list@[i].marker <= h.list@[j].marker,
{
}

/// Law: a query at or after the last recorded marker returns the latest
/// power.
pub proof fn law_power_at_covers_latest(h: Seq<Checkpoint>, m: u64)
    requires
        markers_increasing(h),
        marker_ok_spec(h, m),
    ensures
        power_at_spec(h, m) == latest_spec(h),
{
}

/// The per-account checkpoint ledger: the only writer to any history.
pub struct CheckpointLedger {
    pub table: AssocMap<AccountId, CheckpointHistory>,
}

impl CheckpointLedger {
    /// The recorded history of an account; empty for one never touched.
    pub open spec fn history_of(&self, id: Seq<u8>) -> Seq<Checkpoint> {
        match lookup(self.table.entries@, id) {
            Some(h) => h.list@,
            None => Seq::empty(),
        }
    }

    pub open spec fn wf(&self) -> bool {
        &&& self.table.wf()
        &&& forall|id: Seq<u8>| markers_increasing(#[trigger] self.history_of(id))
    }

    pub fn new() -> (r: CheckpointLedger)
        ensures
            r.wf(),
            forall|id: Seq<u8>| #[trigger] r.history_of(id) == Seq::<Checkpoint>::empty(),
    {
        let r = CheckpointLedger { table: AssocMap::new() };
        proof {
            assert forall|id: Seq<u8>| #[trigger] r.history_of(id) == Seq::<
                Checkpoint,
            >::empty() by {
                assert(lookup(r.table.entries@, id) is None);
            }
        }
        r
    }

    /// Whether an append for `account` at `marker` would be accepted.
    pub fn marker_ok(&self, account: &AccountId, marker: u64) -> (r: bool)
        ensures
            r == marker_ok_spec(self.history_of(account@), marker),
    {
        match self.table.get(account) {
            Some(h) => {
                let n = h.count();
                if n == 0 {
                    true
                } else {
                    match h.at(n - 1) {
                        Some(c) => c.marker <= marker,
                        None => true,
                    }
                }
            },
            None => true,
        }
    }

    /// Records `votes` for `account` at `marker`; fails with
    /// `InvalidMarker`, touching nothing, if the marker moves backward.
    pub fn append(&mut self, account: &AccountId, marker: u64, votes: u128) -> (res: Result<
        (),
        TokenError,
    >)
        requires
            old(self).wf(),
        ensures
            final(self).wf(),
            res == append_outcome(old(self).history_of(account@), marker),
            res is Ok ==> final(self).history_of(account@) == append_next(
                old(self).history_of(account@),
                marker,
                votes,
            ),
            res is Err ==> *final(self) == *old(self),
            forall|id: Seq<u8>|
                id != account@ ==> #[trigger] final(self).history_of(id) == old(self).history_of(
                    id,
                ),
    {
        proof {
            assert(markers_increasing(self.history_of(account@)));
        }
        if !self.marker_ok(account, marker) {
            return Err(TokenError::InvalidMarker);
        }
        let mut h: CheckpointHistory = match self.table.get(account) {
            Some(h) => h.clone_history(),
            None => CheckpointHistory::new(),
        };
        let res = h.append(marker, votes);
        match res {
            Err(e) => Err(e),
            Ok(()) => {
                self.table.set(*account, h);
                proof {
                    assert forall|id: Seq<u8>| markers_increasing(
                        #[trigger] self.history_of(id),
                    ) by {
                        if id != account@ {
                            assert(markers_increasing(old(self).history_of(id)));
                        }
                    }
                }
                Ok(())
            },
        }
    }

    /// The most recent power of an account, zero without history.
    pub fn latest(&self, account: &AccountId) -> (p: u128)
        ensures
            p == latest_spec(self.history_of(account@)),
    {
        match self.table.get(account) {
            Some(h) => h.latest(),
            None => 0,
        }
    }

    /// The power of an account as of `marker`.
    pub fn power_at(&self, account: &AccountId, marker: u64) -> (p: u128)
        requires
            self.wf(),
        ensures
            p == power_at_spec(self.history_of(account@), marker),
    {
        proof {
            assert(markers_increasing(self.history_of(account@)));
        }
        match self.table.get(account) {
            Some(h) => h.power_at(marker),
            None => 0,
        }
    }

    pub fn count(&self, account: &AccountId) -> (n: usize)
        ensures
            n == self.history_of(account@).len(),
    {
        match self.table.get(account) {
            Some(h) => h.count(),
            None => 0,
        }
    }

    pub fn at(&self, account: &AccountId, pos: usize) -> (c: Option<Checkpoint>)
        ensures
            pos < self.history_of(account@).len() ==> c == Some(self.history_of(account@)[pos as int]),
            pos >= self.history_of(account@).len() ==> c is None,
    {
        match self.table.get(account) {
            Some(h) => h.at(pos),
            None => None,
        }
    }
}

} // verus!
