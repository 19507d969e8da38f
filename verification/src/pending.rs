//! The table of pending calls: the calls that wait for a response, each
//! under its request id.
//!
//! The table keeps its calls in ascending order of request id, so what it
//! hands out when calls are given up comes in that order too.

use vstd::prelude::*;
use crate::context::{Context, ContextView};

verus! {

/// A call that waits for its response.
#[derive(Clone, Copy, Debug, PartialEq, Eq)]
pub struct PendingCall {
    pub request_id: u64,
    pub context: Context,
}

/// Whether `calls` lists the entries of `table`, each once, in ascending
/// order of request id.
pub open spec fn lists_calls(calls: Seq<PendingCall>, table: Map<u64, ContextView>) -> bool {
    &&& forall|i: int|
        0 <= i < calls.len() ==> table.contains_key((#[trigger] calls[i]).request_id)
            && table[calls[i].request_id] == calls[i].context@
    &&& forall|id: u64| #[trigger]
        table.contains_key(id) ==> exists|i: int|
            0 <= i < calls.len() && (#[trigger] calls[i]).request_id == id
    &&& forall|i: int, j: int|
        0 <= i < j < calls.len() ==> (#[trigger] calls[i]).request_id < (
        #[trigger] calls[j]).request_id
}

/// The entries of a table whose context is still active at `now`.
pub open spec fn active_part(table: Map<u64, ContextView>, now: u64) -> Map<u64, ContextView> {
    Map::new(|id: u64| table.contains_key(id) && table[id].active_at(now), |id: u64| table[id])
}

/// The entries of a table whose context is no longer active at `now`.
pub open spec fn inactive_part(table: Map<u64, ContextView>, now: u64) -> Map<u64, ContextView> {
    Map::new(|id: u64| table.contains_key(id) && !table[id].active_at(now), |id: u64| table[id])
}

spec fn ascending(s: Seq<PendingCall>) -> bool {
    forall|i: int, j: int|
        0 <= i < j < s.len() ==> (#[trigger] s[i]).request_id < (#[trigger] s[j]).request_id
}

spec fn bound_to_ids(s: Seq<PendingCall>) -> bool {
    forall|i: int| 0 <= i < s.len() ==> (#[trigger] s[i]).context@.request_id == s[i].request_id
}

spec fn holds(s: Seq<PendingCall>, id: u64) -> bool {
    exists|i: int| 0 <= i < s.len() && (#[trigger] s[i]).request_id == id
}

spec fn place(s: Seq<PendingCall>, id: u64) -> int {
    choose|i: int| 0 <= i < s.len() && (#[trigger] s[i]).request_id == id
}

spec fn table(s: Seq<PendingCall>) -> Map<u64, ContextView> {
    Map::new(|id: u64| holds(s, id), |id: u64| s[place(s, id)].context@)
}

proof fn lemma_table_at(s: Seq<PendingCall>, i: int)
    requires
        ascending(s),
        0 <= i < s.len(),
    ensures
        table(s).contains_key(s[i].request_id),
        table(s)[s[i].request_id] == s[i].context@,
        place(s, s[i].request_id) == i,
{
    let id = s[i].request_id;
    assert(holds(s, id));
    let j = place(s, id);
    if j < i {
        assert(s[j].request_id < s[i].request_id);
    } else if i < j {
        assert(s[i].request_id < s[j].request_id);
    }
}

proof fn lemma_table_lists(s: Seq<PendingCall>)
    requires
        ascending(s),
    ensures
        lists_calls(s, table(s)),
{
    assert forall|i: int| 0 <= i < s.len() implies table(s).contains_key(
        (#[trigger] s[i]).request_id,
    ) && table(s)[s[i].request_id] == s[i].context@ by {
        lemma_table_at(s, i);
    }
}

proof fn lemma_table_push(s: Seq<PendingCall>, p: PendingCall)
    requires
        ascending(s),
        forall|i: int| 0 <= i < s.len() ==> (#[trigger] s[i]).request_id < p.request_id,
    ensures
        ascending(s.push(p)),
        table(s.push(p)) == table(s).insert(p.request_id, p.context@),
{
    let t = s.push(p);
    assert(ascending(t));
    assert forall|id: u64| #[trigger]
        table(t).contains_key(id) <==> table(s).insert(p.request_id, p.context@).contains_key(
            id,
        ) by {
        if holds(s, id) {
            let i = place(s, id);
            assert(t[i].request_id == id);
        }
        if id == p.request_id {
            assert(t[s.len() as int].request_id == id);
        }
        if holds(t, id) {
            let i = place(t, id);
            if i < s.len() {
                assert(s[i].request_id == id);
            }
        }
    }
    assert forall|id: u64| #[trigger] table(t).contains_key(id) implies table(t)[id] == table(
        s,
    ).insert(p.request_id, p.context@)[id] by {
        let i = place(t, id);
        if i < s.len() {
            lemma_table_at(s, i);
        }
    }
    assert(table(t) =~= table(s).insert(p.request_id, p.context@));
}

proof fn lemma_table_remove(s: Seq<PendingCall>, k: int)
    requires
        ascending(s),
        0 <= k < s.len(),
    ensures
        ascending(s.remove(k)),
        table(s.remove(k)) == table(s).remove(s[k].request_id),
{
    let t = s.remove(k);
    let gone = s[k].request_id;
    assert forall|i: int| 0 <= i < t.len() implies #[trigger] t[i] == s[if i < k {
        i
    } else {
        i + 1
    }] by {}
    assert(ascending(t));
    assert forall|id: u64| #[trigger]
        table(t).contains_key(id) <==> table(s).remove(gone).contains_key(id) by {
        if holds(t, id) {
            let i = place(t, id);
            let j = if i < k {
                i
            } else {
                i + 1
            };
            assert(s[j].request_id == id);
            lemma_table_at(s, j);
            lemma_table_at(s, k);
        }
        if holds(s, id) && id != gone {
            let j = place(s, id);
            let i = if j < k {
                j
            } else {
                j - 1
            };
            assert(t[i].request_id == id);
        }
    }
    assert forall|id: u64| #[trigger] table(t).contains_key(id) implies table(t)[id] == table(
        s,
    ).remove(gone)[id] by {
        let i = place(t, id);
        let j = if i < k {
            i
        } else {
            i + 1
        };
        lemma_table_at(t, i);
        lemma_table_at(s, j);
    }
    assert(table(t) =~= table(s).remove(gone));
}

/// The calls that wait for a response, by request id.
pub struct PendingTable {
    calls: Vec<PendingCall>,
}

impl View for PendingTable {
    type V = Map<u64, ContextView>;

    closed spec fn view(&self) -> Map<u64, ContextView> {
        table(self.calls@)
    }
}

impl PendingTable {
    /// The table is in order: every table that `new` made and the methods
    /// below changed is well-formed.
    pub closed spec fn wf(&self) -> bool {
        &&& ascending(self.calls@)
        &&& bound_to_ids(self.calls@)
    }

    /// In a well-formed table every context is bound to the id it stands under.
    pub proof fn lemma_bound_to_ids(&self)
        requires
            self.wf(),
        ensures
            forall|id: u64| #[trigger] self@.contains_key(id) ==> self@[id].request_id == id,
    {
        assert forall|id: u64| #[trigger] self@.contains_key(id) implies self@[id].request_id
            == id by {
            lemma_table_at(self.calls@, place(self.calls@, id));
        }
    }

    pub fn new() -> (t: PendingTable)
        ensures
            t.wf(),
            t@ == Map::<u64, ContextView>::empty(),
    {
        let t = PendingTable { calls: Vec::new() };
        assert(t@ =~= Map::<u64, ContextView>::empty());
        t
    }

    /// Where the call of an id stands, found by halving the range in which
    /// it can stand.
    fn position(&self, request_id: u64) -> (r: Option<usize>)
        requires
            ascending(self.calls@),
        ensures
            match r {
                Some(i) => i < self.calls@.len() && self.calls@[i as int].request_id == request_id,
                None => !holds(self.calls@, request_id),
            },
    {
        let mut low: usize = 0;
        let mut high: usize = self.calls.len();
        while low < high
            invariant
                low <= high <= self.calls@.len(),
                ascending(self.calls@),
                forall|j: int| 0 <= j < low ==> (#[trigger] self.calls@[j]).request_id < request_id,
                forall|j: int|
                    high <= j < self.calls@.len() ==> (#[trigger] self.calls@[j]).request_id
                        > request_id,
            decreases high - low,
        {
            let mid = low + (high - low) / 2;
            let id = self.calls[mid].request_id;
            if id == request_id {
                return Some(mid);
            } else if id < request_id {
                assert forall|j: int| 0 <= j < mid + 1 implies (
                #[trigger] self.calls@[j]).request_id < request_id by {
                    if j < mid {
                        assert(self.calls@[j].request_id < self.calls@[mid as int].request_id);
                    }
                }
                low = mid + 1;
            } else {
                assert forall|j: int| mid <= j < self.calls@.len() implies (
                #[trigger] self.calls@[j]).request_id > request_id by {
                    if mid < j {
                        assert(self.calls@[mid as int].request_id < self.calls@[j].request_id);
                    }
                }
                high = mid;
            }
        }
        None
    }

    /// The call that waits under an id, if one does.
    pub fn get(&self, request_id: u64) -> (r: Option<PendingCall>)
        requires
            self.wf(),
        ensures
            match r {
                Some(call) => self@.contains_key(request_id) && call.request_id == request_id
                    && call.context@ == self@[request_id],
                None => !self@.contains_key(request_id),
            },
    {
        match self.position(request_id) {
            Some(i) => {
                proof {
                    lemma_table_at(self.calls@, i as int);
                }
                Some(self.calls[i])
            },
            None => None,
        }
    }

    /// Enters a call under an id that lies above every id in the table.
    pub fn insert(&mut self, call: PendingCall)
        requires
            old(self).wf(),
            forall|id: u64| old(self)@.contains_key(id) ==> id < call.request_id,
            call.context@.request_id == call.request_id,
        ensures
            final(self).wf(),
            final(self)@ == old(self)@.insert(call.request_id, call.context@),
    {
        proof {
            assert forall|i: int| 0 <= i < self.calls@.len() implies (
            #[trigger] self.calls@[i]).request_id < call.request_id by {
                lemma_table_at(self.calls@, i);
                assert(self@.contains_key(self.calls@[i].request_id));
            }
            lemma_table_push(self.calls@, call);
        }
        self.calls.push(call);
    }

    /// Takes the call of an id out of the table, if it is there.
    pub fn remove(&mut self, request_id: u64) -> (r: Option<PendingCall>)
        requires
            old(self).wf(),
        ensures
            final(self).wf(),
            final(self)@ == old(self)@.remove(request_id),
            match r {
                Some(call) => old(self)@.contains_key(request_id) && call.request_id
                    == request_id && call.context@ == old(self)@[request_id],
                None => !old(self)@.contains_key(request_id),
            },
    {
        match self.position(request_id) {
            Some(i) => {
                proof {
                    lemma_table_at(self.calls@, i as int);
                    lemma_table_remove(self.calls@, i as int);
                }
                Some(self.calls.remove(i))
            },
            None => {
                assert(self@.remove(request_id) =~= self@);
                None
            },
        }
    }

    /// Takes out every call whose context is no longer active at `now` and
    /// returns them, in ascending order of request id. The others stay.
    pub fn remove_inactive(&mut self, now: u64) -> (gone: Vec<PendingCall>)
        requires
            old(self).wf(),
        ensures
            final(self).wf(),
            final(self)@ == active_part(old(self)@, now),
            lists_calls(gone@, inactive_part(old(self)@, now)),
    {
        let mut kept: Vec<PendingCall> = Vec::new();
        let mut gone: Vec<PendingCall> = Vec::new();
        let ghost all = self.calls@;
        let ghost mut kept_at: Seq<int> = Seq::empty();
        let ghost mut gone_at: Seq<int> = Seq::empty();
        let ghost mut slot: Seq<int> = Seq::empty();
        let n = self.calls.len();
        let mut i: usize = 0;
        while i < n
            invariant
                i <= n,
                n == all.len(),
                self.calls@ == all,
                kept_at.len() == kept@.len(),
                gone_at.len() == gone@.len(),
                slot.len() == i,
                forall|k: int|
                    0 <= k < kept@.len() ==> 0 <= #[trigger] kept_at[k] < i && kept@[k]
                        == all[kept_at[k]] && all[kept_at[k]].context@.active_at(now),
                forall|k: int, l: int|
                    0 <= k < l < kept@.len() ==> #[trigger] kept_at[k] < #[trigger] kept_at[l],
                forall|k: int|
                    0 <= k < gone@.len() ==> 0 <= #[trigger] gone_at[k] < i && gone@[k]
                        == all[gone_at[k]] && !all[gone_at[k]].context@.active_at(now),
                forall|k: int, l: int|
                    0 <= k < l < gone@.len() ==> #[trigger] gone_at[k] < #[trigger] gone_at[l],
                forall|j: int|
                    0 <= j < i ==> if all[j].context@.active_at(now) {
                        0 <= #[trigger] slot[j] < kept@.len() && kept_at[slot[j]] == j
                    } else {
                        0 <= slot[j] < gone@.len() && gone_at[slot[j]] == j
                    },
            decreases n - i,
        {
            let call = self.calls[i];
            if call.context.is_active(now) {
                proof {
                    slot = slot.push(kept@.len() as int);
                    kept_at = kept_at.push(i as int);
                }
                kept.push(call);
            } else {
                proof {
                    slot = slot.push(gone@.len() as int);
                    gone_at = gone_at.push(i as int);
                }
                gone.push(call);
            }
            i = i + 1;
        }
        proof {
            let before = table(all);
            assert(ascending(kept@)) by {
                assert forall|k: int, l: int| 0 <= k < l < kept@.len() implies (
                #[trigger] kept@[k]).request_id < (#[trigger] kept@[l]).request_id by {
                    assert(kept_at[k] < kept_at[l]);
                }
            }
            assert(bound_to_ids(kept@)) by {
                assert forall|k: int| 0 <= k < kept@.len() implies (
                #[trigger] kept@[k]).context@.request_id == kept@[k].request_id by {
                    assert(kept@[k] == all[kept_at[k]]);
                }
            }
            assert forall|id: u64| #[trigger]
                table(kept@).contains_key(id) <==> active_part(before, now).contains_key(id) by {
                if holds(kept@, id) {
                    let k = place(kept@, id);
                    lemma_table_at(all, kept_at[k]);
                }
                if before.contains_key(id) && before[id].active_at(now) {
                    let j = place(all, id);
                    lemma_table_at(all, j);
                    assert(kept@[slot[j]].request_id == id);
                }
            }
            assert forall|id: u64| #[trigger] table(kept@).contains_key(id) implies table(
                kept@,
            )[id] == active_part(before, now)[id] by {
                let k = place(kept@, id);
                lemma_table_at(kept@, k);
                lemma_table_at(all, kept_at[k]);
            }
            assert(table(kept@) =~= active_part(before, now));
            let rest = inactive_part(before, now);
            assert forall|k: int| 0 <= k < gone@.len() implies rest.contains_key(
                (#[trigger] gone@[k]).request_id,
            ) && rest[gone@[k].request_id] == gone@[k].context@ by {
                lemma_table_at(all, gone_at[k]);
            }
            assert forall|id: u64| #[trigger] rest.contains_key(id) implies exists|k: int|
                0 <= k < gone@.len() && (#[trigger] gone@[k]).request_id == id by {
                let j = place(all, id);
                lemma_table_at(all, j);
                assert(gone@[slot[j]].request_id == id);
            }
            assert forall|k: int, l: int| 0 <= k < l < gone@.len() implies (
            #[trigger] gone@[k]).request_id < (#[trigger] gone@[l]).request_id by {
                assert(gone_at[k] < gone_at[l]);
            }
        }
        self.calls = kept;
        gone
    }

    /// Empties the table and returns the calls that were in it, in
    /// ascending order of request id.
    pub fn take_all(&mut self) -> (gone: Vec<PendingCall>)
        requires
            old(self).wf(),
        ensures
            final(self).wf(),
            final(self)@ == Map::<u64, ContextView>::empty(),
            lists_calls(gone@, old(self)@),
    {
        let mut gone: Vec<PendingCall> = Vec::new();
        proof {
            lemma_table_lists(self.calls@);
        }
        std::mem::swap(&mut gone, &mut self.calls);
        assert(self@ =~= Map::<u64, ContextView>::empty());
        gone
    }
}

} // verus!
