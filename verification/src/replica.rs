//! The replica's storage model: the consensus record, the per-replica scalar
//! trackers, the channel registry, the join-on-request buffers, and the
//! per-kind quorum tables that map a value hash to the set of replicas that
//! contributed a message for it.

use vstd::prelude::*;
use crate::msg::Msg;
use crate::state::{InputType, State};
use crate::ContractError;

verus! {

/// Look up a key in an association list; absent keys yield the empty set of
/// contributors.
pub open spec fn assoc_get(s: Seq<(u64, Seq<u32>)>, h: u64) -> Seq<u32>
    decreases s.len(),
{
    if s.len() == 0 {
        Seq::<u32>::empty()
    } else if s[0].0 == h {
        s[0].1
    } else {
        assoc_get(s.drop_first(), h)
    }
}

proof fn lemma_assoc_get_at(s: Seq<(u64, Seq<u32>)>, h: u64, i: int)
    requires
        0 <= i < s.len(),
        s[i].0 == h,
        forall|j: int| 0 <= j < i ==> (#[trigger] s[j]).0 != h,
    ensures
        assoc_get(s, h) == s[i].1,
    decreases s.len(),
{
    if i > 0 {
        let t = s.drop_first();
        assert(forall|j: int| 0 <= j < i - 1 ==> (#[trigger] t[j]).0 != h);
        lemma_assoc_get_at(t, h, i - 1);
    }
}

proof fn lemma_assoc_get_absent(s: Seq<(u64, Seq<u32>)>, h: u64)
    requires
        forall|j: int| 0 <= j < s.len() ==> (#[trigger] s[j]).0 != h,
    ensures
        assoc_get(s, h) =~= Seq::<u32>::empty(),
    decreases s.len(),
{
    if s.len() > 0 {
        let t = s.drop_first();
        assert(forall|j: int| 0 <= j < t.len() ==> (#[trigger] t[j]).0 != h);
        lemma_assoc_get_absent(t, h);
    }
}

proof fn lemma_assoc_get_push(s: Seq<(u64, Seq<u32>)>, p: (u64, Seq<u32>), h: u64)
    requires
        p.0 != h,
    ensures
        assoc_get(s.push(p), h) == assoc_get(s, h),
    decreases s.len(),
{
    let sp = s.push(p);
    assert(sp[s.len() as int] == p);
    if s.len() == 0 {
        assert(sp.drop_first() =~~= Seq::<(u64, Seq<u32>)>::empty());
        assert(assoc_get(sp, h) == assoc_get(sp.drop_first(), h));
        assert(assoc_get(sp.drop_first(), h) =~= Seq::<u32>::empty());
        assert(assoc_get(s, h) =~= Seq::<u32>::empty());
    } else {
        assert(sp[0] == s[0]);
        if s[0].0 == h {
            assert(assoc_get(sp, h) == sp[0].1);
            assert(assoc_get(s, h) == s[0].1);
        } else {
            assert(sp.drop_first() =~~= s.drop_first().push(p));
            lemma_assoc_get_push(s.drop_first(), p, h);
            assert(assoc_get(sp, h) == assoc_get(sp.drop_first(), h));
            assert(assoc_get(s, h) == assoc_get(s.drop_first(), h));
        }
    }
}

proof fn lemma_assoc_get_update(s: Seq<(u64, Seq<u32>)>, i: int, p: (u64, Seq<u32>), h: u64)
    requires
        0 <= i < s.len(),
        s[i].0 == p.0,
        p.0 != h,
    ensures
        assoc_get(s.update(i, p), h) == assoc_get(s, h),
    decreases s.len(),
{
    if i == 0 {
        assert(s.update(0, p).drop_first() =~~= s.drop_first());
    } else {
        assert(s.update(i, p).drop_first() =~~= s.drop_first().update(i - 1, p));
        lemma_assoc_get_update(s.drop_first(), i - 1, p, h);
    }
}

/// One message kind's quorum record for the current view: for each value
/// hash, the replicas whose contribution was already counted, each at most
/// once.
pub struct ReceiveTable {
    pub entries: Vec<(u64, Vec<u32>)>,
}

impl ReceiveTable {
    /// Keys are unique and no replica is recorded twice under one key.
    pub open spec fn wf(self) -> bool {
        let dv = self.entries.deep_view();
        &&& (forall|i: int, j: int|
            0 <= i < j < dv.len() ==> (#[trigger] dv[i]).0 != (#[trigger] dv[j]).0)
        &&& (forall|i: int| 0 <= i < dv.len() ==> (#[trigger] dv[i]).1.no_duplicates())
    }

    /// The contributors recorded for a value hash, in arrival order.
    pub open spec fn spec_get(self, h: u64) -> Seq<u32> {
        assoc_get(self.entries.deep_view(), h)
    }

    /// An empty quorum record.
    pub fn new() -> (r: Self)
        ensures
            r.wf(),
            forall|h: u64| #[trigger] r.spec_get(h) =~= Seq::<u32>::empty(),
    {
        let r = ReceiveTable { entries: Vec::new() };
        proof {
            assert forall|h: u64| #[trigger] r.spec_get(h) =~= Seq::<u32>::empty() by {
                lemma_assoc_get_absent(r.entries.deep_view(), h);
            }
        }
        r
    }

    /// The position of a value hash among the entries, if recorded.
    fn find(&self, h: u64) -> (r: Option<usize>)
        ensures
            match r {
                Some(i) => {
                    let dv = self.entries.deep_view();
                    &&& i < dv.len()
                    &&& dv[i as int].0 == h
                    &&& forall|j: int| 0 <= j < i ==> (#[trigger] dv[j]).0 != h
                },
                None => forall|j: int|
                    0 <= j < self.entries.deep_view().len() ==> (#[trigger] self.entries.deep_view()[j]).0 != h,
            },
    {
        let mut i: usize = 0;
        while i < self.entries.len()
            invariant
                0 <= i <= self.entries@.len(),
                self.entries.deep_view().len() == self.entries@.len(),
                forall|j: int| 0 <= j < i ==> (#[trigger] self.entries.deep_view()[j]).0 != h,
            decreases self.entries@.len() - i,
        {
            if self.entries[i].0 == h {
                proof {
                    assert(self.entries.deep_view()[i as int].0 == self.entries@[i as int].0);
                }
                return Some(i);
            }
            proof {
                assert(self.entries.deep_view()[i as int].0 == self.entries@[i as int].0);
            }
            i = i + 1;
        }
        None
    }

    /// Whether `id`'s contribution for hash `h` was already counted.
    pub fn contains(&self, h: u64, id: u32) -> (r: bool)
        ensures
            r == self.spec_get(h).contains(id),
    {
        match self.find(h) {
            None => {
                proof {
                    lemma_assoc_get_absent(self.entries.deep_view(), h);
                }
                false
            },
            Some(i) => {
                proof {
                    lemma_assoc_get_at(self.entries.deep_view(), h, i as int);
                }
                let lst: &Vec<u32> = &self.entries[i].1;
                proof {
                    assert(self.spec_get(h) =~= lst@);
                }
                let mut j: usize = 0;
                while j < lst.len()
                    invariant
                        0 <= j <= lst@.len(),
                        self.spec_get(h) =~= lst@,
                        forall|k: int| 0 <= k < j ==> lst@[k] != id,
                    decreases lst@.len() - j,
                {
                    if lst[j] == id {
                        proof {
                            assert(self.spec_get(h)[j as int] == id);
                        }
                        return true;
                    }
                    j = j + 1;
                }
                false
            },
        }
    }

    /// How many contributions are recorded for hash `h`.
    pub fn count(&self, h: u64) -> (r: usize)
        ensures
            r == self.spec_get(h).len(),
    {
        match self.find(h) {
            None => {
                proof {
                    lemma_assoc_get_absent(self.entries.deep_view(), h);
                }
                0
            },
            Some(i) => {
                proof {
                    lemma_assoc_get_at(self.entries.deep_view(), h, i as int);
                }
                self.entries[i].1.len()
            },
        }
    }

    /// Count `id`'s contribution for hash `h`.  A repeated contribution is
    /// never recorded: the caller checks [`Self::contains`] first.
    pub fn record(&mut self, h: u64, id: u32)
        requires
            old(self).wf(),
            !old(self).spec_get(h).contains(id),
        ensures
            final(self).wf(),
            final(self).spec_get(h) == old(self).spec_get(h).push(id),
            forall|h2: u64| h2 != h ==> #[trigger] final(self).spec_get(h2) == old(self).spec_get(h2),
    {
        let ghost olddv = self.entries.deep_view();
        match self.find(h) {
            Some(i) => {
                proof {
                    lemma_assoc_get_at(olddv, h, i as int);
                }
                let e = entry_mut(&mut self.entries, i);
                e.1.push(id);
                proof {
                    let dv = self.entries.deep_view();
                    assert(dv =~~= olddv.update(i as int, (h, olddv[i as int].1.push(id))));
                    assert(forall|a: int, b: int|
                        0 <= a < b < dv.len() ==> (#[trigger] dv[a]).0 != (#[trigger] dv[b]).0);
                    assert forall|a: int| 0 <= a < dv.len() implies (#[trigger] dv[a]).1.no_duplicates() by {
                        if a == i {
                            assert(!olddv[a].1.contains(id));
                            assert(dv[a].1.no_duplicates());
                        }
                    }
                    lemma_assoc_get_at(dv, h, i as int);
                    assert forall|h2: u64| h2 != h implies #[trigger] self.spec_get(h2) == assoc_get(
                        olddv,
                        h2,
                    ) by {
                        lemma_assoc_get_update(olddv, i as int, (h, olddv[i as int].1.push(id)), h2);
                    }
                }
            },
            None => {
                proof {
                    lemma_assoc_get_absent(olddv, h);
                }
                let mut fresh: Vec<u32> = Vec::new();
                fresh.push(id);
                self.entries.push((h, fresh));
                proof {
                    let dv = self.entries.deep_view();
                    assert(dv =~~= olddv.push((h, seq![id])));
                    assert(forall|a: int, b: int|
                        0 <= a < b < dv.len() ==> (#[trigger] dv[a]).0 != (#[trigger] dv[b]).0);
                    assert(seq![id].no_duplicates());
                    lemma_assoc_get_at(dv, h, dv.len() - 1);
                    assert(self.spec_get(h) =~= old(self).spec_get(h).push(id));
                    assert forall|h2: u64| h2 != h implies #[trigger] self.spec_get(h2) == assoc_get(
                        olddv,
                        h2,
                    ) by {
                        lemma_assoc_get_push(olddv, (h, seq![id]), h2);
                    }
                }
            },
        }
    }

    /// Forget every recorded contribution.
    pub fn clear(&mut self)
        ensures
            final(self).wf(),
            forall|h: u64| #[trigger] final(self).spec_get(h) =~= Seq::<u32>::empty(),
    {
        self.entries = Vec::new();
        proof {
            assert forall|h: u64| #[trigger] self.spec_get(h) =~= Seq::<u32>::empty() by {
                lemma_assoc_get_absent(self.entries.deep_view(), h);
            }
        }
    }

    /// A copy of the recorded entries, for the read-only query surface.
    pub fn pairs(&self) -> (r: Vec<(u64, Vec<u32>)>)
        ensures
            r.deep_view() == self.entries.deep_view(),
    {
        let mut out: Vec<(u64, Vec<u32>)> = Vec::new();
        let mut i: usize = 0;
        while i < self.entries.len()
            invariant
                0 <= i <= self.entries@.len(),
                out.deep_view() =~~= self.entries.deep_view().take(i as int),
            decreases self.entries@.len() - i,
        {
            let key: u64 = self.entries[i].0;
            let mut lst: Vec<u32> = Vec::new();
            let mut j: usize = 0;
            while j < self.entries[i].1.len()
                invariant
                    0 <= i < self.entries@.len(),
                    0 <= j <= self.entries@[i as int].1@.len(),
                    lst@ =~= self.entries@[i as int].1@.take(j as int),
                decreases self.entries@[i as int].1@.len() - j,
            {
                lst.push(self.entries[i].1[j]);
                proof {
                    assert(lst@ =~= self.entries@[i as int].1@.take(j + 1));
                }
                j = j + 1;
            }
            proof {
                assert(lst@ =~= self.entries@[i as int].1@);
            }
            out.push((key, lst));
            proof {
                assert(out.deep_view() =~~= self.entries.deep_view().take(i + 1));
            }
            i = i + 1;
        }
        proof {
            assert(out.deep_view() =~~= self.entries.deep_view());
        }
        out
    }
}

/// A mutable reference to one table entry.
fn entry_mut(v: &mut Vec<(u64, Vec<u32>)>, i: usize) -> (e: &mut (u64, Vec<u32>))
    requires
        i < old(v).len(),
    ensures
        *e == old(v)@[i as int],
        final(v)@ == old(v)@.update(i as int, *final(e)),
    {
    &mut v[i]
}


/// The pairs (replica id, channel handle) of the registered peers, in
/// ascending id order.
pub open spec fn registered_pairs(ch: Seq<Option<Seq<char>>>) -> Seq<(u32, Seq<char>)>
    decreases ch.len(),
{
    if ch.len() == 0 {
        Seq::<(u32, Seq<char>)>::empty()
    } else {
        registered_pairs(ch.drop_last()) + (match ch.last() {
            Some(s) => seq![(((ch.len() - 1) as u32), s)],
            None => Seq::<(u32, Seq<char>)>::empty(),
        })
    }
}

/// A replica's complete local store: the consensus record, the per-replica
/// scalar trackers, the channel registry, the join-on-request buffers and the
/// per-kind quorum tables.
pub struct Replica {
    pub state: State,
    pub highest_req: Vec<u32>,
    pub highest_abort: Vec<i64>,
    pub channels: Vec<Option<String>>,
    pub send_all_upon: Vec<Vec<Msg>>,
    pub received_suggest: Vec<u32>,
    pub received_proof: Vec<u32>,
    pub received_echo: ReceiveTable,
    pub received_key1: ReceiveTable,
    pub received_key2: ReceiveTable,
    pub received_key3: ReceiveTable,
    pub received_lock: ReceiveTable,
    pub received_done: ReceiveTable,
}

impl Replica {
    /// Structural well-formedness: every per-replica map covers exactly the
    /// `n` replica ids, abort announcements stay in the view range, the fault
    /// bound leaves at least one honest slot, and no contribution is counted
    /// twice.
    pub open spec fn wf(self) -> bool {
        &&& self.state@.n >= 1
        &&& self.state@.fault_bound < self.state@.n
        &&& self.highest_req@.len() == self.state@.n
        &&& self.highest_abort@.len() == self.state@.n
        &&& self.channels@.len() == self.state@.n
        &&& self.send_all_upon@.len() == self.state@.n
        &&& (forall|i: int|
            0 <= i < self.highest_abort@.len() ==> -1 <= #[trigger] self.highest_abort@[i]
                <= u32::MAX as i64)
        &&& self.received_suggest@.no_duplicates()
        &&& self.received_proof@.no_duplicates()
        &&& self.received_echo.wf()
        &&& self.received_key1.wf()
        &&& self.received_key2.wf()
        &&& self.received_key3.wf()
        &&& self.received_lock.wf()
        &&& self.received_done.wf()
    }

    /// Whether the local identity lies inside the network, as the protocol
    /// requires once all channels are connected.
    pub open spec fn in_network(self) -> bool {
        self.state@.chain_id < self.state@.n
    }

    /// A fresh replica for a single-member network.
    pub fn new(chain_id: u32, input: InputType, contract_addr: String, start_time: u64) -> (r:
        Self)
        ensures
            r.wf(),
            r.state@.n == 1,
            r.state@.chain_id == chain_id,
            r.state@.view == 0,
            r.state@.done is None,
            !r.state@.done_executed,
            r.state@.start_time == start_time,
            r.highest_req@ =~= seq![0u32],
            r.highest_abort@ =~= seq![-1i64],
            r.channels.deep_view() =~= seq![Option::<Seq<char>>::None],
            r.send_all_upon.deep_view() =~~= seq![Seq::<crate::msg::MsgView>::empty()],
            r.received_suggest@ =~= Seq::<u32>::empty(),
            r.received_proof@ =~= Seq::<u32>::empty(),
            forall|h: u64| #[trigger] r.received_echo.spec_get(h) =~= Seq::<u32>::empty(),
            forall|h: u64| #[trigger] r.received_done.spec_get(h) =~= Seq::<u32>::empty(),
    {
        let state = State::new(chain_id, input, contract_addr, start_time);
        let mut highest_req: Vec<u32> = Vec::new();
        highest_req.push(0);
        let mut highest_abort: Vec<i64> = Vec::new();
        highest_abort.push(-1);
        let mut channels: Vec<Option<String>> = Vec::new();
        channels.push(None);
        let mut send_all_upon: Vec<Vec<Msg>> = Vec::new();
        send_all_upon.push(Vec::new());
        Replica {
            state,
            highest_req,
            highest_abort,
            channels,
            send_all_upon,
            received_suggest: Vec::new(),
            received_proof: Vec::new(),
            received_echo: ReceiveTable::new(),
            received_key1: ReceiveTable::new(),
            received_key2: ReceiveTable::new(),
            received_key3: ReceiveTable::new(),
            received_lock: ReceiveTable::new(),
            received_done: ReceiveTable::new(),
        }
    }

    /// Register one more connected channel: the network grows by one slot and
    /// the handshake handle is remembered.
    pub fn channel_connected(&mut self, channel_id: String)
        requires
            old(self).wf(),
            old(self).state@.n < u32::MAX,
        ensures
            final(self).wf(),
            final(self).state@.n == old(self).state@.n + 1,
            final(self).state@.channel_ids == old(self).state@.channel_ids.push(channel_id@),
            final(self).state@ == (crate::state::StateView {
                n: final(self).state@.n,
                channel_ids: final(self).state@.channel_ids,
                ..old(self).state@
            }),
            final(self).highest_req@ == old(self).highest_req@.push(0u32),
            final(self).highest_abort@ == old(self).highest_abort@.push(-1i64),
            final(self).channels.deep_view() == old(self).channels.deep_view().push(
                Option::<Seq<char>>::None,
            ),
            final(self).send_all_upon.deep_view() == old(self).send_all_upon.deep_view().push(
                Seq::<crate::msg::MsgView>::empty(),
            ),
            final(self).received_suggest == old(self).received_suggest,
            final(self).received_proof == old(self).received_proof,
            final(self).received_echo == old(self).received_echo,
            final(self).received_key1 == old(self).received_key1,
            final(self).received_key2 == old(self).received_key2,
            final(self).received_key3 == old(self).received_key3,
            final(self).received_lock == old(self).received_lock,
            final(self).received_done == old(self).received_done,
    {
        self.state.channel_ids.push(channel_id);
        self.state.n = self.state.n + 1;
        self.highest_req.push(0);
        self.highest_abort.push(-1);
        self.channels.push(None);
        self.send_all_upon.push(Vec::new());
        proof {
            assert(self.channels.deep_view() =~~= old(self).channels.deep_view().push(
                Option::<Seq<char>>::None,
            ));
            assert(self.send_all_upon.deep_view() =~~= old(self).send_all_upon.deep_view().push(
                Seq::<crate::msg::MsgView>::empty(),
            ));
            assert(self.state@.channel_ids =~~= old(self).state@.channel_ids.push(channel_id@));
            assert(self.state@ == (crate::state::StateView {
                n: self.state@.n,
                channel_ids: self.state@.channel_ids,
                ..old(self).state@
            }));
        }
    }

    /// Record a peer's announced identity: remember its channel handle and
    /// reset its abort announcement.
    pub fn receive_who_am_i(&mut self, channel_id: String, chain_id: u32) -> (r: Result<
        (),
        ContractError,
    >)
        requires
            old(self).wf(),
        ensures
            final(self).wf(),
            r is Ok <==> chain_id < old(self).state@.n,
            r is Err ==> *final(self) == *old(self),
            r is Ok ==> {
                &&& final(self).channels.deep_view() == old(self).channels.deep_view().update(
                    chain_id as int,
                    Some(channel_id@),
                )
                &&& final(self).highest_abort@ == old(self).highest_abort@.update(
                    chain_id as int,
                    -1i64,
                )
                &&& final(self).state == old(self).state
                &&& final(self).highest_req == old(self).highest_req
                &&& final(self).send_all_upon == old(self).send_all_upon
                &&& final(self).received_suggest == old(self).received_suggest
                &&& final(self).received_proof == old(self).received_proof
                &&& final(self).received_echo == old(self).received_echo
                &&& final(self).received_key1 == old(self).received_key1
                &&& final(self).received_key2 == old(self).received_key2
                &&& final(self).received_key3 == old(self).received_key3
                &&& final(self).received_lock == old(self).received_lock
                &&& final(self).received_done == old(self).received_done
            },
    {
        let idx = chain_id as usize;
        if idx < self.channels.len() {
            self.channels.set(idx, Some(channel_id));
            self.highest_abort.set(idx, -1);
            proof {
                assert(self.channels.deep_view() =~~= old(self).channels.deep_view().update(
                    chain_id as int,
                    Some(channel_id@),
                ));
                assert(self.highest_abort@ =~= old(self).highest_abort@.update(
                    chain_id as int,
                    -1i64,
                ));
            }
            Ok(())
        } else {
            Err(ContractError::StateNotFound)
        }
    }
}


/// The quorum-tracked message kinds.
pub open spec fn is_hop_kind(k: crate::msg::MsgKind) -> bool {
    ||| k is Echo
    ||| k is Key1
    ||| k is Key2
    ||| k is Key3
    ||| k is Lock
    ||| k is Done
}

impl Replica {
    /// The quorum table that records contributions of kind `k`.
    pub open spec fn table_of(self, k: crate::msg::MsgKind) -> ReceiveTable {
        match k {
            crate::msg::MsgKind::Key1 => self.received_key1,
            crate::msg::MsgKind::Key2 => self.received_key2,
            crate::msg::MsgKind::Key3 => self.received_key3,
            crate::msg::MsgKind::Lock => self.received_lock,
            crate::msg::MsgKind::Done => self.received_done,
            _ => self.received_echo,
        }
    }

    /// Whether `id` already contributed a `k`-message for hash `h`.
    pub fn rt_contains(&self, k: crate::msg::MsgKind, h: u64, id: u32) -> (r: bool)
        requires
            is_hop_kind(k),
        ensures
            r == self.table_of(k).spec_get(h).contains(id),
    {
        match k {
            crate::msg::MsgKind::Key1 => self.received_key1.contains(h, id),
            crate::msg::MsgKind::Key2 => self.received_key2.contains(h, id),
            crate::msg::MsgKind::Key3 => self.received_key3.contains(h, id),
            crate::msg::MsgKind::Lock => self.received_lock.contains(h, id),
            crate::msg::MsgKind::Done => self.received_done.contains(h, id),
            _ => self.received_echo.contains(h, id),
        }
    }

    /// How many `k`-contributions are recorded for hash `h`.
    pub fn rt_count(&self, k: crate::msg::MsgKind, h: u64) -> (r: usize)
        requires
            is_hop_kind(k),
        ensures
            r == self.table_of(k).spec_get(h).len(),
    {
        match k {
            crate::msg::MsgKind::Key1 => self.received_key1.count(h),
            crate::msg::MsgKind::Key2 => self.received_key2.count(h),
            crate::msg::MsgKind::Key3 => self.received_key3.count(h),
            crate::msg::MsgKind::Lock => self.received_lock.count(h),
            crate::msg::MsgKind::Done => self.received_done.count(h),
            _ => self.received_echo.count(h),
        }
    }

    /// Record `id`'s `k`-contribution for hash `h`.
    pub fn rt_record(&mut self, k: crate::msg::MsgKind, h: u64, id: u32)
        requires
            is_hop_kind(k),
            old(self).wf(),
            !old(self).table_of(k).spec_get(h).contains(id),
        ensures
            final(self).wf(),
            final(self).table_of(k).spec_get(h) == old(self).table_of(k).spec_get(h).push(id),
            forall|h2: u64|
                h2 != h ==> #[trigger] final(self).table_of(k).spec_get(h2) == old(self).table_of(
                    k,
                ).spec_get(h2),
            forall|k2: crate::msg::MsgKind|
                is_hop_kind(k2) && k2 != k ==> #[trigger] final(self).table_of(k2) == old(
                    self,
                ).table_of(k2),
            final(self).state == old(self).state,
            final(self).highest_req == old(self).highest_req,
            final(self).highest_abort == old(self).highest_abort,
            final(self).channels == old(self).channels,
            final(self).send_all_upon == old(self).send_all_upon,
            final(self).received_suggest == old(self).received_suggest,
            final(self).received_proof == old(self).received_proof,
    {
        match k {
            crate::msg::MsgKind::Key1 => self.received_key1.record(h, id),
            crate::msg::MsgKind::Key2 => self.received_key2.record(h, id),
            crate::msg::MsgKind::Key3 => self.received_key3.record(h, id),
            crate::msg::MsgKind::Lock => self.received_lock.record(h, id),
            crate::msg::MsgKind::Done => self.received_done.record(h, id),
            _ => self.received_echo.record(h, id),
        }
    }
}


/// The lowest index at or after `k` whose registered handle is `target`.
pub open spec fn chan_lookup_from(
    channels: Seq<Option<Seq<char>>>,
    target: Seq<char>,
    k: int,
) -> Option<int>
    decreases channels.len() - k,
{
    if k < 0 || k >= channels.len() {
        None
    } else if channels[k] == Some(target) {
        Some(k)
    } else {
        chan_lookup_from(channels, target, k + 1)
    }
}

/// The replica id a channel handle resolves to: the lowest id registered
/// with exactly that handle, if any.
pub open spec fn chan_lookup(channels: Seq<Option<Seq<char>>>, target: Seq<char>) -> Option<int> {
    chan_lookup_from(channels, target, 0)
}

} // verus!
