//! Registry lookups, instance initialization and the small time helpers.

use vstd::prelude::*;
use crate::replica::{chan_lookup, chan_lookup_from, registered_pairs, Replica};
use crate::ContractError;

verus! {

/// Seconds a packet stays valid: one hour.
pub const PACKET_LIFETIME: u64 = 60 * 60;

/// Nanoseconds in one second.
pub const NANOS_PER_SECOND: u64 = 1_000_000_000;

/// The replica id a channel handle belongs to: the lowest id registered with
/// exactly that handle.
pub fn get_chain_id(replica: &Replica, channel_id_to_get: String) -> (r: Result<
    u32,
    ContractError,
>)
    requires
        replica.wf(),
    ensures
        r matches Ok(i) ==> {
            let dv = replica.channels.deep_view();
            &&& i < dv.len()
            &&& dv[i as int] == Some(channel_id_to_get@)
            &&& chan_lookup(dv, channel_id_to_get@) == Some(i as int)
        },
        r is Err <==> chan_lookup(replica.channels.deep_view(), channel_id_to_get@) is None,
{
    let ghost dv = replica.channels.deep_view();
    let mut i: usize = 0;
    while i < replica.channels.len()
        invariant
            0 <= i <= replica.channels@.len(),
            dv == replica.channels.deep_view(),
            dv.len() == replica.channels@.len(),
            replica.channels@.len() <= u32::MAX,
            chan_lookup(dv, channel_id_to_get@) == chan_lookup_from(dv, channel_id_to_get@, i as int),
        decreases replica.channels@.len() - i,
    {
        let hit = match &replica.channels[i] {
            Some(c) => *c == channel_id_to_get,
            None => false,
        };
        proof {
            assert(dv[i as int] == match replica.channels@[i as int] {
                Some(ref s) => Some(s@),
                None => None,
            });
        }
        if hit {
            proof {
                assert(chan_lookup_from(dv, channel_id_to_get@, i as int) == Some(i as int));
            }
            return Ok(i as u32);
        }
        proof {
            assert(chan_lookup_from(dv, channel_id_to_get@, i as int) == chan_lookup_from(
                dv,
                channel_id_to_get@,
                i + 1,
            ));
        }
        i = i + 1;
    }
    proof {
        assert(chan_lookup_from(dv, channel_id_to_get@, dv.len() as int) is None);
    }
    Err(ContractError::StateNotFound)
}

/// The (replica id, channel handle) pairs of all registered peers, ascending.
pub fn get_id_channel_pair(replica: &Replica) -> (r: Vec<(u32, String)>)
    requires
        replica.wf(),
    ensures
        r.deep_view() == registered_pairs(replica.channels.deep_view()),
{
    let ghost dv = replica.channels.deep_view();
    let mut out: Vec<(u32, String)> = Vec::new();
    let mut i: usize = 0;
    while i < replica.channels.len()
        invariant
            0 <= i <= replica.channels@.len(),
            dv == replica.channels.deep_view(),
            dv.len() == replica.channels@.len(),
            out.deep_view() =~~= registered_pairs(dv.take(i as int)),
        decreases replica.channels@.len() - i,
    {
        proof {
            assert(dv[i as int] == match replica.channels@[i as int] {
                Some(ref s) => Some(s@),
                None => None,
            });
            assert(dv.take(i + 1).drop_last() =~~= dv.take(i as int));
            assert(dv.take(i + 1).last() == dv[i as int]);
        }
        match &replica.channels[i] {
            Some(c) => {
                out.push((i as u32, c.clone()));
                proof {
                    assert(out.deep_view() =~~= registered_pairs(dv.take(i + 1)));
                }
            },
            None => {
                proof {
                    assert(out.deep_view() =~~= registered_pairs(dv.take(i + 1)));
                }
            },
        }
        i = i + 1;
    }
    proof {
        assert(dv.take(dv.len() as int) =~~= dv);
    }
    out
}

/// The registered peers, read straight from the replica's store.
pub fn get_id_channel_pair_from_storage(replica: &Replica) -> (r: Vec<(u32, String)>)
    requires
        replica.wf(),
    ensures
        r.deep_view() == registered_pairs(replica.channels.deep_view()),
{
    get_id_channel_pair(replica)
}

/// A vector of `n` copies of `x`.
fn filled_u32(n: usize, x: u32) -> (r: Vec<u32>)
    ensures
        r@.len() == n,
        forall|i: int| 0 <= i < n ==> r@[i] == x,
{
    let mut out: Vec<u32> = Vec::new();
    let mut i: usize = 0;
    while i < n
        invariant
            0 <= i <= n,
            out@.len() == i,
            forall|j: int| 0 <= j < i ==> out@[j] == x,
        decreases n - i,
    {
        out.push(x);
        i = i + 1;
    }
    out
}

/// A vector of `n` copies of `x`.
fn filled_i64(n: usize, x: i64) -> (r: Vec<i64>)
    ensures
        r@.len() == n,
        forall|i: int| 0 <= i < n ==> r@[i] == x,
{
    let mut out: Vec<i64> = Vec::new();
    let mut i: usize = 0;
    while i < n
        invariant
            0 <= i <= n,
            out@.len() == i,
            forall|j: int| 0 <= j < i ==> out@[j] == x,
        decreases n - i,
    {
        out.push(x);
        i = i + 1;
    }
    out
}

/// A vector of `n` empty message lists.
pub(crate) fn empty_queues(n: usize) -> (r: Vec<Vec<crate::msg::Msg>>)
    ensures
        r.deep_view().len() == n,
        forall|i: int| 0 <= i < n ==> #[trigger] r.deep_view()[i] =~= Seq::<crate::msg::MsgView>::empty(),
{
    let mut out: Vec<Vec<crate::msg::Msg>> = Vec::new();
    let mut i: usize = 0;
    while i < n
        invariant
            0 <= i <= n,
            out.deep_view().len() == i,
            forall|j: int| 0 <= j < i ==> #[trigger] out.deep_view()[j] =~= Seq::<
                crate::msg::MsgView,
            >::empty(),
        decreases n - i,
    {
        let ghost pre = out.deep_view();
        out.push(Vec::new());
        proof {
            assert(out.deep_view() =~~= pre.push(Seq::<crate::msg::MsgView>::empty()));
            assert forall|j: int| 0 <= j < i + 1 implies #[trigger] out.deep_view()[j] =~= Seq::<
                crate::msg::MsgView,
            >::empty() by {
                if j < i {
                    assert(out.deep_view()[j] == pre[j]);
                }
            }
        }
        i = i + 1;
    }
    out
}

/// Clear the per-view records: the one-per-sender sets, every per-value
/// quorum table, and the join-on-request buffers, which hold messages of the
/// closing view.
pub fn reset_view_specific_maps(replica: &mut Replica)
    requires
        old(replica).wf(),
    ensures
        final(replica).wf(),
        final(replica).state == old(replica).state,
        final(replica).highest_req == old(replica).highest_req,
        final(replica).highest_abort == old(replica).highest_abort,
        final(replica).channels == old(replica).channels,
        final(replica).received_suggest@ =~= Seq::<u32>::empty(),
        final(replica).received_proof@ =~= Seq::<u32>::empty(),
        final(replica).send_all_upon.deep_view().len() == old(replica).send_all_upon.deep_view().len(),
        forall|i: int|
            0 <= i < final(replica).send_all_upon.deep_view().len()
                ==> #[trigger] final(replica).send_all_upon.deep_view()[i] =~= Seq::<
                crate::msg::MsgView,
            >::empty(),
        forall|h: u64| #[trigger] final(replica).received_echo.spec_get(h) =~= Seq::<u32>::empty(),
        forall|h: u64| #[trigger] final(replica).received_key1.spec_get(h) =~= Seq::<u32>::empty(),
        forall|h: u64| #[trigger] final(replica).received_key2.spec_get(h) =~= Seq::<u32>::empty(),
        forall|h: u64| #[trigger] final(replica).received_key3.spec_get(h) =~= Seq::<u32>::empty(),
        forall|h: u64| #[trigger] final(replica).received_lock.spec_get(h) =~= Seq::<u32>::empty(),
        forall|h: u64| #[trigger] final(replica).received_done.spec_get(h) =~= Seq::<u32>::empty(),
{
    replica.received_suggest = Vec::new();
    replica.received_proof = Vec::new();
    replica.received_echo.clear();
    replica.received_key1.clear();
    replica.received_key2.clear();
    replica.received_key3.clear();
    replica.received_lock.clear();
    replica.received_done.clear();
    let n = replica.send_all_upon.len();
    replica.send_all_upon = empty_queues(n);
}

/// Reset every replica's abort announcement to the initial -1.
fn reset_aborts(replica: &mut Replica)
    requires
        old(replica).wf(),
    ensures
        final(replica).wf(),
        final(replica).state == old(replica).state,
        final(replica).highest_req == old(replica).highest_req,
        final(replica).channels == old(replica).channels,
        final(replica).send_all_upon == old(replica).send_all_upon,
        final(replica).received_suggest == old(replica).received_suggest,
        final(replica).received_proof == old(replica).received_proof,
        final(replica).received_echo == old(replica).received_echo,
        final(replica).received_key1 == old(replica).received_key1,
        final(replica).received_key2 == old(replica).received_key2,
        final(replica).received_key3 == old(replica).received_key3,
        final(replica).received_lock == old(replica).received_lock,
        final(replica).received_done == old(replica).received_done,
        final(replica).highest_abort@.len() == old(replica).highest_abort@.len(),
        forall|i: int|
            0 <= i < final(replica).highest_abort@.len()
                ==> #[trigger] final(replica).highest_abort@[i] == -1i64,
{
    let n = replica.highest_abort.len();
    replica.highest_abort = filled_i64(n, -1);
}

/// Prepare the store for a new consensus instance: every request tracker to
/// 0, the view-scoped records cleared, every abort announcement to -1.
pub fn init_receive_map(replica: &mut Replica)
    requires
        old(replica).wf(),
    ensures
        final(replica).wf(),
        final(replica).state == old(replica).state,
        final(replica).channels == old(replica).channels,
        final(replica).highest_req@.len() == old(replica).highest_req@.len(),
        forall|i: int|
            0 <= i < final(replica).highest_req@.len()
                ==> #[trigger] final(replica).highest_req@[i] == 0u32,
        final(replica).highest_abort@.len() == old(replica).highest_abort@.len(),
        forall|i: int|
            0 <= i < final(replica).highest_abort@.len()
                ==> #[trigger] final(replica).highest_abort@[i] == -1i64,
        final(replica).received_suggest@ =~= Seq::<u32>::empty(),
        final(replica).received_proof@ =~= Seq::<u32>::empty(),
        forall|i: int|
            0 <= i < final(replica).send_all_upon.deep_view().len()
                ==> #[trigger] final(replica).send_all_upon.deep_view()[i] =~= Seq::<
                crate::msg::MsgView,
            >::empty(),
        final(replica).send_all_upon.deep_view().len() == old(replica).send_all_upon.deep_view().len(),
        forall|h: u64| #[trigger] final(replica).received_echo.spec_get(h) =~= Seq::<u32>::empty(),
        forall|h: u64| #[trigger] final(replica).received_key1.spec_get(h) =~= Seq::<u32>::empty(),
        forall|h: u64| #[trigger] final(replica).received_key2.spec_get(h) =~= Seq::<u32>::empty(),
        forall|h: u64| #[trigger] final(replica).received_key3.spec_get(h) =~= Seq::<u32>::empty(),
        forall|h: u64| #[trigger] final(replica).received_lock.spec_get(h) =~= Seq::<u32>::empty(),
        forall|h: u64| #[trigger] final(replica).received_done.spec_get(h) =~= Seq::<u32>::empty(),
{
    let n = replica.highest_req.len();
    replica.highest_req = filled_u32(n, 0);
    reset_view_specific_maps(replica);
    reset_aborts(replica);
}

/// The timeout instant for a packet sent now: one hour later, in nanoseconds.
pub fn get_timeout(now: u64) -> (r: u64)
    requires
        now + PACKET_LIFETIME * NANOS_PER_SECOND <= u64::MAX,
    ensures
        r == now + PACKET_LIFETIME * NANOS_PER_SECOND,
{
    now + PACKET_LIFETIME * NANOS_PER_SECOND
}

/// The difference of two instants (nanoseconds since the epoch), in whole
/// seconds.
pub fn get_seconds_diff(start: u64, end: u64) -> (r: u64)
    requires
        start <= end,
    ensures
        r == end / NANOS_PER_SECOND - start / NANOS_PER_SECOND,
{
    proof {
        vstd::arithmetic::div_mod::lemma_div_is_ordered(
            start as int,
            end as int,
            NANOS_PER_SECOND as int,
        );
    }
    end / NANOS_PER_SECOND - start / NANOS_PER_SECOND
}

} // verus!
