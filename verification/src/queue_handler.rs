//! The consensus engine: the per-kind phase handlers, the shared
//! quorum/deduplication hop, the broadcast primitives and the top-level
//! message-batch processor.

use vstd::prelude::*;
use crate::crypto::{
    addr_of, append_fields, base64_decode_of, check_signature, signature_valid,
};
use crate::msg::{kind_of, Msg, MsgKind, MsgView};
use crate::replica::{is_hop_kind, Replica};
use crate::state::{input_hash_of, InputType, StateView, TBInputView};
use crate::ContractError;

verus! {

/// The decision callout the host must deliver: an execute action addressed to
/// the configured contract, carrying the decided value with the appended
/// identity field.
#[derive(Debug)]
pub struct ExecuteIntent {
    pub contract_addr: String,
    pub payload: Vec<u8>,
}

/// What one processed batch asks the host to do: one packet per destination
/// channel, and at most one decision callout.
#[derive(Debug)]
pub struct ReceiveOutcome {
    pub packets: Vec<(String, crate::msg::PacketMsg)>,
    pub execute: Option<ExecuteIntent>,
}

/// Every slot of `post` continues the corresponding slot of `pre`.
pub open spec fn queue_extends(post: Seq<Seq<MsgView>>, pre: Seq<Seq<MsgView>>) -> bool {
    &&& post.len() == pre.len()
    &&& forall|i: int| 0 <= i < pre.len() ==> pre[i].is_prefix_of(#[trigger] post[i])
}

/// The replica's place in the network is unchanged: size, identity, registry
/// and the shape of every per-replica map.
pub open spec fn same_network(pre: Replica, post: Replica) -> bool {
    &&& post.state@.n == pre.state@.n
    &&& post.state@.chain_id == pre.state@.chain_id
    &&& post.state@.contract_addr == pre.state@.contract_addr
    &&& post.channels.deep_view() == pre.channels.deep_view()
    &&& post.highest_req@.len() == pre.highest_req@.len()
    &&& post.highest_abort@.len() == pre.highest_abort@.len()
    &&& post.send_all_upon.deep_view().len() == pre.send_all_upon.deep_view().len()
}

/// How one processing step may move the exactly-once callout flag: the flag
/// only rises, and it rises exactly when an intent is emitted.
pub open spec fn callout_transition(pre: StateView, post: StateView, emitted: bool) -> bool {
    &&& (emitted ==> !pre.done_executed && post.done_executed)
    &&& post.done_executed == (pre.done_executed || emitted)
}

/// An emitted callout is well-formed: it is addressed to the configured
/// contract and its payload frames a value whose signature verifies, with the
/// derived sender identity appended.
pub open spec fn intent_wf(e: ExecuteIntent, addr: Seq<char>) -> bool {
    &&& e.contract_addr@ == addr
    &&& exists|v: TBInputView|
        #![auto]
        signature_valid(v) && match base64_decode_of(v.binary) {
            Some(d) => e.payload@ == append_fields(d, "tb_user"@, addr_of(v.public_key)),
            None => false,
        }
}

/// The channel context a handler resolves its sender from.
pub open spec fn opt_str_view(c: Option<&String>) -> Option<Seq<char>> {
    match c {
        Some(s) => Some(s@),
        None => None,
    }
}

/// The replica id a delivery is counted under: the local id for a
/// self-delivery, else the lowest id registered with the carrying channel.
pub open spec fn resolved_sender(r: Replica, channel: Option<Seq<char>>) -> Option<u32> {
    match channel {
        None => Some(r.state@.chain_id),
        Some(c) => match crate::replica::chan_lookup(r.channels.deep_view(), c) {
            Some(i) => Some(i as u32),
            None => None,
        },
    }
}

/// The outbound queue after pushing one message to every registered peer.
pub open spec fn broadcast_all(
    channels: Seq<Option<Seq<char>>>,
    q: Seq<Seq<MsgView>>,
    m: MsgView,
) -> Seq<Seq<MsgView>> {
    Seq::new(
        q.len(),
        |i: int|
            if channels[i] is Some {
                q[i].push(m)
            } else {
                q[i]
            },
    )
}

/// The outbound queue after join-on-request forwarding: the message reaches
/// every registered peer that has announced the current view.
pub open spec fn join_queue(
    channels: Seq<Option<Seq<char>>>,
    hr: Seq<u32>,
    view: u32,
    q: Seq<Seq<MsgView>>,
    m: MsgView,
) -> Seq<Seq<MsgView>> {
    Seq::new(
        q.len(),
        |i: int|
            if channels[i] is Some && hr[i] == view {
                q[i].push(m)
            } else {
                q[i]
            },
    )
}

/// The join-on-request buffers after forwarding: the message is buffered for
/// every registered peer that has not announced the current view.
pub open spec fn join_buffers(
    channels: Seq<Option<Seq<char>>>,
    hr: Seq<u32>,
    view: u32,
    b: Seq<Seq<MsgView>>,
    m: MsgView,
) -> Seq<Seq<MsgView>> {
    Seq::new(
        b.len(),
        |i: int|
            if channels[i] is Some && hr[i] != view {
                b[i].push(m)
            } else {
                b[i]
            },
    )
}

/// How many suggest-round proofs support accepting a candidate (height,
/// value): a proof supports it when the candidate height precedes the proof's
/// previous height, or does not exceed the proof's height while carrying the
/// same value.
pub open spec fn accept_support(
    proofs: Seq<(u32, TBInputView, i64)>,
    key: u32,
    value: TBInputView,
) -> int
    decreases proofs.len(),
{
    if proofs.len() == 0 {
        0
    } else {
        let rest = accept_support(proofs.drop_last(), key, value);
        let p = proofs.last();
        if (key as i64) < p.2 {
            rest + 1
        } else if key <= p.0 && value == p.1 {
            rest + 1
        } else {
            rest
        }
    }
}

/// How many proofs open the current lock: a proof counts when its previous
/// height exceeds the lock height, or its height reaches the lock height with
/// a value different from the locked one.
pub open spec fn open_support(
    proofs: Seq<(u32, TBInputView, i64)>,
    lock: u32,
    lock_val: TBInputView,
) -> int
    decreases proofs.len(),
{
    if proofs.len() == 0 {
        0
    } else {
        let rest = open_support(proofs.drop_last(), lock, lock_val);
        let p = proofs.last();
        if (lock as i64) < p.2 {
            rest + 1
        } else if lock <= p.0 && p.1 != lock_val {
            rest + 1
        } else {
            rest
        }
    }
}

/// Whether at least two collected key2 proofs support the suggested
/// candidate.  The threshold is the protocol's literal constant two; it does
/// not scale with the fault bound.
#[verifier::rlimit(50)]
#[verifier::spinoff_prover]
pub fn accept_key(key: u32, value: InputType, proofs: Vec<(u32, InputType, i64)>) -> (r: bool)
    ensures
        r == (accept_support(proofs.deep_view(), key, value@) >= 2),
{
    let ghost dv = proofs.deep_view();
    let mut supporting: usize = 0;
    let mut i: usize = 0;
    while i < proofs.len()
        invariant
            0 <= i <= proofs@.len(),
            dv == proofs.deep_view(),
            dv.len() == proofs@.len(),
            supporting <= i,
            supporting == accept_support(dv.take(i as int), key, value@),
        decreases proofs@.len() - i,
    {
        let p = &proofs[i];
        proof {
            assert(dv[i as int] == (proofs@[i as int].0, proofs@[i as int].1@, proofs@[i as int].2));
            assert(dv.take(i + 1).drop_last() =~~= dv.take(i as int));
            assert(dv.take(i + 1).last() == dv[i as int]);
        }
        if (key as i64) < p.2 {
            supporting = supporting + 1;
        } else if key <= p.0 && value == p.1 {
            supporting = supporting + 1;
        }
        i = i + 1;
    }
    proof {
        assert(dv.take(dv.len() as int) =~~= dv);
    }
    supporting >= 1 + 1
}

/// Whether the collected proofs open the current lock: at least F+1 of them
/// must support a conflicting proposal.
pub fn open_lock(state: &crate::state::State, proofs: &Vec<(u32, InputType, i64)>) -> (r: bool)
    requires
        state@.fault_bound < u32::MAX,
    ensures
        r == (open_support(proofs.deep_view(), state@.lock, state@.lock_val) >= state@.fault_bound
            + 1),
{
    let ghost dv = proofs.deep_view();
    let mut supporting: usize = 0;
    let mut i: usize = 0;
    while i < proofs.len()
        invariant
            0 <= i <= proofs@.len(),
            dv == proofs.deep_view(),
            dv.len() == proofs@.len(),
            supporting <= i,
            supporting == open_support(dv.take(i as int), state@.lock, state@.lock_val),
        decreases proofs@.len() - i,
    {
        let p = &proofs[i];
        proof {
            assert(dv[i as int] == (proofs@[i as int].0, proofs@[i as int].1@, proofs@[i as int].2));
            assert(dv.take(i + 1).drop_last() =~~= dv.take(i as int));
            assert(dv.take(i + 1).last() == dv[i as int]);
        }
        if (state.lock as i64) < p.2 {
            supporting = supporting + 1;
        } else if state.lock <= p.0 && p.1 != state.lock_val {
            supporting = supporting + 1;
        }
        i = i + 1;
    }
    proof {
        assert(dv.take(dv.len() as int) =~~= dv);
    }
    let threshold = state.F + 1;
    if supporting >= u32_to_usize(threshold) {
        true
    } else {
        false
    }
}

/// A u32 as a usize (always exact: usize is at least 32 bits wide).
pub(crate) fn u32_to_usize(x: u32) -> (r: usize)
    ensures
        r == x,
{
    x as usize
}

/// A mutable reference to one destination's slot.
pub(crate) fn queue_slot_mut(v: &mut Vec<Vec<Msg>>, i: usize) -> (e: &mut Vec<Msg>)
    requires
        i < old(v).len(),
    ensures
        *e == old(v)@[i as int],
        final(v)@ == old(v)@.update(i as int, *final(e)),
{
    &mut v[i]
}

/// Queue `packet` for every registered peer and for local self-delivery.
pub fn send_all_party(
    replica: &Replica,
    queue: &mut Vec<Vec<Msg>>,
    packet: Msg,
    pending: &mut Vec<Msg>,
)
    requires
        replica.wf(),
        old(queue).deep_view().len() == replica.channels.deep_view().len(),
    ensures
        final(pending).deep_view() == old(pending).deep_view().push(packet@),
        final(queue).deep_view().len() == old(queue).deep_view().len(),
        forall|i: int|
            0 <= i < old(queue).deep_view().len() ==> #[trigger] final(queue).deep_view()[i] == (
            if replica.channels.deep_view()[i] is Some {
                old(queue).deep_view()[i].push(packet@)
            } else {
                old(queue).deep_view()[i]
            }),
        final(queue).deep_view() == broadcast_all(
            replica.channels.deep_view(),
            old(queue).deep_view(),
            packet@,
        ),
        queue_extends(final(queue).deep_view(), old(queue).deep_view()),
{
    let ghost olddq = old(queue).deep_view();
    let ghost oldp = old(pending).deep_view();
    pending.push(packet.clone());
    proof {
        assert(pending.deep_view() =~~= oldp.push(packet@));
    }
    let n = queue.len();
    let mut i: usize = 0;
    while i < n
        invariant
            0 <= i <= n,
            replica.wf(),
            n == olddq.len(),
            n == replica.channels.deep_view().len(),
            queue.deep_view().len() == n,
            forall|j: int|
                0 <= j < i ==> #[trigger] queue.deep_view()[j] == (
                if replica.channels.deep_view()[j] is Some {
                    olddq[j].push(packet@)
                } else {
                    olddq[j]
                }),
            forall|j: int| i <= j < n ==> #[trigger] queue.deep_view()[j] == olddq[j],
        decreases n - i,
    {
        proof {
            assert(replica.channels.deep_view()[i as int] == match replica.channels@[i as int] {
                Some(ref s) => Some(s@),
                None => None,
            });
        }
        let registered = replica.channels[i].is_some();
        if registered {
            let ghost pre = queue.deep_view();
            let slot = queue_slot_mut(queue, i);
            slot.push(packet.clone());
            proof {
                assert(queue.deep_view() =~~= pre.update(i as int, pre[i as int].push(packet@)));
            }
        }
        i = i + 1;
    }
    proof {
        assert forall|i: int|
            0 <= i < olddq.len() implies olddq[i].is_prefix_of(#[trigger] queue.deep_view()[i]) by {
            if replica.channels.deep_view()[i] is Some {
                assert(queue.deep_view()[i] == olddq[i].push(packet@));
                assert(olddq[i].is_prefix_of(olddq[i].push(packet@)));
            }
        }
        assert(queue.deep_view() =~~= broadcast_all(replica.channels.deep_view(), olddq, packet@));
    }
}

/// Queue `packet` for every registered peer that has announced the current
/// view, buffer it for the peers that have not, and self-deliver it.
pub fn send_all_upon_join_queue(
    replica: &mut Replica,
    queue: &mut Vec<Vec<Msg>>,
    packet_msg: Msg,
    pending: &mut Vec<Msg>,
)
    requires
        old(replica).wf(),
        old(queue).deep_view().len() == old(replica).channels.deep_view().len(),
    ensures
        final(replica).wf(),
        same_network(*old(replica), *final(replica)),
        final(replica).state == old(replica).state,
        final(replica).highest_req == old(replica).highest_req,
        final(replica).highest_abort == old(replica).highest_abort,
        final(replica).channels == old(replica).channels,
        final(replica).received_suggest == old(replica).received_suggest,
        final(replica).received_proof == old(replica).received_proof,
        final(replica).received_echo == old(replica).received_echo,
        final(replica).received_key1 == old(replica).received_key1,
        final(replica).received_key2 == old(replica).received_key2,
        final(replica).received_key3 == old(replica).received_key3,
        final(replica).received_lock == old(replica).received_lock,
        final(replica).received_done == old(replica).received_done,
        final(pending).deep_view() == old(pending).deep_view().push(packet_msg@),
        final(queue).deep_view().len() == old(queue).deep_view().len(),
        forall|i: int|
            0 <= i < old(queue).deep_view().len() ==> #[trigger] final(queue).deep_view()[i] == (
            if old(replica).channels.deep_view()[i] is Some
                && old(replica).highest_req@[i] == old(replica).state@.view {
                old(queue).deep_view()[i].push(packet_msg@)
            } else {
                old(queue).deep_view()[i]
            }),
        forall|i: int|
            0 <= i < old(replica).send_all_upon.deep_view().len()
                ==> #[trigger] final(replica).send_all_upon.deep_view()[i] == (
            if old(replica).channels.deep_view()[i] is Some
                && old(replica).highest_req@[i] != old(replica).state@.view {
                old(replica).send_all_upon.deep_view()[i].push(packet_msg@)
            } else {
                old(replica).send_all_upon.deep_view()[i]
            }),
        queue_extends(final(queue).deep_view(), old(queue).deep_view()),
{
    let ghost olddq = old(queue).deep_view();
    let ghost oldsau = old(replica).send_all_upon.deep_view();
    let ghost oldp = old(pending).deep_view();
    pending.push(packet_msg.clone());
    proof {
        assert(pending.deep_view() =~~= oldp.push(packet_msg@));
    }
    let view = replica.state.view;
    let n = queue.len();
    let mut i: usize = 0;
    while i < n
        invariant
            0 <= i <= n,
            replica.wf(),
            replica.state == old(replica).state,
            replica.highest_req == old(replica).highest_req,
            replica.highest_abort == old(replica).highest_abort,
            replica.channels == old(replica).channels,
            replica.received_suggest == old(replica).received_suggest,
            replica.received_proof == old(replica).received_proof,
            replica.received_echo == old(replica).received_echo,
            replica.received_key1 == old(replica).received_key1,
            replica.received_key2 == old(replica).received_key2,
            replica.received_key3 == old(replica).received_key3,
            replica.received_lock == old(replica).received_lock,
            replica.received_done == old(replica).received_done,
            view == old(replica).state@.view,
            n == olddq.len(),
            n == replica.channels.deep_view().len(),
            n == replica.highest_req@.len(),
            oldsau.len() == replica.send_all_upon.deep_view().len(),
            queue.deep_view().len() == n,
            forall|j: int|
                0 <= j < i ==> #[trigger] queue.deep_view()[j] == (
                if replica.channels.deep_view()[j] is Some && replica.highest_req@[j] == view {
                    olddq[j].push(packet_msg@)
                } else {
                    olddq[j]
                }),
            forall|j: int| i <= j < n ==> #[trigger] queue.deep_view()[j] == olddq[j],
            forall|j: int|
                0 <= j < i ==> #[trigger] replica.send_all_upon.deep_view()[j] == (
                if replica.channels.deep_view()[j] is Some && replica.highest_req@[j] != view {
                    oldsau[j].push(packet_msg@)
                } else {
                    oldsau[j]
                }),
            forall|j: int|
                i <= j < oldsau.len() ==> #[trigger] replica.send_all_upon.deep_view()[j]
                    == oldsau[j],
        decreases n - i,
    {
        proof {
            assert(replica.channels.deep_view()[i as int] == match replica.channels@[i as int] {
                Some(ref s) => Some(s@),
                None => None,
            });
            assert(oldsau.len() == n);
        }
        let registered = replica.channels[i].is_some();
        if registered {
            if replica.highest_req[i] == view {
                let ghost pre = queue.deep_view();
                let slot = queue_slot_mut(queue, i);
                slot.push(packet_msg.clone());
                proof {
                    assert(queue.deep_view() =~~= pre.update(
                        i as int,
                        pre[i as int].push(packet_msg@),
                    ));
                }
            } else {
                let ghost pre = replica.send_all_upon.deep_view();
                let slot = queue_slot_mut(&mut replica.send_all_upon, i);
                slot.push(packet_msg.clone());
                proof {
                    assert(replica.send_all_upon.deep_view() =~~= pre.update(
                        i as int,
                        pre[i as int].push(packet_msg@),
                    ));
                }
            }
        }
        i = i + 1;
    }
    proof {
        assert forall|i: int|
            0 <= i < olddq.len() implies olddq[i].is_prefix_of(#[trigger] queue.deep_view()[i]) by {
            if replica.channels.deep_view()[i] is Some && replica.highest_req@[i] == view {
                assert(queue.deep_view()[i] == olddq[i].push(packet_msg@));
                assert(olddq[i].is_prefix_of(olddq[i].push(packet_msg@)));
            }
        }
        assert(queue.deep_view() =~~= join_queue(
            replica.channels.deep_view(),
            old(replica).highest_req@,
            old(replica).state@.view,
            olddq,
            packet_msg@,
        ));
        assert(replica.send_all_upon.deep_view() =~~= join_buffers(
            replica.channels.deep_view(),
            old(replica).highest_req@,
            old(replica).state@.view,
            oldsau,
            packet_msg@,
        ));
    }
}


/// Resolve the sender, apply the per-view filter and record one
/// contribution per replica per value.  Returns the contribution count when
/// the message was newly counted, and nothing when it was filtered out or a
/// duplicate.
fn hop_record(
    replica: &mut Replica,
    val: InputType,
    view: u32,
    message_type: MsgKind,
    channel_id: Option<&String>,
) -> (r: Result<Option<usize>, ContractError>)
    requires
        old(replica).wf(),
        old(replica).in_network(),
        is_hop_kind(message_type),
    ensures
        final(replica).wf(),
        final(replica).in_network(),
        same_network(*old(replica), *final(replica)),
        final(replica).state == old(replica).state,
        final(replica).highest_req == old(replica).highest_req,
        final(replica).highest_abort == old(replica).highest_abort,
        final(replica).channels == old(replica).channels,
        final(replica).send_all_upon == old(replica).send_all_upon,
        final(replica).received_suggest == old(replica).received_suggest,
        final(replica).received_proof == old(replica).received_proof,
        r is Err ==> *final(replica) == *old(replica),
        forall|k2: MsgKind|
            is_hop_kind(k2) && k2 != message_type ==> #[trigger] final(replica).table_of(k2)
                == old(replica).table_of(k2),
        forall|h2: u64|
            h2 != input_hash_of(val@) ==> #[trigger] final(replica).table_of(
                message_type,
            ).spec_get(h2) == old(replica).table_of(message_type).spec_get(h2),
        r matches Ok(None) ==> *final(replica) == *old(replica),
        ({
            let h = input_hash_of(val@);
            let filter_ok = view == old(replica).state@.view || message_type is Done;
            let s_opt = resolved_sender(*old(replica), opt_str_view(channel_id));
            let pre = old(replica).table_of(message_type).spec_get(h);
            &&& (r is Err <==> filter_ok && s_opt is None)
            &&& (!filter_ok ==> r matches Ok(None))
            &&& (s_opt matches Some(s) ==> (if filter_ok && pre.contains(s) {
                r matches Ok(None)
            } else if filter_ok {
                r matches Ok(Some(c)) && c == pre.len() + 1 && final(replica).table_of(
                    message_type,
                ).spec_get(h) == pre.push(s)
            } else {
                true
            }))
        }),
{
    if view != replica.state.view && message_type != MsgKind::Done {
        return Ok(None);
    }
    let chain_id: u32 = match channel_id {
        Some(id) => crate::utils::get_chain_id(replica, id.clone())?,
        None => replica.state.chain_id,
    };
    proof {
        assert(resolved_sender(*old(replica), opt_str_view(channel_id)) == Some(chain_id));
    }
    let ghost h = input_hash_of(val@);
    let val_hash = val.calculate_hash();
    if !replica.rt_contains(message_type, val_hash, chain_id) {
        let ghost pre = replica.table_of(message_type).spec_get(h);
        replica.rt_record(message_type, val_hash, chain_id);
        proof {
            assert(!pre.contains(chain_id) && replica.table_of(message_type).spec_get(h)
                == pre.push(chain_id));
        }
        let cnt = replica.rt_count(message_type, val_hash);
        Ok(Some(cnt))
    } else {
        Ok(None)
    }
}

/// After a newly counted contribution: mark the next phase sent and
/// broadcast it when `cnt` reaches the threshold for this kind.  Returns
/// whether the strong threshold (n - F) is reached.
fn hop_threshold(
    replica: &mut Replica,
    queue: &mut Vec<Vec<Msg>>,
    message_type: MsgKind,
    msg_to_send: Msg,
    pending: &mut Vec<Msg>,
    cnt: usize,
) -> (r: bool)
    requires
        old(replica).wf(),
        old(replica).in_network(),
        old(queue).deep_view().len() == old(replica).channels.deep_view().len(),
        is_hop_kind(message_type),
    ensures
        final(replica).wf(),
        final(replica).in_network(),
        same_network(*old(replica), *final(replica)),
        final(replica).state@ == (StateView {
            sent: final(replica).state@.sent,
            ..old(replica).state@
        }),
        forall|kk: MsgKind|
            old(replica).state@.sent.contains(kk) ==> final(replica).state@.sent.contains(kk),
        final(replica).highest_req == old(replica).highest_req,
        final(replica).highest_abort == old(replica).highest_abort,
        final(replica).received_suggest == old(replica).received_suggest,
        final(replica).received_proof == old(replica).received_proof,
        forall|k2: MsgKind|
            is_hop_kind(k2) ==> #[trigger] final(replica).table_of(k2) == old(replica).table_of(
                k2,
            ),
        r ==> cnt >= old(replica).state@.n - old(replica).state@.fault_bound,
        ({
            let st = old(replica).state@;
            let ch = old(replica).channels.deep_view();
            let hr = old(replica).highest_req@;
            let send_kind = kind_of(msg_to_send@);
            let nf = st.n - st.fault_bound;
            if message_type is Done {
                let amplify = !st.sent.contains(MsgKind::Done) && cnt >= st.fault_bound + 1;
                &&& r == (cnt >= nf)
                &&& (amplify ==> final(replica).state@.sent == st.sent.push(MsgKind::Done)
                    && final(queue).deep_view() == broadcast_all(
                    ch,
                    old(queue).deep_view(),
                    msg_to_send@,
                ) && final(pending).deep_view() == old(pending).deep_view().push(msg_to_send@)
                    && final(replica).send_all_upon == old(replica).send_all_upon)
                &&& (!amplify ==> final(replica).state@.sent == st.sent && *final(queue) == *old(queue) && *final(pending) == *old(pending) && final(replica).send_all_upon == old(replica).send_all_upon)
            } else {
                let fire = !st.sent.contains(send_kind) && cnt >= nf;
                &&& r == fire
                &&& (fire ==> final(replica).state@.sent == st.sent.push(send_kind) && final(pending).deep_view() == old(pending).deep_view().push(msg_to_send@))
                &&& (fire && message_type is Lock ==> final(queue).deep_view() == broadcast_all(
                    ch,
                    old(queue).deep_view(),
                    msg_to_send@,
                ) && final(replica).send_all_upon == old(replica).send_all_upon)
                &&& (fire && !(message_type is Lock) ==> final(queue).deep_view() == join_queue(
                    ch,
                    hr,
                    st.view,
                    old(queue).deep_view(),
                    msg_to_send@,
                ) && final(replica).send_all_upon.deep_view() == join_buffers(
                    ch,
                    hr,
                    st.view,
                    old(replica).send_all_upon.deep_view(),
                    msg_to_send@,
                ))
                &&& (!fire ==> final(replica).state@.sent == st.sent && *final(queue) == *old(queue) && *final(pending) == *old(pending) && final(replica).send_all_upon == old(replica).send_all_upon)
            }
        }),
        queue_extends(final(queue).deep_view(), old(queue).deep_view()),
        old(pending).deep_view().is_prefix_of(final(pending).deep_view()),
{
    let n_minus_f = replica.state.n - replica.state.F;
    let f_plus_1 = replica.state.F + 1;
    if message_type == MsgKind::Done {
        if !replica.state.sent_contains(MsgKind::Done) && cnt >= u32_to_usize(f_plus_1) {
            replica.state.sent_insert(MsgKind::Done);
            send_all_party(replica, queue, msg_to_send, pending);
        } else {
            proof {
                assert(queue.deep_view() =~~= old(queue).deep_view());
                assert(pending.deep_view() =~~= old(pending).deep_view());
            }
        }
        cnt >= u32_to_usize(n_minus_f)
    } else {
        let send_kind = msg_to_send.kind();
        if !replica.state.sent_contains(send_kind) && cnt >= u32_to_usize(n_minus_f) {
            replica.state.sent_insert(send_kind);
            if message_type == MsgKind::Lock {
                send_all_party(replica, queue, msg_to_send, pending);
                true
            } else {
                send_all_upon_join_queue(replica, queue, msg_to_send, pending);
                true
            }
        } else {
            proof {
                assert(queue.deep_view() =~~= old(queue).deep_view());
                assert(pending.deep_view() =~~= old(pending).deep_view());
            }
            false
        }
    }
}

/// The quorum/deduplication hop shared by the Echo, Key1, Key2, Key3, Lock
/// and Done handlers: record one contribution per replica per value per view,
/// and on reaching the threshold mark the next phase sent and broadcast it.
/// Returns whether the strong threshold (n - F contributions) is reached.
pub fn message_transfer_hop(
    replica: &mut Replica,
    val: InputType,
    view: u32,
    queue: &mut Vec<Vec<Msg>>,
    message_type: MsgKind,
    msg_to_send: Msg,
    channel_id: Option<&String>,
    pending: &mut Vec<Msg>,
) -> (r: Result<bool, ContractError>)
    requires
        old(replica).wf(),
        old(replica).in_network(),
        old(queue).deep_view().len() == old(replica).channels.deep_view().len(),
        is_hop_kind(message_type),
    ensures
        final(replica).wf(),
        final(replica).in_network(),
        same_network(*old(replica), *final(replica)),
        r is Err ==> *final(replica) == *old(replica) && *final(queue) == *old(queue)
            && *final(pending) == *old(pending),
        final(replica).state@ == (StateView {
            sent: final(replica).state@.sent,
            ..old(replica).state@
        }),
        forall|kk: MsgKind|
            old(replica).state@.sent.contains(kk) ==> final(replica).state@.sent.contains(kk),
        final(replica).highest_req == old(replica).highest_req,
        final(replica).highest_abort == old(replica).highest_abort,
        final(replica).received_suggest == old(replica).received_suggest,
        final(replica).received_proof == old(replica).received_proof,
        forall|k2: MsgKind|
            is_hop_kind(k2) && k2 != message_type ==> #[trigger] final(replica).table_of(k2)
                == old(replica).table_of(k2),
        forall|h2: u64|
            h2 != input_hash_of(val@) ==> #[trigger] final(replica).table_of(
                message_type,
            ).spec_get(h2) == old(replica).table_of(message_type).spec_get(h2),
        r matches Ok(true) ==> final(replica).table_of(message_type).spec_get(
            input_hash_of(val@),
        ).len() >= old(replica).state@.n - old(replica).state@.fault_bound,
        (view != old(replica).state@.view && !(message_type is Done)) ==> (r matches Ok(false)
            && *final(replica) == *old(replica) && *final(queue) == *old(queue) && *final(pending)
            == *old(pending)),
        ({
            let h = input_hash_of(val@);
            let st = old(replica).state@;
            let ch = old(replica).channels.deep_view();
            let hr = old(replica).highest_req@;
            let filter_ok = view == st.view || message_type is Done;
            let s_opt = resolved_sender(*old(replica), opt_str_view(channel_id));
            let pre = old(replica).table_of(message_type).spec_get(h);
            let send_kind = kind_of(msg_to_send@);
            let nf = st.n - st.fault_bound;
            &&& (r is Err <==> filter_ok && s_opt is None)
            &&& (s_opt matches Some(s) ==> (if !filter_ok {
                true
            } else if pre.contains(s) {
                r matches Ok(false) && *final(replica) == *old(replica) && *final(queue) == *old(queue) && *final(pending) == *old(pending)
            } else {
                let cnt = pre.len() + 1;
                &&& final(replica).table_of(message_type).spec_get(h) == pre.push(s)
                &&& (if message_type is Done {
                    let amplify = !st.sent.contains(MsgKind::Done) && cnt >= st.fault_bound + 1;
                    &&& r == Ok::<bool, ContractError>(cnt >= nf)
                    &&& (amplify ==> final(replica).state@.sent == st.sent.push(MsgKind::Done)
                        && final(queue).deep_view() == broadcast_all(
                        ch,
                        old(queue).deep_view(),
                        msg_to_send@,
                    ) && final(pending).deep_view() == old(pending).deep_view().push(msg_to_send@))
                    &&& (!amplify ==> final(replica).state@.sent == st.sent && *final(queue)
                        == *old(queue) && *final(pending) == *old(pending))
                } else {
                    let fire = !st.sent.contains(send_kind) && cnt >= nf;
                    &&& r == Ok::<bool, ContractError>(fire)
                    &&& (fire ==> final(replica).state@.sent == st.sent.push(send_kind) && final(pending).deep_view() == old(pending).deep_view().push(msg_to_send@))
                    &&& (fire && message_type is Lock ==> final(queue).deep_view()
                        == broadcast_all(ch, old(queue).deep_view(), msg_to_send@))
                    &&& (fire && !(message_type is Lock) ==> final(queue).deep_view()
                        == join_queue(ch, hr, st.view, old(queue).deep_view(), msg_to_send@)
                        && final(replica).send_all_upon.deep_view() == join_buffers(
                        ch,
                        hr,
                        st.view,
                        old(replica).send_all_upon.deep_view(),
                        msg_to_send@,
                    ))
                    &&& (!fire ==> final(replica).state@.sent == st.sent && *final(queue) == *old(queue) && *final(pending) == *old(pending))
                })
            }))
        }),
        queue_extends(final(queue).deep_view(), old(queue).deep_view()),
        old(pending).deep_view().is_prefix_of(final(pending).deep_view()),
{
    let recorded = hop_record(replica, val, view, message_type, channel_id)?;
    match recorded {
        None => {
            proof {
                assert(queue.deep_view() =~~= old(queue).deep_view());
                assert(pending.deep_view() =~~= old(pending).deep_view());
            }
            Ok(false)
        },
        Some(cnt) => {
            let hit = hop_threshold(replica, queue, message_type, msg_to_send, pending, cnt);
            Ok(hit)
        },
    }
}


/// Whether `x` occurs in `v`.
fn vec_u32_contains(v: &Vec<u32>, x: u32) -> (r: bool)
    ensures
        r == v@.contains(x),
{
    let mut i: usize = 0;
    while i < v.len()
        invariant
            0 <= i <= v@.len(),
            forall|j: int| 0 <= j < i ==> v@[j] != x,
        decreases v@.len() - i,
    {
        if v[i] == x {
            return true;
        }
        i = i + 1;
    }
    false
}

/// A copy of an evidence list.
pub(crate) fn clone_proofs(v: &Vec<(u32, InputType, i64)>) -> (r: Vec<(u32, InputType, i64)>)
    ensures
        r.deep_view() == v.deep_view(),
{
    let mut out: Vec<(u32, InputType, i64)> = Vec::new();
    let mut i: usize = 0;
    while i < v.len()
        invariant
            0 <= i <= v@.len(),
            v.deep_view().len() == v@.len(),
            out.deep_view() =~~= v.deep_view().take(i as int),
        decreases v@.len() - i,
    {
        let p = &v[i];
        let ghost pre = out.deep_view();
        out.push((p.0, p.1.clone(), p.2));
        proof {
            assert(v.deep_view()[i as int] == (v@[i as int].0, v@[i as int].1@, v@[i as int].2));
            assert(out.deep_view() =~~= pre.push(v.deep_view()[i as int]));
            assert(v.deep_view().take(i + 1).drop_last() =~~= v.deep_view().take(i as int));
            assert(v.deep_view().take(i + 1).last() == v.deep_view()[i as int]);
            assert(out.deep_view() =~~= v.deep_view().take(i + 1));
        }
        i = i + 1;
    }
    proof {
        assert(v.deep_view().take(v.deep_view().len() as int) =~~= v.deep_view());
    }
    out
}

/// The position of a suggestion with the greatest height.
fn max_height_index(v: &Vec<(u32, InputType)>) -> (r: usize)
    requires
        v@.len() > 0,
    ensures
        r < v@.len(),
        forall|j: int| 0 <= j < v@.len() ==> (#[trigger] v@[j]).0 <= v@[r as int].0,
{
    let mut best: usize = 0;
    let mut i: usize = 1;
    while i < v.len()
        invariant
            0 < v@.len(),
            best < i <= v@.len(),
            forall|j: int| 0 <= j < i ==> (#[trigger] v@[j]).0 <= v@[best as int].0,
        decreases v@.len() - i,
    {
        if v[i].0 > v[best].0 {
            best = i;
        }
        i = i + 1;
    }
    best
}

/// Move the join-on-request buffer of destination `idx` into its outbound
/// slot, leaving the buffer empty.
fn flush_buffer(replica: &mut Replica, queue: &mut Vec<Vec<Msg>>, idx: usize)
    requires
        old(replica).wf(),
        idx < old(queue)@.len(),
        old(queue).deep_view().len() == old(replica).send_all_upon.deep_view().len(),
    ensures
        final(replica).wf(),
        final(replica).state == old(replica).state,
        final(replica).highest_req == old(replica).highest_req,
        final(replica).highest_abort == old(replica).highest_abort,
        final(replica).channels == old(replica).channels,
        final(replica).received_suggest == old(replica).received_suggest,
        final(replica).received_proof == old(replica).received_proof,
        final(replica).received_echo == old(replica).received_echo,
        final(replica).received_key1 == old(replica).received_key1,
        final(replica).received_key2 == old(replica).received_key2,
        final(replica).received_key3 == old(replica).received_key3,
        final(replica).received_lock == old(replica).received_lock,
        final(replica).received_done == old(replica).received_done,
        final(replica).send_all_upon.deep_view() == old(replica).send_all_upon.deep_view().update(
            idx as int,
            Seq::<MsgView>::empty(),
        ),
        final(queue).deep_view() == old(queue).deep_view().update(
            idx as int,
            old(queue).deep_view()[idx as int] + old(replica).send_all_upon.deep_view()[idx as int],
        ),
        queue_extends(final(queue).deep_view(), old(queue).deep_view()),
{
    let ghost oldsau = old(replica).send_all_upon.deep_view();
    let ghost olddq = old(queue).deep_view();
    let mut taken: Vec<Msg> = Vec::new();
    replica.send_all_upon.set_and_swap(idx, &mut taken);
    proof {
        assert(replica.send_all_upon.deep_view() =~~= oldsau.update(
            idx as int,
            Seq::<MsgView>::empty(),
        ));
        assert(taken.deep_view() == oldsau[idx as int]);
    }
    let slot = queue_slot_mut(queue, idx);
    let ghost slot0 = slot.deep_view();
    let mut j: usize = 0;
    while j < taken.len()
        invariant
            0 <= j <= taken@.len(),
            taken.deep_view().len() == taken@.len(),
            slot.deep_view() =~~= slot0 + taken.deep_view().take(j as int),
        decreases taken@.len() - j,
    {
        let m = &taken[j];
        let ghost pre = slot.deep_view();
        slot.push(m.clone());
        proof {
            assert(taken.deep_view()[j as int] == taken@[j as int]@);
            assert(slot.deep_view() =~~= pre.push(taken.deep_view()[j as int]));
            assert(taken.deep_view().take(j + 1).drop_last() =~~= taken.deep_view().take(j as int));
            assert(taken.deep_view().take(j + 1).last() == taken.deep_view()[j as int]);
            assert(slot.deep_view() =~~= slot0 + taken.deep_view().take(j + 1));
        }
        j = j + 1;
    }
    proof {
        assert(taken.deep_view().take(taken.deep_view().len() as int) =~~= taken.deep_view());
        assert(slot.deep_view() =~~= slot0 + oldsau[idx as int]);
        assert(queue.deep_view() =~~= olddq.update(
            idx as int,
            olddq[idx as int] + oldsau[idx as int],
        ));
        assert forall|i: int|
            0 <= i < olddq.len() implies olddq[i].is_prefix_of(#[trigger] queue.deep_view()[i]) by {
            if i == idx {
                assert(queue.deep_view()[i] == olddq[i] + oldsau[i]);
                assert(olddq[i].is_prefix_of(olddq[i] + oldsau[i]));
            }
        }
    }
}

/// Whether a Propose from `chain_id` makes the replica broadcast an Echo: the
/// proposal must be the view's first, come from the primary, and either meet
/// no lock, repeat the locked value, or carry enough proofs to open the lock.
pub open spec fn propose_echo_condition(
    st: StateView,
    chain_id: u32,
    k: u32,
    v: TBInputView,
    view: u32,
) -> bool {
    &&& view == st.view
    &&& !st.received_propose
    &&& chain_id == st.primary
    &&& (st.lock == 0 || v == st.lock_val || (view > k && k >= st.lock && open_support(
        st.proofs,
        st.lock,
        st.lock_val,
    ) >= st.fault_bound + 1))
}

/// Handle a Propose message: accept at most one per view, only from the
/// primary, and broadcast an Echo for the proposed value exactly when
/// [`propose_echo_condition`] holds.
pub fn handle_propose(
    replica: &mut Replica,
    queue: &mut Vec<Vec<Msg>>,
    _local_channel_id: Option<&String>,
    chain_id: u32,
    k: u32,
    v: InputType,
    view: u32,
    pending: &mut Vec<Msg>,
) -> (r: Result<(), ContractError>)
    requires
        old(replica).wf(),
        old(replica).in_network(),
        old(queue).deep_view().len() == old(replica).channels.deep_view().len(),
    ensures
        r is Ok,
        final(replica).wf(),
        final(replica).in_network(),
        same_network(*old(replica), *final(replica)),
        final(replica).state@ == (StateView {
            received_propose: final(replica).state@.received_propose,
            ..old(replica).state@
        }),
        final(replica).state@.received_propose == (old(replica).state@.received_propose || (view
            == old(replica).state@.view && chain_id == old(replica).state@.primary)),
        final(replica).highest_req == old(replica).highest_req,
        final(replica).highest_abort == old(replica).highest_abort,
        final(replica).received_suggest == old(replica).received_suggest,
        final(replica).received_proof == old(replica).received_proof,
        final(replica).received_echo == old(replica).received_echo,
        final(replica).received_key1 == old(replica).received_key1,
        final(replica).received_key2 == old(replica).received_key2,
        final(replica).received_key3 == old(replica).received_key3,
        final(replica).received_lock == old(replica).received_lock,
        final(replica).received_done == old(replica).received_done,
        final(pending).deep_view() == (if propose_echo_condition(
            old(replica).state@,
            chain_id,
            k,
            v@,
            view,
        ) {
            old(pending).deep_view().push(MsgView::Echo { val: v@, view })
        } else {
            old(pending).deep_view()
        }),
        !propose_echo_condition(old(replica).state@, chain_id, k, v@, view) ==> (*final(queue)
            == *old(queue) && final(replica).send_all_upon == old(replica).send_all_upon),
        propose_echo_condition(old(replica).state@, chain_id, k, v@, view)
            ==> (final(queue).deep_view() == join_queue(
            old(replica).channels.deep_view(),
            old(replica).highest_req@,
            old(replica).state@.view,
            old(queue).deep_view(),
            MsgView::Echo { val: v@, view },
        ) && final(replica).send_all_upon.deep_view() == join_buffers(
            old(replica).channels.deep_view(),
            old(replica).highest_req@,
            old(replica).state@.view,
            old(replica).send_all_upon.deep_view(),
            MsgView::Echo { val: v@, view },
        )),
        queue_extends(final(queue).deep_view(), old(queue).deep_view()),
{
    if view != replica.state.view {
        return Ok(());
    }
    if !replica.state.received_propose && chain_id == replica.state.primary {
        let mut broadcast = false;
        replica.state.received_propose = true;
        if replica.state.lock == 0 || v == replica.state.lock_val {
            broadcast = true;
        } else if view > k && k >= replica.state.lock {
            if open_lock(&replica.state, &replica.state.proofs) {
                broadcast = true;
            }
        }
        if broadcast {
            let echo_packet = Msg::Echo { val: v, view };
            send_all_upon_join_queue(replica, queue, echo_packet, pending);
        }
    }
    Ok(())
}

/// Handle a Request message: raise the sender's announced view, and when the
/// sender just caught up with the current view, send it the Suggest it is
/// owed (if it is the primary) and flush its join-on-request buffer.
pub fn handle_request(
    replica: &mut Replica,
    queue: &mut Vec<Vec<Msg>>,
    view: u32,
    chain_id: u32,
) -> (r: Result<(), ContractError>)
    requires
        old(replica).wf(),
        old(replica).in_network(),
        old(queue).deep_view().len() == old(replica).channels.deep_view().len(),
    ensures
        final(replica).wf(),
        final(replica).in_network(),
        same_network(*old(replica), *final(replica)),
        r is Err <==> chain_id >= old(replica).state@.n,
        r is Err ==> *final(replica) == *old(replica) && *final(queue) == *old(queue),
        final(replica).state@ == (StateView {
            sent: final(replica).state@.sent,
            ..old(replica).state@
        }),
        forall|kk: MsgKind|
            old(replica).state@.sent.contains(kk) ==> final(replica).state@.sent.contains(kk),
        r is Ok ==> final(replica).highest_req@ == (if old(replica).highest_req@[chain_id as int]
            < view {
            old(replica).highest_req@.update(chain_id as int, view)
        } else {
            old(replica).highest_req@
        }),
        final(replica).highest_abort == old(replica).highest_abort,
        final(replica).received_suggest == old(replica).received_suggest,
        final(replica).received_proof == old(replica).received_proof,
        final(replica).received_echo == old(replica).received_echo,
        final(replica).received_key1 == old(replica).received_key1,
        final(replica).received_key2 == old(replica).received_key2,
        final(replica).received_key3 == old(replica).received_key3,
        final(replica).received_lock == old(replica).received_lock,
        final(replica).received_done == old(replica).received_done,
        forall|i: int|
            0 <= i < old(replica).send_all_upon.deep_view().len() && i != chain_id
                ==> #[trigger] final(replica).send_all_upon.deep_view()[i] == old(replica).send_all_upon.deep_view()[i],
        r is Ok ==> ({
            let st = old(replica).state@;
            let active = old(replica).highest_req@[chain_id as int] < view && view == st.view;
            let owe = active && chain_id == st.primary && !st.sent.contains(MsgKind::Suggest);
            let suggest = MsgView::Suggest {
                chain_id: st.chain_id,
                view: st.view,
                key2: st.key2,
                key2_val: st.key2_val,
                prev_key2: st.prev_key2,
                key3: st.key3,
                key3_val: st.key3_val,
            };
            &&& (!active ==> *final(queue) == *old(queue) && final(replica).send_all_upon == old(replica).send_all_upon && final(replica).state == old(replica).state)
            &&& (active ==> final(queue).deep_view() == old(queue).deep_view().update(
                chain_id as int,
                old(queue).deep_view()[chain_id as int] + (if owe {
                    seq![suggest]
                } else {
                    Seq::<MsgView>::empty()
                }) + old(replica).send_all_upon.deep_view()[chain_id as int],
            ) && final(replica).send_all_upon.deep_view() == old(replica).send_all_upon.deep_view().update(
                chain_id as int,
                Seq::<MsgView>::empty(),
            ))
            &&& (active && owe ==> final(replica).state@.sent == st.sent.push(MsgKind::Suggest))
            &&& (active && !owe ==> final(replica).state@.sent == st.sent)
        }),
        queue_extends(final(queue).deep_view(), old(queue).deep_view()),
{
    let idx = u32_to_usize(chain_id);
    if idx >= replica.highest_req.len() {
        return Err(ContractError::StateNotFound);
    }
    let highest_request = replica.highest_req[idx];
    if highest_request < view {
        replica.highest_req.set(idx, view);
        if view == replica.state.view {
            let ghost q0 = queue.deep_view();
            let ghost sau0 = replica.send_all_upon.deep_view();
            let ghost sv = (MsgView::Suggest {
                chain_id: replica.state@.chain_id,
                view: replica.state@.view,
                key2: replica.state@.key2,
                key2_val: replica.state@.key2_val,
                prev_key2: replica.state@.prev_key2,
                key3: replica.state@.key3,
                key3_val: replica.state@.key3_val,
            });
            let owed = chain_id == replica.state.primary && !replica.state.sent_contains(
                MsgKind::Suggest,
            );
            if owed {
                let packet = Msg::Suggest {
                    chain_id: replica.state.chain_id,
                    view: replica.state.view,
                    key2: replica.state.key2,
                    key2_val: replica.state.key2_val.clone(),
                    prev_key2: replica.state.prev_key2,
                    key3: replica.state.key3,
                    key3_val: replica.state.key3_val.clone(),
                };
                proof {
                    assert(packet@ == sv);
                }
                replica.state.sent_insert(MsgKind::Suggest);
                let slot = queue_slot_mut(queue, idx);
                slot.push(packet);
                proof {
                    assert(queue.deep_view() =~~= q0.update(idx as int, q0[idx as int].push(sv)));
                    assert(queue_extends(queue.deep_view(), q0));
                }
            }
            let ghost mid = queue.deep_view();
            flush_buffer(replica, queue, idx);
            proof {
                lemma_queue_extends_transitive(old(queue).deep_view(), mid, queue.deep_view());
                assert(queue.deep_view() =~~= mid.update(
                    idx as int,
                    mid[idx as int] + sau0[idx as int],
                ));
                if owed {
                    assert(mid[idx as int] =~~= q0[idx as int].push(sv));
                    assert(q0[idx as int].push(sv) + sau0[idx as int] =~~= q0[idx as int] + seq![
                        sv,
                    ] + sau0[idx as int]);
                } else {
                    assert(mid[idx as int] + sau0[idx as int] =~~= q0[idx as int] + Seq::<
                        MsgView,
                    >::empty() + sau0[idx as int]);
                }
                assert(queue.deep_view() =~~= q0.update(
                    idx as int,
                    q0[idx as int] + (if owed {
                        seq![sv]
                    } else {
                        Seq::<MsgView>::empty()
                    }) + sau0[idx as int],
                ));
            }
        }
    }
    Ok(())
}

/// Prefix extension of a single message list is transitive.
pub(crate) proof fn lemma_prefix_transitive(a: Seq<MsgView>, b: Seq<MsgView>, c: Seq<MsgView>)
    requires
        a.is_prefix_of(b),
        b.is_prefix_of(c),
    ensures
        a.is_prefix_of(c),
{
    assert(a =~= c.subrange(0, a.len() as int));
}

/// Slotwise prefix extension is transitive.
pub(crate) proof fn lemma_queue_extends_transitive(a: Seq<Seq<MsgView>>, b: Seq<Seq<MsgView>>, c: Seq<Seq<MsgView>>)
    requires
        queue_extends(b, a),
        queue_extends(c, b),
    ensures
        queue_extends(c, a),
{
    assert forall|i: int| 0 <= i < a.len() implies a[i].is_prefix_of(#[trigger] c[i]) by {
        assert(a[i].is_prefix_of(b[i]));
        assert(b[i].is_prefix_of(c[i]));
        assert(a[i] =~= c[i].subrange(0, a[i].len() as int));
    }
}


/// Handle a Suggest message (primary only): record the sender once, collect
/// key2 evidence, accept the suggested candidate when the accept predicate
/// holds, and once n - F suggestions are in, propose the one with the
/// greatest height.
#[verifier::rlimit(100)]
#[verifier::spinoff_prover]
pub fn handle_suggest(
    replica: &mut Replica,
    queue: &mut Vec<Vec<Msg>>,
    chain_id: u32,
    view: u32,
    key2: u32,
    key2_val: InputType,
    prev_key2: i64,
    key3: u32,
    key3_val: InputType,
    pending: &mut Vec<Msg>,
) -> (r: Result<(), ContractError>)
    requires
        old(replica).wf(),
        old(replica).in_network(),
        old(queue).deep_view().len() == old(replica).channels.deep_view().len(),
    ensures
        r is Ok,
        final(replica).wf(),
        final(replica).in_network(),
        same_network(*old(replica), *final(replica)),
        queue_extends(final(queue).deep_view(), old(queue).deep_view()),
        (old(replica).state@.primary != old(replica).state@.chain_id
            || old(replica).received_suggest@.contains(chain_id))
            ==> (*final(replica) == *old(replica) && *final(queue) == *old(queue)
            && *final(pending) == *old(pending)),
        final(replica).state@ == (StateView {
            key2_proofs: final(replica).state@.key2_proofs,
            suggestions: final(replica).state@.suggestions,
            sent: final(replica).state@.sent,
            ..old(replica).state@
        }),
        forall|kk: MsgKind|
            old(replica).state@.sent.contains(kk) ==> final(replica).state@.sent.contains(kk),
        final(replica).received_suggest@ == old(replica).received_suggest@
            || final(replica).received_suggest@ == old(replica).received_suggest@.push(chain_id),
        final(replica).received_proof == old(replica).received_proof,
        final(replica).highest_req == old(replica).highest_req,
        final(replica).highest_abort == old(replica).highest_abort,
        final(replica).received_echo == old(replica).received_echo,
        final(replica).received_key1 == old(replica).received_key1,
        final(replica).received_key2 == old(replica).received_key2,
        final(replica).received_key3 == old(replica).received_key3,
        final(replica).received_lock == old(replica).received_lock,
        final(replica).received_done == old(replica).received_done,
        final(replica).state@.key2_proofs == old(replica).state@.key2_proofs
            || (final(replica).state@.key2_proofs == old(replica).state@.key2_proofs.push(
            (key2, key2_val@, prev_key2),
        ) && prev_key2 < key2 as i64 && key2 < view),
        final(replica).state@.suggestions == old(replica).state@.suggestions
            || (final(replica).state@.suggestions == old(replica).state@.suggestions.push(
            (key3, key3_val@),
        ) && (key3 == 0 || (key3 < view && accept_support(
            final(replica).state@.key2_proofs,
            key3,
            key3_val@,
        ) >= 2))),
        final(pending).deep_view() == old(pending).deep_view() || (exists|j: int|
            0 <= j < final(replica).state@.suggestions.len() && final(pending).deep_view() == old(pending).deep_view().push(
                MsgView::Propose {
                    chain_id: old(replica).state@.chain_id,
                    k: final(replica).state@.suggestions[j].0,
                    v: final(replica).state@.suggestions[j].1,
                    view: old(replica).state@.view,
                },
            ) && (forall|i: int|
                0 <= i < final(replica).state@.suggestions.len()
                    ==> (#[trigger] final(replica).state@.suggestions[i]).0
                    <= final(replica).state@.suggestions[j].0)
                && final(replica).state@.suggestions.len()
                >= old(replica).state@.n - old(replica).state@.fault_bound),
        ({
            let st = old(replica).state@;
            let fresh = st.primary == st.chain_id && !old(replica).received_suggest@.contains(
                chain_id,
            );
            &&& (fresh ==> final(replica).received_suggest@ == old(replica).received_suggest@.push(chain_id))
            &&& (fresh ==> final(replica).state@.key2_proofs == (
            if prev_key2 < key2 as i64 && key2 < view {
                st.key2_proofs.push((key2, key2_val@, prev_key2))
            } else {
                st.key2_proofs
            }))
            &&& (fresh ==> final(replica).state@.suggestions == (
            if key3 == 0 || (key3 < view && accept_support(
                final(replica).state@.key2_proofs,
                key3,
                key3_val@,
            ) >= 2) {
                st.suggestions.push((key3, key3_val@))
            } else {
                st.suggestions
            }))
            &&& (fresh ==> ({
                let threshold = !st.sent.contains(MsgKind::Propose) && final(replica).state@.suggestions.len() >= st.n - st.fault_bound;
                &&& (threshold ==> final(replica).state@.sent == st.sent.push(MsgKind::Propose))
                &&& (!threshold ==> final(replica).state@.sent == st.sent && *final(pending)
                    == *old(pending) && *final(queue) == *old(queue) && final(replica).send_all_upon == old(replica).send_all_upon)
            }))
        }),
{
    let n_minus_f = u32_to_usize(replica.state.n - replica.state.F);
    proof {
        assert(old(replica).state@.fault_bound < old(replica).state@.n);
        assert(n_minus_f >= 1);
    }
    if replica.state.primary == replica.state.chain_id {
        if !vec_u32_contains(&replica.received_suggest, chain_id) {
            replica.received_suggest.push(chain_id);
            if prev_key2 < key2 as i64 && key2 < view {
                replica.state.key2_proofs.push((key2, key2_val.clone(), prev_key2));
                proof {
                    assert(replica.state@.key2_proofs =~~= old(replica).state@.key2_proofs.push(
                        (key2, key2_val@, prev_key2),
                    ));
                }
            }
            let ghost kp = replica.state@.key2_proofs;
            if key3 == 0 {
                replica.state.suggestions.push((key3, key3_val.clone()));
                proof {
                    assert(replica.state@.suggestions =~~= old(replica).state@.suggestions.push(
                        (key3, key3_val@),
                    ));
                }
            } else if key3 < view {
                if accept_key(key3, key3_val.clone(), clone_proofs(&replica.state.key2_proofs)) {
                    replica.state.suggestions.push((key3, key3_val.clone()));
                    proof {
                        assert(replica.state@.suggestions =~~= old(replica).state@.suggestions.push((key3, key3_val@)));
                    }
                }
            }
            if !replica.state.sent_contains(MsgKind::Propose) && replica.state.suggestions.len()
                >= n_minus_f {
                proof {
                    assert(replica.state.suggestions@.len() >= n_minus_f >= 1);
                }
                replica.state.sent_insert(MsgKind::Propose);
                let best = max_height_index(&replica.state.suggestions);
                let bs = &replica.state.suggestions[best];
                let propose_packet = Msg::Propose {
                    chain_id: replica.state.chain_id,
                    k: bs.0,
                    v: bs.1.clone(),
                    view: replica.state.view,
                };
                proof {
                    assert(propose_packet@ == (MsgView::Propose {
                        chain_id: replica.state@.chain_id,
                        k: replica.state@.suggestions[best as int].0,
                        v: replica.state@.suggestions[best as int].1,
                        view: replica.state@.view,
                    }));
                    assert forall|i: int|
                        0 <= i < replica.state@.suggestions.len() implies (#[trigger] replica.state@.suggestions[i]).0
                        <= replica.state@.suggestions[best as int].0 by {
                        assert(replica.state@.suggestions[i] == (
                            replica.state.suggestions@[i].0,
                            replica.state.suggestions@[i].1@,
                        ));
                    }
                }
                send_all_upon_join_queue(replica, queue, propose_packet, pending);
            }
        }
    }
    Ok(())
}

/// Handle a Proof message: record the sender once, and append the proof to
/// the local evidence list when its heights are consistent with the view.
pub fn handle_proof(
    replica: &mut Replica,
    local_channel_id: Option<&String>,
    key1: u32,
    key1_val: InputType,
    prev_key1: i64,
    view: u32,
) -> (r: Result<(), ContractError>)
    requires
        old(replica).wf(),
        old(replica).in_network(),
    ensures
        final(replica).wf(),
        final(replica).in_network(),
        same_network(*old(replica), *final(replica)),
        r is Err ==> *final(replica) == *old(replica),
        final(replica).state@ == (StateView {
            proofs: final(replica).state@.proofs,
            ..old(replica).state@
        }),
        final(replica).state@.proofs == old(replica).state@.proofs
            || (final(replica).state@.proofs == old(replica).state@.proofs.push(
            (key1, key1_val@, prev_key1),
        ) && view > key1 && key1 as i64 > prev_key1),
        ({
            let s_opt = resolved_sender(*old(replica), opt_str_view(local_channel_id));
            &&& (r is Err <==> s_opt is None)
            &&& (s_opt matches Some(s) ==> (if old(replica).received_proof@.contains(s) {
                *final(replica) == *old(replica)
            } else {
                final(replica).received_proof@ == old(replica).received_proof@.push(s) && final(replica).state@.proofs == (if view > key1 && key1 as i64 > prev_key1 {
                    old(replica).state@.proofs.push((key1, key1_val@, prev_key1))
                } else {
                    old(replica).state@.proofs
                })
            }))
        }),
        final(replica).received_suggest == old(replica).received_suggest,
        final(replica).received_proof@ == old(replica).received_proof@ || exists|s: u32|
            !old(replica).received_proof@.contains(s) && final(replica).received_proof@
                == old(replica).received_proof@.push(s),
        final(replica).highest_req == old(replica).highest_req,
        final(replica).highest_abort == old(replica).highest_abort,
        final(replica).send_all_upon == old(replica).send_all_upon,
        final(replica).received_echo == old(replica).received_echo,
        final(replica).received_key1 == old(replica).received_key1,
        final(replica).received_key2 == old(replica).received_key2,
        final(replica).received_key3 == old(replica).received_key3,
        final(replica).received_lock == old(replica).received_lock,
        final(replica).received_done == old(replica).received_done,
{
    let chain_id: u32 = match local_channel_id {
        Some(id) => crate::utils::get_chain_id(replica, id.clone())?,
        None => replica.state.chain_id,
    };
    if !vec_u32_contains(&replica.received_proof, chain_id) {
        replica.received_proof.push(chain_id);
        if view > key1 && (key1 as i64) > prev_key1 {
            replica.state.proofs.push((key1, key1_val, prev_key1));
            proof {
                assert(replica.state@.proofs =~~= old(replica).state@.proofs.push(
                    (key1, key1_val@, prev_key1),
                ));
            }
        }
    }
    Ok(())
}

/// Whether a phase delivery completes its strong quorum this call: the view
/// matches, the sender resolves and is fresh for the value, the count
/// reaches n - F, and the next phase was not yet broadcast.
pub open spec fn phase_quorum_completes(
    r: Replica,
    kind: MsgKind,
    next: MsgKind,
    val: TBInputView,
    view: u32,
    channel: Option<Seq<char>>,
) -> bool {
    let st = r.state@;
    let h = input_hash_of(val);
    &&& view == st.view
    &&& match resolved_sender(r, channel) {
        Some(s) => !r.table_of(kind).spec_get(h).contains(s) && r.table_of(kind).spec_get(
            h,
        ).len() + 1 >= st.n - st.fault_bound,
        None => false,
    }
    &&& !st.sent.contains(next)
}

/// Whether a Lock delivery completes the lock quorum this call; the phase
/// that follows a Lock quorum is the Done broadcast.
pub open spec fn lock_quorum_completes(
    r: Replica,
    val: TBInputView,
    view: u32,
    channel: Option<Seq<char>>,
) -> bool {
    phase_quorum_completes(r, MsgKind::Lock, MsgKind::Done, val, view, channel)
}

/// Whether a Done delivery completes the decision quorum this call: the
/// sender resolves and is fresh for the value, and the count reaches n - F.
/// Done is exempt from the per-view filter.
pub open spec fn done_quorum_completes(
    r: Replica,
    val: TBInputView,
    channel: Option<Seq<char>>,
) -> bool {
    let h = input_hash_of(val);
    match resolved_sender(r, channel) {
        Some(s) => !r.received_done.spec_get(h).contains(s) && r.received_done.spec_get(h).len()
            + 1 >= r.state@.n - r.state@.fault_bound,
        None => false,
    }
}

/// Handle an Echo message: on a strong quorum of echoes for the value,
/// advance the key1 certificate to the current view.
pub fn handle_echo(
    replica: &mut Replica,
    queue: &mut Vec<Vec<Msg>>,
    local_channel_id: Option<&String>,
    val: InputType,
    view: u32,
    pending: &mut Vec<Msg>,
) -> (r: Result<(), ContractError>)
    requires
        old(replica).wf(),
        old(replica).in_network(),
        old(queue).deep_view().len() == old(replica).channels.deep_view().len(),
    ensures
        final(replica).wf(),
        final(replica).in_network(),
        same_network(*old(replica), *final(replica)),
        queue_extends(final(queue).deep_view(), old(queue).deep_view()),
        final(replica).state@ == (StateView {
            sent: final(replica).state@.sent,
            key1: final(replica).state@.key1,
            key1_val: final(replica).state@.key1_val,
            prev_key1: final(replica).state@.prev_key1,
            ..old(replica).state@
        }),
        ({
            let st = old(replica).state@;
            let fst = final(replica).state@;
            let adv = phase_quorum_completes(
                *old(replica),
                MsgKind::Echo,
                MsgKind::Key1,
                val@,
                view,
                opt_str_view(local_channel_id),
            );
            &&& (adv ==> fst.key1 == view && fst.key1_val == val@ && fst.prev_key1 == (
            if st.key1_val == val@ {
                st.prev_key1
            } else {
                st.key1 as i64
            }))
            &&& (!adv ==> fst.key1 == st.key1 && fst.key1_val == st.key1_val && fst.prev_key1
                == st.prev_key1)
            &&& (adv ==> fst.sent == st.sent.push(MsgKind::Key1) && final(pending).deep_view()
                == old(pending).deep_view().push(MsgView::Key1 { val: val@, view })
                && final(queue).deep_view() == join_queue(
                old(replica).channels.deep_view(),
                old(replica).highest_req@,
                st.view,
                old(queue).deep_view(),
                MsgView::Key1 { val: val@, view },
            ))
            &&& (r is Err <==> (view == st.view && resolved_sender(
                *old(replica),
                opt_str_view(local_channel_id),
            ) is None))
        }),
{
    let key1_packet = Msg::Key1 { val: val.clone(), view };
    let hit = message_transfer_hop(
        replica,
        val.clone(),
        view,
        queue,
        MsgKind::Echo,
        key1_packet,
        local_channel_id,
        pending,
    )?;
    if hit {
        if !(replica.state.key1_val == val) {
            replica.state.prev_key1 = replica.state.key1 as i64;
            replica.state.key1_val = val;
            replica.state.key1 = view;
        } else {
            replica.state.key1 = view;
        }
    }
    Ok(())
}

/// Handle a Key1 message: on a strong quorum, advance the key2 certificate.
pub fn handle_key1(
    replica: &mut Replica,
    queue: &mut Vec<Vec<Msg>>,
    local_channel_id: Option<&String>,
    val: InputType,
    view: u32,
    pending: &mut Vec<Msg>,
) -> (r: Result<(), ContractError>)
    requires
        old(replica).wf(),
        old(replica).in_network(),
        old(queue).deep_view().len() == old(replica).channels.deep_view().len(),
    ensures
        final(replica).wf(),
        final(replica).in_network(),
        same_network(*old(replica), *final(replica)),
        queue_extends(final(queue).deep_view(), old(queue).deep_view()),
        final(replica).state@ == (StateView {
            sent: final(replica).state@.sent,
            key2: final(replica).state@.key2,
            key2_val: final(replica).state@.key2_val,
            prev_key2: final(replica).state@.prev_key2,
            ..old(replica).state@
        }),
        ({
            let st = old(replica).state@;
            let fst = final(replica).state@;
            let adv = phase_quorum_completes(
                *old(replica),
                MsgKind::Key1,
                MsgKind::Key2,
                val@,
                view,
                opt_str_view(local_channel_id),
            );
            &&& (adv ==> fst.key2 == view && fst.key2_val == val@ && fst.prev_key2 == (
            if st.key2_val == val@ {
                st.prev_key2
            } else {
                st.key2 as i64
            }))
            &&& (!adv ==> fst.key2 == st.key2 && fst.key2_val == st.key2_val && fst.prev_key2
                == st.prev_key2)
            &&& (adv ==> fst.sent == st.sent.push(MsgKind::Key2) && final(pending).deep_view()
                == old(pending).deep_view().push(MsgView::Key2 { val: val@, view })
                && final(queue).deep_view() == join_queue(
                old(replica).channels.deep_view(),
                old(replica).highest_req@,
                st.view,
                old(queue).deep_view(),
                MsgView::Key2 { val: val@, view },
            ))
            &&& (r is Err <==> (view == st.view && resolved_sender(
                *old(replica),
                opt_str_view(local_channel_id),
            ) is None))
        }),
{
    let key2_packet = Msg::Key2 { val: val.clone(), view };
    let hit = message_transfer_hop(
        replica,
        val.clone(),
        view,
        queue,
        MsgKind::Key1,
        key2_packet,
        local_channel_id,
        pending,
    )?;
    if hit {
        if !(replica.state.key2_val == val) {
            replica.state.prev_key2 = replica.state.key2 as i64;
            replica.state.key2_val = val;
            replica.state.key2 = view;
        } else {
            replica.state.key2 = view;
        }
    }
    Ok(())
}

/// Handle a Key2 message: on a strong quorum, advance the key3 certificate.
pub fn handle_key2(
    replica: &mut Replica,
    queue: &mut Vec<Vec<Msg>>,
    local_channel_id: Option<&String>,
    val: InputType,
    view: u32,
    pending: &mut Vec<Msg>,
) -> (r: Result<(), ContractError>)
    requires
        old(replica).wf(),
        old(replica).in_network(),
        old(queue).deep_view().len() == old(replica).channels.deep_view().len(),
    ensures
        final(replica).wf(),
        final(replica).in_network(),
        same_network(*old(replica), *final(replica)),
        queue_extends(final(queue).deep_view(), old(queue).deep_view()),
        final(replica).state@ == (StateView {
            sent: final(replica).state@.sent,
            key3: final(replica).state@.key3,
            key3_val: final(replica).state@.key3_val,
            ..old(replica).state@
        }),
        ({
            let st = old(replica).state@;
            let fst = final(replica).state@;
            let adv = phase_quorum_completes(
                *old(replica),
                MsgKind::Key2,
                MsgKind::Key3,
                val@,
                view,
                opt_str_view(local_channel_id),
            );
            &&& (adv ==> fst.key3 == view && fst.key3_val == val@)
            &&& (!adv ==> fst.key3 == st.key3 && fst.key3_val == st.key3_val)
            &&& (adv ==> fst.sent == st.sent.push(MsgKind::Key3) && final(pending).deep_view()
                == old(pending).deep_view().push(MsgView::Key3 { val: val@, view })
                && final(queue).deep_view() == join_queue(
                old(replica).channels.deep_view(),
                old(replica).highest_req@,
                st.view,
                old(queue).deep_view(),
                MsgView::Key3 { val: val@, view },
            ))
            &&& (r is Err <==> (view == st.view && resolved_sender(
                *old(replica),
                opt_str_view(local_channel_id),
            ) is None))
        }),
{
    let key3_packet = Msg::Key3 { val: val.clone(), view };
    let hit = message_transfer_hop(
        replica,
        val.clone(),
        view,
        queue,
        MsgKind::Key2,
        key3_packet,
        local_channel_id,
        pending,
    )?;
    if hit {
        replica.state.key3 = view;
        replica.state.key3_val = val;
    }
    Ok(())
}

/// Handle a Key3 message: on a strong quorum, advance the lock certificate.
pub fn handle_key3(
    replica: &mut Replica,
    queue: &mut Vec<Vec<Msg>>,
    local_channel_id: Option<&String>,
    val: InputType,
    view: u32,
    pending: &mut Vec<Msg>,
) -> (r: Result<(), ContractError>)
    requires
        old(replica).wf(),
        old(replica).in_network(),
        old(queue).deep_view().len() == old(replica).channels.deep_view().len(),
    ensures
        final(replica).wf(),
        final(replica).in_network(),
        same_network(*old(replica), *final(replica)),
        queue_extends(final(queue).deep_view(), old(queue).deep_view()),
        final(replica).state@ == (StateView {
            sent: final(replica).state@.sent,
            lock: final(replica).state@.lock,
            lock_val: final(replica).state@.lock_val,
            ..old(replica).state@
        }),
        ({
            let st = old(replica).state@;
            let fst = final(replica).state@;
            let adv = phase_quorum_completes(
                *old(replica),
                MsgKind::Key3,
                MsgKind::Lock,
                val@,
                view,
                opt_str_view(local_channel_id),
            );
            &&& (adv ==> fst.lock == view && fst.lock_val == val@)
            &&& (!adv ==> fst.lock == st.lock && fst.lock_val == st.lock_val)
            &&& (adv ==> fst.sent == st.sent.push(MsgKind::Lock) && final(pending).deep_view()
                == old(pending).deep_view().push(MsgView::Lock { val: val@, view })
                && final(queue).deep_view() == join_queue(
                old(replica).channels.deep_view(),
                old(replica).highest_req@,
                st.view,
                old(queue).deep_view(),
                MsgView::Lock { val: val@, view },
            ))
            &&& (r is Err <==> (view == st.view && resolved_sender(
                *old(replica),
                opt_str_view(local_channel_id),
            ) is None))
        }),
{
    let lock_packet = Msg::Lock { val: val.clone(), view };
    let hit = message_transfer_hop(
        replica,
        val.clone(),
        view,
        queue,
        MsgKind::Key3,
        lock_packet,
        local_channel_id,
        pending,
    )?;
    if hit {
        replica.state.lock = view;
        replica.state.lock_val = val;
    }
    Ok(())
}

/// Handle a Lock message: on a strong quorum, broadcast Done to every party;
/// and if the decision is already recorded but not yet executed, emit the
/// decision callout exactly once.
#[verifier::rlimit(100)]
#[verifier::spinoff_prover]
pub fn handle_lock(
    replica: &mut Replica,
    queue: &mut Vec<Vec<Msg>>,
    local_channel_id: Option<&String>,
    val: InputType,
    view: u32,
    pending: &mut Vec<Msg>,
) -> (r: Result<Option<ExecuteIntent>, ContractError>)
    requires
        old(replica).wf(),
        old(replica).in_network(),
        old(queue).deep_view().len() == old(replica).channels.deep_view().len(),
    ensures
        final(replica).wf(),
        final(replica).in_network(),
        same_network(*old(replica), *final(replica)),
        queue_extends(final(queue).deep_view(), old(queue).deep_view()),
        final(replica).state@ == (StateView {
            sent: final(replica).state@.sent,
            done_executed: final(replica).state@.done_executed,
            ..old(replica).state@
        }),
        r matches Ok(e) ==> callout_transition(old(replica).state@, final(replica).state@, e is Some),
        r matches Ok(Some(e)) ==> intent_wf(e, old(replica).state@.contract_addr)
            && old(replica).state@.done is Some,
        r is Err ==> final(replica).state@.done_executed == old(replica).state@.done_executed,
        ({
            let st = old(replica).state@;
            let s_opt = resolved_sender(*old(replica), opt_str_view(local_channel_id));
            let quorum = lock_quorum_completes(
                *old(replica),
                val@,
                view,
                opt_str_view(local_channel_id),
            );
            let fire = quorum && st.done is Some && !st.done_executed && signature_valid(val@);
            &&& (r is Err <==> (view == st.view && s_opt is None) || (fire && base64_decode_of(
                val@.binary,
            ) is None))
            &&& (quorum ==> final(replica).state@.sent == st.sent.push(MsgKind::Done)
                && final(queue).deep_view() == broadcast_all(
                old(replica).channels.deep_view(),
                old(queue).deep_view(),
                MsgView::Done { val: val@ },
            ) && final(pending).deep_view() == old(pending).deep_view().push(
                MsgView::Done { val: val@ },
            ))
            &&& (fire ==> (match base64_decode_of(val@.binary) {
                Some(d) => r matches Ok(Some(e)) && e.contract_addr@ == st.contract_addr
                    && e.payload@ == append_fields(d, "tb_user"@, addr_of(val@.public_key))
                    && final(replica).state@.done_executed,
                None => r is Err,
            }))
            &&& (!fire && !(view == st.view && s_opt is None) ==> ((r matches Ok(None))
                && final(replica).state@.done_executed == st.done_executed))
        }),
{
    let done_packet = Msg::Done { val: val.clone() };
    proof {
        assert(done_packet@ == (MsgView::Done { val: val@ }));
    }
    let result = message_transfer_hop(
        replica,
        val.clone(),
        view,
        queue,
        MsgKind::Lock,
        done_packet,
        local_channel_id,
        pending,
    )?;
    if result {
        if replica.state.done.is_some() && !replica.state.done_executed && check_signature(
            val.clone(),
        ) {
            let address = crate::crypto::derive_addr_from_pubkey(val.public_key.as_slice())?;
            let payload = crate::crypto::append_binary_string(
                val.binary.clone(),
                &"tb_user".to_owned(),
                &address,
            )?;
            let intent = ExecuteIntent {
                contract_addr: replica.state.contract_addr.clone(),
                payload,
            };
            replica.state.done_executed = true;
            proof {
                assert(intent_wf(intent, old(replica).state@.contract_addr));
            }
            return Ok(Some(intent));
        }
    }
    Ok(None)
}

/// Handle a Done message: Done is counted across views; on a strong quorum
/// the value is decided, and when it arrives from a peer with a valid
/// signature the decision callout is emitted exactly once.
#[verifier::rlimit(100)]
#[verifier::spinoff_prover]
pub fn handle_done(
    replica: &mut Replica,
    queue: &mut Vec<Vec<Msg>>,
    local_channel_id: Option<&String>,
    val: InputType,
    pending: &mut Vec<Msg>,
    now: u64,
    block_height: u64,
) -> (r: Result<Option<ExecuteIntent>, ContractError>)
    requires
        old(replica).wf(),
        old(replica).in_network(),
        old(queue).deep_view().len() == old(replica).channels.deep_view().len(),
    ensures
        final(replica).wf(),
        final(replica).in_network(),
        same_network(*old(replica), *final(replica)),
        queue_extends(final(queue).deep_view(), old(queue).deep_view()),
        final(replica).state@ == (StateView {
            sent: final(replica).state@.sent,
            done: final(replica).state@.done,
            done_executed: final(replica).state@.done_executed,
            done_timestamp: final(replica).state@.done_timestamp,
            done_block_height: final(replica).state@.done_block_height,
            ..old(replica).state@
        }),
        final(replica).state@.done == old(replica).state@.done || (final(replica).state@.done
            == Some(val@) && final(replica).received_done.spec_get(input_hash_of(val@)).len()
            >= old(replica).state@.n - old(replica).state@.fault_bound),
        r matches Ok(e) ==> callout_transition(old(replica).state@, final(replica).state@, e is Some),
        r matches Ok(Some(e)) ==> intent_wf(e, old(replica).state@.contract_addr)
            && final(replica).state@.done == Some(val@) && local_channel_id is Some
            && signature_valid(val@),
        ({
            let st = old(replica).state@;
            let h = input_hash_of(val@);
            let s_opt = resolved_sender(*old(replica), opt_str_view(local_channel_id));
            let dq = done_quorum_completes(*old(replica), val@, opt_str_view(local_channel_id));
            let fire = dq && local_channel_id is Some && !st.done_executed && signature_valid(
                val@,
            );
            &&& (r is Err <==> s_opt is None || (fire && base64_decode_of(val@.binary) is None))
            &&& (dq ==> final(replica).state@.done == Some(val@))
            &&& (!dq && s_opt is Some ==> final(replica).state@.done == st.done)
            &&& (fire ==> (match base64_decode_of(val@.binary) {
                Some(d) => r matches Ok(Some(e)) && e.contract_addr@ == st.contract_addr
                    && e.payload@ == append_fields(d, "tb_user"@, addr_of(val@.public_key))
                    && final(replica).state@.done_executed && final(replica).state@.done_timestamp
                    == Some(now) && final(replica).state@.done_block_height == Some(block_height),
                None => r is Err,
            }))
            &&& (!fire && s_opt is Some ==> ((r matches Ok(None))
                && final(replica).state@.done_executed == st.done_executed
                && final(replica).state@.done_timestamp == st.done_timestamp
                && final(replica).state@.done_block_height == st.done_block_height))
            &&& (s_opt matches Some(s) ==> {
                let pre = old(replica).received_done.spec_get(h);
                if !pre.contains(s) && !st.sent.contains(MsgKind::Done) && pre.len() + 1
                    >= st.fault_bound + 1 {
                    final(replica).state@.sent == st.sent.push(MsgKind::Done) && final(queue).deep_view() == broadcast_all(
                        old(replica).channels.deep_view(),
                        old(queue).deep_view(),
                        MsgView::Done { val: val@ },
                    ) && final(pending).deep_view() == old(pending).deep_view().push(
                        MsgView::Done { val: val@ },
                    )
                } else {
                    true
                }
            })
        }),
{
    let view = replica.state.view;
    let result = message_transfer_hop(
        replica,
        val.clone(),
        view,
        queue,
        MsgKind::Done,
        Msg::Done { val: val.clone() },
        local_channel_id,
        pending,
    )?;
    if result {
        replica.state.done = Some(val.clone());
        if local_channel_id.is_some() && !replica.state.done_executed && check_signature(
            val.clone(),
        ) {
            replica.state.done_executed = true;
            let address = crate::crypto::derive_addr_from_pubkey(val.public_key.as_slice())?;
            let payload = crate::crypto::append_binary_string(
                val.binary.clone(),
                &"tb_user".to_owned(),
                &address,
            )?;
            replica.state.done_timestamp = Some(now);
            replica.state.done_block_height = Some(block_height);
            let intent = ExecuteIntent {
                contract_addr: replica.state.contract_addr.clone(),
                payload,
            };
            proof {
                assert(intent_wf(intent, old(replica).state@.contract_addr));
            }
            return Ok(Some(intent));
        }
    }
    Ok(None)
}


/// The decided value a one-message batch owes: the value of its single Done
/// message, when that delivery completes the decision quorum.
pub open spec fn single_done_batch(
    batch: Seq<Msg>,
    r0: Replica,
    channel: Option<Seq<char>>,
) -> Option<TBInputView> {
    if batch.len() == 1 {
        match batch[0]@ {
            MsgView::Done { val: v } => if done_quorum_completes(r0, v, channel) {
                Some(v)
            } else {
                None
            },
            _ => None,
        }
    } else {
        None
    }
}

/// Append generated messages to the work list as self-deliveries.
fn append_as_self(work: &mut Vec<(bool, Msg)>, pending: Vec<Msg>)
    ensures
        final(work)@.len() >= old(work)@.len(),
        forall|j: int| 0 <= j < old(work)@.len() ==> #[trigger] final(work)@[j] == old(work)@[j],
        forall|j: int|
            old(work)@.len() <= j < final(work)@.len() ==> (#[trigger] final(work)@[j]).0 == true,
{
    let mut pj: usize = 0;
    let mut pending = pending;
    while pj < pending.len()
        invariant
            0 <= pj <= pending@.len(),
            work@.len() >= old(work)@.len(),
            forall|j: int| 0 <= j < old(work)@.len() ==> #[trigger] work@[j] == old(work)@[j],
            forall|j: int|
                old(work)@.len() <= j < work@.len() ==> (#[trigger] work@[j]).0 == true,
        decreases pending@.len() - pj,
    {
        let m = pending[pj].clone();
        work.push((true, m));
        pj = pj + 1;
    }
}

/// Process one inbound batch of protocol messages: dispatch each message to
/// its phase handler, deliver every self-addressed broadcast through the same
/// path, and finally turn the filled outbound queue into per-channel packets.
/// Once a decision is recorded, further batches are ignored.
#[verifier::rlimit(100)]
#[verifier::spinoff_prover]
pub fn receive_queue(
    replica: &mut Replica,
    local_channel_id: Option<String>,
    queue_to_process: Vec<Msg>,
    queue: &mut Vec<Vec<Msg>>,
    now: u64,
    block_height: u64,
) -> (r: Result<ReceiveOutcome, ContractError>)
    requires
        old(replica).wf(),
        old(replica).in_network(),
        old(queue).deep_view().len() == old(replica).channels.deep_view().len(),
    ensures
        final(replica).wf(),
        final(replica).in_network(),
        same_network(*old(replica), *final(replica)),
        final(replica).state@.view >= old(replica).state@.view,
        old(replica).state@.done is Some ==> (*final(replica) == *old(replica) && *final(queue)
            == *old(queue) && (r matches Ok(o) ==> o.packets@.len() == 0 && o.execute is None)),
        r matches Ok(o) ==> callout_transition(
            old(replica).state@,
            final(replica).state@,
            o.execute is Some,
        ),
        r matches Ok(o) ==> (o.execute matches Some(e) ==> intent_wf(
            e,
            old(replica).state@.contract_addr,
        )),
        r matches Ok(o) ==> (old(replica).state@.done is None && local_channel_id is Some
            ==> o.packets.deep_view() == crate::view_change::flush_packets_upto(
            old(replica).channels.deep_view(),
            final(queue).deep_view(),
            old(replica).state@.chain_id,
            final(queue).deep_view().len() as int,
        )),
        r matches Ok(o) ==> (local_channel_id is None ==> o.packets@.len() == 0),
        (r is Ok && old(replica).state@.done is None) ==> (single_done_batch(
            queue_to_process@,
            *old(replica),
            match local_channel_id {
                Some(c) => Some(c@),
                None => None,
            },
        ) matches Some(v) ==> final(replica).state@.done == Some(v)),
        r is Ok && old(replica).state@.done is None && local_channel_id is Some
            ==> final(replica).state@.current_tx_id == vstd::wrapping::u32_specs::wrapping_add(
            old(replica).state@.current_tx_id,
            1,
        ),
        r is Ok && local_channel_id is None
            ==> final(replica).state@.current_tx_id == old(replica).state@.current_tx_id,
        final(queue).deep_view().len() == old(queue).deep_view().len(),
{
    if replica.state.done.is_some() {
        return Ok(ReceiveOutcome { packets: Vec::new(), execute: None });
    }
    let ghost lcl: Option<Seq<char>> = match local_channel_id {
        Some(ref c) => Some(c@),
        None => None,
    };
    let ghost owed_done = single_done_batch(queue_to_process@, *old(replica), lcl);
    let mut execute: Option<ExecuteIntent> = None;
    let mut work: Vec<(bool, Msg)> = Vec::new();
    let mut si: usize = 0;
    while si < queue_to_process.len()
        invariant
            0 <= si <= queue_to_process@.len(),
            work@.len() == si,
            forall|j: int|
                0 <= j < si ==> (#[trigger] work@[j]).0 == false && work@[j].1@
                    == queue_to_process@[j]@,
        decreases queue_to_process@.len() - si,
    {
        work.push((false, queue_to_process[si].clone()));
        si = si + 1;
    }
    // Generated deliveries are bounded: every broadcast consumes a sent-guard
    // or answers one batch message, so this budget is never exhausted by a
    // cascade the deduplication invariant allows.
    let mut fuel: u128 = 64 + 8 * (queue_to_process.len() as u128);
    let mut idx: usize = 0;
    while idx < work.len()
        invariant
            old(replica).state@.done is None,
            replica.wf(),
            replica.in_network(),
            same_network(*old(replica), *replica),
            queue.deep_view().len() == replica.channels.deep_view().len(),
            queue.deep_view().len() == old(queue).deep_view().len(),
            replica.state@.view >= old(replica).state@.view,
            callout_transition(old(replica).state@, replica.state@, execute is Some),
            (execute matches Some(e) ==> intent_wf(e, old(replica).state@.contract_addr)),
            replica.state@.current_tx_id == old(replica).state@.current_tx_id,
            0 <= idx <= work@.len(),
            work@.len() >= queue_to_process@.len(),
            forall|j: int|
                0 <= j < queue_to_process@.len() ==> (#[trigger] work@[j]).0 == false
                    && work@[j].1@ == queue_to_process@[j]@,
            forall|j: int|
                queue_to_process@.len() <= j < work@.len() ==> (#[trigger] work@[j]).0 == true,
            lcl == (match local_channel_id {
                Some(ref c) => Some(c@),
                None => None,
            }),
            owed_done == single_done_batch(queue_to_process@, *old(replica), lcl),
            idx == 0 ==> *replica == *old(replica),
            owed_done matches Some(v) ==> (idx >= 1 ==> replica.state@.done == Some(v)),
        decreases fuel,
    {
        if fuel == 0 {
            return Err(ContractError::GenericErr {
                msg: "message cascade budget exhausted".to_owned(),
            });
        }
        fuel = fuel - 1;
        let from_self = work[idx].0;
        let msg = work[idx].1.clone();
        idx = idx + 1;
        if from_self && replica.state.done.is_some() {
            continue;
        }
        let chan: Option<&String> = if from_self {
            None
        } else {
            match &local_channel_id {
                Some(c) => Some(c),
                None => None,
            }
        };
        proof {
            if !from_self {
                assert(opt_str_view(chan) == lcl);
            }
        }
        let mut pending: Vec<Msg> = Vec::new();
        let step: Result<(), ContractError> = match msg {
            Msg::Propose { chain_id, k, v, view } => (handle_propose(
                replica,
                queue,
                chan,
                chain_id,
                k,
                v,
                view,
                &mut pending,
            )),
            Msg::Request { view, chain_id } => handle_request(replica, queue, view, chain_id),
            Msg::Suggest { chain_id, view, key2, key2_val, prev_key2, key3, key3_val } => (
            handle_suggest(
                replica,
                queue,
                chain_id,
                view,
                key2,
                key2_val,
                prev_key2,
                key3,
                key3_val,
                &mut pending,
            )),
            Msg::Proof { key1, key1_val, prev_key1, view } => (handle_proof(
                replica,
                chan,
                key1,
                key1_val,
                prev_key1,
                view,
            )),
            Msg::Echo { val, view } => handle_echo(replica, queue, chan, val, view, &mut pending),
            Msg::Key1 { val, view } => handle_key1(replica, queue, chan, val, view, &mut pending),
            Msg::Key2 { val, view } => handle_key2(replica, queue, chan, val, view, &mut pending),
            Msg::Key3 { val, view } => handle_key3(replica, queue, chan, val, view, &mut pending),
            Msg::Lock { val, view } => {
                match handle_lock(replica, queue, chan, val, view, &mut pending) {
                    Ok(intent) => {
                        if intent.is_some() {
                            proof {
                                assert(execute is None);
                            }
                            execute = intent;
                        }
                        Ok(())
                    },
                    Err(e) => Err(e),
                }
            },
            Msg::Done { val } => {
                match handle_done(replica, queue, chan, val, &mut pending, now, block_height) {
                    Ok(intent) => {
                        if intent.is_some() {
                            proof {
                                assert(execute is None);
                            }
                            execute = intent;
                        }
                        Ok(())
                    },
                    Err(e) => Err(e),
                }
            },
            Msg::Abort { view, chain_id } => (crate::abort::handle_abort(
                replica,
                queue,
                view,
                chain_id,
                &mut pending,
                now,
            )),
        };
        match step {
            Ok(_) => (),
            Err(e) => {
                return Err(e);
            },
        }
        append_as_self(&mut work, pending);
    }
    match local_channel_id {
        Some(_) => {
            let packets = crate::view_change::convert_queue_to_ibc_msgs(replica, queue)?;
            Ok(ReceiveOutcome { packets, execute })
        },
        None => Ok(ReceiveOutcome { packets: Vec::new(), execute }),
    }
}

} // verus!
