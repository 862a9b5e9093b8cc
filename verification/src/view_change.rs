//! Entering a view: broadcast Request to every peer, hand the primary the
//! Suggest it is owed, broadcast the local Proof, and turn a filled outbound
//! queue into per-channel packets.

use vstd::prelude::*;
use crate::msg::{Msg, MsgView, PacketMsg, PacketMsgView};
use crate::queue_handler::{queue_extends, same_network, send_all_party, send_all_upon_join_queue};
use crate::replica::Replica;
use crate::ContractError;

verus! {

/// Run the view-entry protocol: Request to all parties, Suggest to the
/// primary when it has announced this view (or to the local replica when it
/// is the primary), and the local Proof by join-on-request forwarding.
pub fn append_queue_view_change(
    replica: &mut Replica,
    queue: &mut Vec<Vec<Msg>>,
    pending: &mut Vec<Msg>,
) -> (r: Result<(), ContractError>)
    requires
        old(replica).wf(),
        old(replica).in_network(),
        old(queue).deep_view().len() == old(replica).channels.deep_view().len(),
    ensures
        final(replica).wf(),
        final(replica).in_network(),
        same_network(*old(replica), *final(replica)),
        final(replica).state == old(replica).state,
        final(replica).highest_req == old(replica).highest_req,
        final(replica).highest_abort == old(replica).highest_abort,
        final(replica).received_suggest == old(replica).received_suggest,
        final(replica).received_proof == old(replica).received_proof,
        final(replica).received_echo == old(replica).received_echo,
        final(replica).received_key1 == old(replica).received_key1,
        final(replica).received_key2 == old(replica).received_key2,
        final(replica).received_key3 == old(replica).received_key3,
        final(replica).received_lock == old(replica).received_lock,
        final(replica).received_done == old(replica).received_done,
        queue_extends(final(queue).deep_view(), old(queue).deep_view()),
        old(pending).deep_view().is_prefix_of(final(pending).deep_view()),
        final(pending).deep_view().len() <= old(pending).deep_view().len() + 3,
        r is Err <==> (old(replica).state@.chain_id != old(replica).state@.primary
            && old(replica).state@.primary >= old(replica).state@.n),
        r is Ok ==> ({
            let st = old(replica).state@;
            let ch = old(replica).channels.deep_view();
            let hr = old(replica).highest_req@;
            let request = MsgView::Request { view: st.view, chain_id: st.chain_id };
            let suggest = MsgView::Suggest {
                chain_id: st.chain_id,
                view: st.view,
                key2: st.key2,
                key2_val: st.key2_val,
                prev_key2: st.prev_key2,
                key3: st.key3,
                key3_val: st.key3_val,
            };
            let proof_m = MsgView::Proof {
                key1: st.key1,
                key1_val: st.key1_val,
                prev_key1: st.prev_key1,
                view: st.view,
            };
            let q1 = crate::queue_handler::broadcast_all(ch, old(queue).deep_view(), request);
            let q2 = if st.chain_id != st.primary && hr[st.primary as int] == st.view {
                q1.update(st.primary as int, q1[st.primary as int].push(suggest))
            } else {
                q1
            };
            &&& final(queue).deep_view() == crate::queue_handler::join_queue(
                ch,
                hr,
                st.view,
                q2,
                proof_m,
            )
            &&& final(replica).send_all_upon.deep_view() == crate::queue_handler::join_buffers(
                ch,
                hr,
                st.view,
                old(replica).send_all_upon.deep_view(),
                proof_m,
            )
            &&& final(pending).deep_view() == old(pending).deep_view().push(request) + (
            if st.chain_id == st.primary {
                seq![suggest]
            } else {
                Seq::<MsgView>::empty()
            }) + seq![proof_m]
        }),
{
    let request_packet = Msg::Request {
        view: replica.state.view,
        chain_id: replica.state.chain_id,
    };
    let ghost q0 = queue.deep_view();
    let ghost p0 = pending.deep_view();
    let ghost rv = request_packet@;
    send_all_party(replica, queue, request_packet, pending);
    let ghost q1 = queue.deep_view();
    proof {
        assert(p0.is_prefix_of(pending.deep_view()));
        assert(q1 == crate::queue_handler::broadcast_all(
            replica.channels.deep_view(),
            q0,
            rv,
        ));
        assert(pending.deep_view() == p0.push(rv));
    }

    let suggest_packet = Msg::Suggest {
        chain_id: replica.state.chain_id,
        view: replica.state.view,
        key2: replica.state.key2,
        key2_val: replica.state.key2_val.clone(),
        prev_key2: replica.state.prev_key2,
        key3: replica.state.key3,
        key3_val: replica.state.key3_val.clone(),
    };
    if replica.state.chain_id != replica.state.primary {
        let p = replica.state.primary as usize;
        if p >= replica.highest_req.len() {
            return Err(ContractError::StateNotFound);
        }
        if replica.state.view == replica.highest_req[p] {
            let ghost pre = queue.deep_view();
            let ghost pv = suggest_packet@;
            let slot = crate::queue_handler::queue_slot_mut(queue, p);
            slot.push(suggest_packet);
            proof {
                assert(queue.deep_view() =~~= pre.update(p as int, pre[p as int].push(pv)));
                assert(queue_extends(queue.deep_view(), pre));
            }
        } else {
            proof {
                assert(queue.deep_view() =~~= q1);
            }
        }
    } else {
        let ghost pp = pending.deep_view();
        let ghost sv = suggest_packet@;
        pending.push(suggest_packet);
        proof {
            assert(pending.deep_view() =~~= pp.push(sv));
            assert(pp.is_prefix_of(pending.deep_view()));
            crate::queue_handler::lemma_prefix_transitive(p0, pp, pending.deep_view());
        }
    }
    let ghost q2 = queue.deep_view();
    let ghost p2 = pending.deep_view();
    proof {
        crate::queue_handler::lemma_queue_extends_transitive(q0, q1, q2);
        assert(p0.is_prefix_of(p2));
    }

    let proof_packet = Msg::Proof {
        key1: replica.state.key1,
        key1_val: replica.state.key1_val.clone(),
        prev_key1: replica.state.prev_key1,
        view: replica.state.view,
    };
    let ghost pm = proof_packet@;
    send_all_upon_join_queue(replica, queue, proof_packet, pending);
    proof {
        crate::queue_handler::lemma_queue_extends_transitive(q0, q2, queue.deep_view());
        assert(p2.is_prefix_of(pending.deep_view()));
        crate::queue_handler::lemma_prefix_transitive(p0, p2, pending.deep_view());
        assert(pending.deep_view() =~~= p2 + seq![pm]);
    }
    Ok(())
}

/// The per-channel packets a filled outbound queue turns into: one
/// `MsgQueue` packet per registered peer with a non-empty slot, in ascending
/// id order; the local slot is never sent.
pub open spec fn flush_packets_upto(
    channels: Seq<Option<Seq<char>>>,
    q: Seq<Seq<MsgView>>,
    self_id: u32,
    k: int,
) -> Seq<(Seq<char>, PacketMsgView)>
    decreases k,
{
    if k <= 0 {
        Seq::<(Seq<char>, PacketMsgView)>::empty()
    } else {
        flush_packets_upto(channels, q, self_id, k - 1) + (if k - 1 != self_id && q[k - 1].len()
            > 0 {
            match channels[k - 1] {
                Some(c) => seq![(c, PacketMsgView::MsgQueue(q[k - 1]))],
                None => Seq::<(Seq<char>, PacketMsgView)>::empty(),
            }
        } else {
            Seq::<(Seq<char>, PacketMsgView)>::empty()
        })
    }
}

/// A copy of one outbound slot.
pub(crate) fn clone_msgs(v: &Vec<Msg>) -> (r: Vec<Msg>)
    ensures
        r.deep_view() == v.deep_view(),
{
    let mut out: Vec<Msg> = Vec::new();
    let mut i: usize = 0;
    while i < v.len()
        invariant
            0 <= i <= v@.len(),
            v.deep_view().len() == v@.len(),
            out.deep_view() =~~= v.deep_view().take(i as int),
        decreases v@.len() - i,
    {
        let m = &v[i];
        let ghost pre = out.deep_view();
        out.push(m.clone());
        proof {
            assert(v.deep_view()[i as int] == v@[i as int]@);
            assert(out.deep_view() =~~= pre.push(v.deep_view()[i as int]));
            assert(v.deep_view().take(i + 1).drop_last() =~~= v.deep_view().take(i as int));
            assert(v.deep_view().take(i + 1).last() == v.deep_view()[i as int]);
            assert(out.deep_view() =~~= v.deep_view().take(i + 1));
        }
        i = i + 1;
    }
    proof {
        assert(v.deep_view().take(v.deep_view().len() as int) =~~= v.deep_view());
    }
    out
}

/// Turn the filled outbound queue into one packet per destination channel
/// and advance the transfer counter.  Fails when a non-empty slot belongs to
/// a peer whose channel was never registered.
pub fn convert_queue_to_ibc_msgs(replica: &mut Replica, queue: &Vec<Vec<Msg>>) -> (r: Result<
    Vec<(String, PacketMsg)>,
    ContractError,
>)
    requires
        old(replica).wf(),
        old(replica).in_network(),
        queue.deep_view().len() == old(replica).channels.deep_view().len(),
    ensures
        final(replica).wf(),
        final(replica).in_network(),
        same_network(*old(replica), *final(replica)),
        final(replica).state@ == (crate::state::StateView {
            current_tx_id: final(replica).state@.current_tx_id,
            ..old(replica).state@
        }),
        final(replica).highest_req == old(replica).highest_req,
        final(replica).highest_abort == old(replica).highest_abort,
        final(replica).send_all_upon == old(replica).send_all_upon,
        final(replica).received_suggest == old(replica).received_suggest,
        final(replica).received_proof == old(replica).received_proof,
        final(replica).received_echo == old(replica).received_echo,
        final(replica).received_key1 == old(replica).received_key1,
        final(replica).received_key2 == old(replica).received_key2,
        final(replica).received_key3 == old(replica).received_key3,
        final(replica).received_lock == old(replica).received_lock,
        final(replica).received_done == old(replica).received_done,
        r matches Ok(out) ==> out.deep_view() == flush_packets_upto(
            old(replica).channels.deep_view(),
            queue.deep_view(),
            old(replica).state@.chain_id,
            queue.deep_view().len() as int,
        ),
        r is Ok ==> final(replica).state@.current_tx_id
            == vstd::wrapping::u32_specs::wrapping_add(old(replica).state@.current_tx_id, 1),
        r is Err ==> final(replica).state == old(replica).state,
        r is Ok <==> (forall|i: int|
            0 <= i < queue.deep_view().len() && i != old(replica).state@.chain_id as int
                && (#[trigger] queue.deep_view()[i]).len() > 0 ==> old(replica).channels.deep_view()[i] is Some),
{
    let ghost chv = replica.channels.deep_view();
    let ghost qv = queue.deep_view();
    let ghost self_id = replica.state@.chain_id;
    let mut msgs: Vec<(String, PacketMsg)> = Vec::new();
    let mut i: usize = 0;
    while i < queue.len()
        invariant
            0 <= i <= qv.len(),
            *replica == *old(replica),
            replica.wf(),
            replica.in_network(),
            chv == replica.channels.deep_view(),
            qv == queue.deep_view(),
            qv.len() == queue@.len(),
            qv.len() == chv.len(),
            qv.len() == replica.state@.n,
            self_id == replica.state@.chain_id,
            msgs.deep_view() =~~= flush_packets_upto(chv, qv, self_id, i as int),
            forall|j: int|
                0 <= j < i && j != self_id as int && (#[trigger] qv[j]).len() > 0 ==> chv[j] is Some,
        decreases qv.len() - i,
    {
        proof {
            assert(chv[i as int] == match replica.channels@[i as int] {
                Some(ref c) => Some(c@),
                None => None,
            });
            assert(qv[i as int] == queue@[i as int].deep_view());
        }
        if i as u32 != replica.state.chain_id {
            if queue[i].len() > 0 {
                let copied = clone_msgs(&queue[i]);
                match &replica.channels[i] {
                    Some(c) => {
                        let ghost pre = msgs.deep_view();
                        let ghost pair = (c@, PacketMsgView::MsgQueue(qv[i as int]));
                        msgs.push((c.clone(), PacketMsg::MsgQueue(copied)));
                        proof {
                            assert(chv[i as int] == Some(c@));
                            assert(msgs.deep_view() =~~= pre.push(pair));
                            assert(i as int != self_id as int);
                            assert(qv[i as int].len() > 0);
                            assert(flush_packets_upto(chv, qv, self_id, i + 1)
                                =~~= flush_packets_upto(chv, qv, self_id, i as int) + seq![pair]);
                            assert(msgs.deep_view() =~~= flush_packets_upto(
                                chv,
                                qv,
                                self_id,
                                i + 1,
                            ));
                        }
                    },
                    None => {
                        proof {
                            assert(qv[i as int].len() > 0 && i as int != self_id as int
                                && !(chv[i as int] is Some));
                        }
                        return Err(ContractError::StateNotFound);
                    },
                }
            } else {
                proof {
                    assert(flush_packets_upto(chv, qv, self_id, i + 1) =~~= flush_packets_upto(
                        chv,
                        qv,
                        self_id,
                        i as int,
                    ));
                }
            }
        } else {
            proof {
                assert(i as int == self_id as int);
                assert(flush_packets_upto(chv, qv, self_id, i + 1) =~~= flush_packets_upto(
                    chv,
                    qv,
                    self_id,
                    i as int,
                ));
            }
        }
        i = i + 1;
    }
    replica.state.current_tx_id = replica.state.current_tx_id.wrapping_add(1);
    proof {
        assert(replica.state@ == (crate::state::StateView {
            current_tx_id: replica.state@.current_tx_id,
            ..old(replica).state@
        }));
    }
    Ok(msgs)
}


/// Start or re-enter a view from the top level: run the view-entry protocol,
/// deliver the local broadcasts, and return the packets to send together with
/// any decision callout the self-deliveries produced.
pub fn view_change(replica: &mut Replica, now: u64, block_height: u64) -> (r: Result<
    crate::queue_handler::ReceiveOutcome,
    ContractError,
>)
    requires
        old(replica).wf(),
        old(replica).in_network(),
    ensures
        final(replica).wf(),
        final(replica).in_network(),
        same_network(*old(replica), *final(replica)),
        r matches Ok(o) ==> crate::queue_handler::callout_transition(
            old(replica).state@,
            final(replica).state@,
            o.execute is Some,
        ),
        r matches Ok(o) ==> (o.execute matches Some(e) ==> crate::queue_handler::intent_wf(
            e,
            old(replica).state@.contract_addr,
        )),
{
    let n = crate::queue_handler::u32_to_usize(replica.state.n);
    proof {
        assert(replica.channels.deep_view().len() == replica.channels@.len());
    }
    let mut queue: Vec<Vec<Msg>> = crate::utils::empty_queues(n);
    proof {
        assert(replica.channels.deep_view().len() == replica.channels@.len());
        assert(queue.deep_view().len() == replica.channels.deep_view().len());
    }
    let mut pending: Vec<Msg> = Vec::new();
    append_queue_view_change(replica, &mut queue, &mut pending)?;
    let outcome = crate::queue_handler::receive_queue(
        replica,
        None,
        pending,
        &mut queue,
        now,
        block_height,
    )?;
    let packets = convert_queue_to_ibc_msgs(replica, &queue)?;
    Ok(crate::queue_handler::ReceiveOutcome { packets, execute: outcome.execute })
}

} // verus!
