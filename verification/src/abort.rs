//! The view-change/abort subsystem: track per-replica abort announcements,
//! take order statistics over them, amplify aborts past the weak threshold,
//! and adopt a new view once the strong threshold agrees.

use vstd::prelude::*;
use vstd::relations::{sorted_by, total_ordering};
use crate::msg::{Msg, MsgView};
use crate::state::StateView;
use crate::queue_handler::{queue_extends, same_network};
use crate::replica::Replica;
use crate::ContractError;

verus! {

/// The ascending order on abort announcements.
pub open spec fn le_i64() -> spec_fn(i64, i64) -> bool {
    |a: i64, b: i64| a <= b
}

proof fn lemma_le_i64_total()
    ensures
        total_ordering(le_i64()),
{
}

/// The abort announcements in ascending order.
pub open spec fn sorted_abort_values(vals: Seq<i64>) -> Seq<i64> {
    vals.sort_by(le_i64())
}

/// The k-th largest abort announcement (1-based): the value at index
/// `len - k` of the ascending sort.
pub open spec fn kth_largest(vals: Seq<i64>, k: int) -> i64 {
    sorted_abort_values(vals)[vals.len() - k]
}

/// Sort a copy of the announcements ascending.
fn sort_i64(v: &Vec<i64>) -> (r: Vec<i64>)
    ensures
        r@ == sorted_abort_values(v@),
        r@.len() == v@.len(),
{
    proof {
        lemma_le_i64_total();
        v@.lemma_sort_by_ensures(le_i64());
    }
    let mut out: Vec<i64> = Vec::new();
    proof {
        assert(v@.take(0) =~= out@);
    }
    let mut i: usize = 0;
    while i < v.len()
        invariant
            0 <= i <= v@.len(),
            sorted_by(out@, le_i64()),
            out@.to_multiset() == v@.take(i as int).to_multiset(),
            out@.len() == i,
        decreases v@.len() - i,
    {
        broadcast use vstd::seq_lib::group_to_multiset_ensures;

        let x = v[i];
        let mut j: usize = 0;
        while j < out.len() && out[j] <= x
            invariant
                0 <= j <= out@.len(),
                sorted_by(out@, le_i64()),
                forall|k: int| 0 <= k < j ==> out@[k] <= x,
            decreases out@.len() - j,
        {
            j = j + 1;
        }
        let ghost pre = out@;
        out.insert(j, x);
        proof {
            assert(out@ == pre.insert(j as int, x));
            assert forall|a: int, b: int|
                0 <= a < b < out@.len() implies #[trigger] le_i64()(out@[a], out@[b]) by {
                if a < j && b == j {
                    assert(out@[a] == pre[a] && out@[b] == x);
                } else if a == j && b > j {
                    assert(out@[a] == x && out@[b] == pre[b - 1]);
                    assert(j < pre.len() ==> !(pre[j as int] <= x));
                    assert(le_i64()(pre[j as int], pre[b - 1]) || j == b - 1);
                } else if a < j && b > j {
                    assert(out@[a] == pre[a] && out@[b] == pre[b - 1]);
                    assert(a < b - 1 ==> le_i64()(pre[a], pre[b - 1]));
                    assert(a == b - 1 ==> pre[a] == pre[b - 1]);
                } else if a > j {
                    assert(out@[a] == pre[a - 1] && out@[b] == pre[b - 1]);
                } else {
                    assert(b < j);
                    assert(out@[a] == pre[a] && out@[b] == pre[b]);
                }
            }
            assert(out@.to_multiset() == pre.to_multiset().insert(x));
            assert(v@.take(i + 1).drop_last() =~= v@.take(i as int));
            assert(v@.take(i + 1) == v@.take(i as int).push(x));
            assert(v@.take(i + 1).to_multiset() == v@.take(i as int).to_multiset().insert(x));
        }
        i = i + 1;
    }
    proof {
        assert(v@.take(v@.len() as int) =~= v@);
        vstd::seq_lib::lemma_sorted_unique(out@, v@.sort_by(le_i64()), le_i64());
    }
    out
}

/// Every element of the ascending sort is an element of the source vector,
/// so it stays inside the announcement range.
proof fn lemma_sorted_element_bounds(ha: Seq<i64>, idx: int)
    requires
        0 <= idx < ha.len(),
        forall|i: int| 0 <= i < ha.len() ==> -1 <= #[trigger] ha[i] <= u32::MAX as i64,
    ensures
        -1 <= sorted_abort_values(ha)[idx] <= u32::MAX as i64,
{
    broadcast use vstd::seq_lib::group_to_multiset_ensures;

    lemma_le_i64_total();
    ha.lemma_sort_by_ensures(le_i64());
    let sorted = sorted_abort_values(ha);
    assert(ha.to_multiset() =~= sorted.to_multiset());
    assert(ha.to_multiset().len() == ha.len());
    assert(sorted.to_multiset().len() == sorted.len());
    let x = sorted[idx];
    assert(exists|i: int| 0 <= i < sorted.len() && sorted[i] == x) by {
        assert(0 <= idx < sorted.len() && sorted[idx] == x);
    }
    assert(sorted.contains(x));
    assert(ha.to_multiset() =~= sorted.to_multiset());
    assert(sorted.to_multiset().count(x) > 0);
    assert(ha.contains(x));
    let i = choose|i: int| 0 <= i < ha.len() && ha[i] == x;
    assert(-1 <= ha[i] <= u32::MAX as i64);
}

/// What one Abort(view = v) from `s` does to the announcement vector and the
/// adopted view, as four steps: record the announcement, amplify to the
/// (F+1)-th largest, then adopt one past the (n-F)-th largest when that
/// catches up with the current view.
pub open spec fn abort_outcome(
    ha0: Seq<i64>,
    view0: u32,
    n: u32,
    f: u32,
    s: int,
    view: u32,
) -> (Seq<i64>, u32, bool) {
    if !(ha0[s] < view as i64) {
        (ha0, view0, false)
    } else {
        let ha1 = ha0.update(s, view as i64);
        let u = kth_largest(ha1, f + 1);
        let ha2 = if u > ha1[s] && u > -1 {
            ha1.update(s, u)
        } else {
            ha1
        };
        let w = kth_largest(ha2, n - f);
        let adopted = w + 1 >= view0 as i64;
        let view1 = if adopted {
            (w + 1) as u32
        } else {
            view0
        };
        (ha2, view1, adopted)
    }
}

/// Whether this Abort delivery would push the adopted view past the
/// greatest representable one: the only announcement a replica cannot
/// process.
pub open spec fn abort_exhausts(
    ha0: Seq<i64>,
    view0: u32,
    n: u32,
    f: u32,
    s: int,
    view: u32,
) -> bool {
    &&& ha0[s] < view as i64
    &&& ({
        let ha1 = ha0.update(s, view as i64);
        let u = kth_largest(ha1, f + 1);
        let ha2 = if u > ha1[s] && u > -1 {
            ha1.update(s, u)
        } else {
            ha1
        };
        let w = kth_largest(ha2, n - f);
        w + 1 >= view0 as i64 && w >= u32::MAX as i64
    })
}

/// Handle an Abort message: record the sender's announcement, amplify an
/// abort once F+1 replicas stand at a higher view, and adopt a new view once
/// n-F replicas agree, clearing the view-scoped records and re-entering the
/// view.
#[verifier::rlimit(100)]
#[verifier::spinoff_prover]
pub fn handle_abort(
    replica: &mut Replica,
    queue: &mut Vec<Vec<Msg>>,
    view: u32,
    sender_chain_id: u32,
    pending: &mut Vec<Msg>,
    now: u64,
) -> (r: Result<(), ContractError>)
    requires
        old(replica).wf(),
        old(replica).in_network(),
        old(queue).deep_view().len() == old(replica).channels.deep_view().len(),
    ensures
        final(replica).wf(),
        final(replica).in_network(),
        same_network(*old(replica), *final(replica)),
        queue_extends(final(queue).deep_view(), old(queue).deep_view()),
        old(pending).deep_view().is_prefix_of(final(pending).deep_view()),
        final(replica).state@.view >= old(replica).state@.view,
        final(replica).state@ == (StateView {
            view: final(replica).state@.view,
            primary: final(replica).state@.primary,
            start_time: final(replica).state@.start_time,
            ..old(replica).state@
        }),
        final(replica).state@.done == old(replica).state@.done,
        final(replica).state@.done_executed == old(replica).state@.done_executed,
        r is Ok <==> (sender_chain_id < old(replica).state@.n && !abort_exhausts(
            old(replica).highest_abort@,
            old(replica).state@.view,
            old(replica).state@.n,
            old(replica).state@.fault_bound,
            sender_chain_id as int,
            view,
        )),
        final(replica).highest_abort@.len() == old(replica).highest_abort@.len(),
        forall|i: int|
            0 <= i < old(replica).highest_abort@.len() && i != sender_chain_id as int
                ==> #[trigger] final(replica).highest_abort@[i] == old(replica).highest_abort@[i],
        sender_chain_id < old(replica).state@.n ==> final(replica).highest_abort@[
            sender_chain_id as int
        ] >= old(replica).highest_abort@[sender_chain_id as int],
        (sender_chain_id < old(replica).state@.n && old(replica).highest_abort@[
            sender_chain_id as int
        ] >= view as i64) ==> (r is Ok && *final(replica) == *old(replica) && *final(queue)
            == *old(queue) && *final(pending) == *old(pending)),
        r is Ok ==> ({
            let (ha2, view1, adopted) = abort_outcome(
                old(replica).highest_abort@,
                old(replica).state@.view,
                old(replica).state@.n,
                old(replica).state@.fault_bound,
                sender_chain_id as int,
                view,
            );
            &&& final(replica).highest_abort@ == ha2
            &&& final(replica).state@.view == view1
            &&& (adopted ==> final(replica).state@.primary == view1 % old(replica).state@.n
                && final(replica).state@.start_time == now)
            &&& (!adopted ==> final(replica).state@.primary == old(replica).state@.primary
                && final(replica).state@.start_time == old(replica).state@.start_time)
            &&& ({
                let ha0 = old(replica).highest_abort@;
                let s = sender_chain_id as int;
                let cond = ha0[s] < view as i64;
                let ha1 = ha0.update(s, view as i64);
                let u = kth_largest(ha1, old(replica).state@.fault_bound + 1);
                let amplified = cond && u > ha1[s] && u > -1;
                amplified ==> forall|i: int|
                    0 <= i < old(queue).deep_view().len() && old(replica).channels.deep_view()[i]
                        is Some ==> (#[trigger] old(queue).deep_view()[i]).push(
                        MsgView::Abort { view: u as u32, chain_id: old(replica).state@.chain_id },
                    ).is_prefix_of(final(queue).deep_view()[i])
            })
            &&& (adopted && view1 != old(replica).state@.view ==> {
                &&& final(replica).received_suggest@ =~= Seq::<u32>::empty()
                &&& final(replica).received_proof@ =~= Seq::<u32>::empty()
                &&& forall|k2: crate::msg::MsgKind, h: u64|
                    crate::replica::is_hop_kind(k2) ==> #[trigger] final(replica).table_of(
                        k2,
                    ).spec_get(h) =~= Seq::<u32>::empty()
                &&& old(pending).deep_view().push(
                    MsgView::Request { view: view1, chain_id: old(replica).state@.chain_id },
                ).is_prefix_of(final(pending).deep_view())
            })
            &&& (!(adopted && view1 != old(replica).state@.view) ==> *final(pending) == *old(
                pending,
            ) && final(replica).received_suggest == old(replica).received_suggest
                && final(replica).received_proof == old(replica).received_proof
                && final(replica).received_echo == old(replica).received_echo
                && final(replica).received_key1 == old(replica).received_key1
                && final(replica).received_key2 == old(replica).received_key2
                && final(replica).received_key3 == old(replica).received_key3
                && final(replica).received_lock == old(replica).received_lock
                && final(replica).received_done == old(replica).received_done)
        }),
{
    let idx = sender_chain_id as usize;
    if idx >= replica.highest_abort.len() {
        return Err(ContractError::GenericErr {
            msg: "handle_abort cannot find loadedVal".to_owned(),
        });
    }
    let ghost ha0 = old(replica).highest_abort@;
    let ghost view0 = old(replica).state@.view;
    let loaded_val: i64 = replica.highest_abort[idx];
    if loaded_val < view as i64 {
        replica.highest_abort.set(idx, view as i64);
        proof {
            assert(replica.highest_abort@ == ha0.update(idx as int, view as i64));
        }
        let ghost ha1 = replica.highest_abort@;
        let sorted1 = sort_i64(&replica.highest_abort);
        let f_plus_1 = crate::queue_handler::u32_to_usize(replica.state.F + 1);
        let u: i64 = sorted1[sorted1.len() - f_plus_1];
        proof {
            assert(u == kth_largest(
                replica.highest_abort@,
                replica.state@.fault_bound + 1,
            ));
            lemma_sorted_element_bounds(
                replica.highest_abort@,
                sorted1@.len() - f_plus_1,
            );
        }
        let loaded_val2: i64 = replica.highest_abort[idx];
        let ghost q_start = old(queue).deep_view();
        let ghost amplified = u > loaded_val2 && u > -1;
        let ghost abort_view = MsgView::Abort {
            view: u as u32,
            chain_id: replica.state@.chain_id,
        };
        if u > loaded_val2 && u > -1 {
            let abort_packet = Msg::Abort { view: u as u32, chain_id: replica.state.chain_id };
            proof {
                assert(abort_packet@ == abort_view);
            }
            broadcast_to_registered(replica, queue, abort_packet);
            replica.highest_abort.set(idx, u);
            proof {
                assert(replica.highest_abort@ == ha1.update(idx as int, u));
            }
        }
        let ghost q_amp = queue.deep_view();
        proof {
            if amplified {
                assert(forall|i: int|
                    0 <= i < q_start.len() && replica.channels.deep_view()[i] is Some
                        ==> #[trigger] q_amp[i] == q_start[i].push(abort_view));
            } else {
                assert(q_amp == q_start);
            }
        }
        let ghost ha2 = replica.highest_abort@;
        let sorted2 = sort_i64(&replica.highest_abort);
        let n_minus_f = crate::queue_handler::u32_to_usize(replica.state.n - replica.state.F);
        let w: i64 = sorted2[sorted2.len() - n_minus_f];
        proof {
            assert(w == kth_largest(
                replica.highest_abort@,
                replica.state@.n - replica.state@.fault_bound,
            ));
            lemma_sorted_element_bounds(
                replica.highest_abort@,
                sorted2@.len() - n_minus_f,
            );
        }
        if w + 1 >= replica.state.view as i64 {
            if w >= u32::MAX as i64 {
                return Err(ContractError::GenericErr { msg: "view counter exhausted".to_owned() });
            }
            let previous_view = replica.state.view;
            replica.state.view = (w + 1) as u32;
            proof {
                assert(replica.state@.view % replica.state@.n < replica.state@.n) by (
                nonlinear_arith)
                    requires
                        replica.state@.n >= 1,
                ;
            }
            replica.state.primary = replica.state.view % replica.state.n;
            replica.state.start_time = now;
            if previous_view != replica.state.view {
                crate::utils::reset_view_specific_maps(replica);
                let ghost mid = queue.deep_view();
                let ghost p_mid = pending.deep_view();
                let result = crate::view_change::append_queue_view_change(replica, queue, pending);
                proof {
                    crate::queue_handler::lemma_queue_extends_transitive(
                        old(queue).deep_view(),
                        mid,
                        queue.deep_view(),
                    );
                    assert(result is Ok);
                    assert(pending.deep_view()[p_mid.len() as int] == (MsgView::Request {
                        view: replica.state@.view,
                        chain_id: replica.state@.chain_id,
                    }));
                    assert(p_mid.push(
                        MsgView::Request {
                            view: replica.state@.view,
                            chain_id: replica.state@.chain_id,
                        },
                    ).is_prefix_of(pending.deep_view()));
                }
                match result {
                    Ok(_) => (),
                    Err(e) => {
                        return Err(e);
                    },
                }
            }
        }
        proof {
            if amplified {
                assert forall|i: int|
                    0 <= i < q_start.len() && replica.channels.deep_view()[i] is Some implies (
                #[trigger] q_start[i]).push(abort_view).is_prefix_of(queue.deep_view()[i]) by {
                    assert(q_amp[i] == q_start[i].push(abort_view));
                    assert(q_amp[i].is_prefix_of(queue.deep_view()[i]));
                }
            }
        }
    }
    Ok(())
}

/// Push one packet into the outbound slot of every registered peer.
fn broadcast_to_registered(replica: &Replica, queue: &mut Vec<Vec<Msg>>, packet: Msg)
    requires
        replica.wf(),
        old(queue).deep_view().len() == replica.channels.deep_view().len(),
    ensures
        final(queue).deep_view().len() == old(queue).deep_view().len(),
        forall|i: int|
            0 <= i < old(queue).deep_view().len() ==> #[trigger] final(queue).deep_view()[i] == (
            if replica.channels.deep_view()[i] is Some {
                old(queue).deep_view()[i].push(packet@)
            } else {
                old(queue).deep_view()[i]
            }),
        queue_extends(final(queue).deep_view(), old(queue).deep_view()),
{
    let ghost olddq = old(queue).deep_view();
    let n = queue.len();
    let mut i: usize = 0;
    while i < n
        invariant
            0 <= i <= n,
            replica.wf(),
            n == olddq.len(),
            n == replica.channels.deep_view().len(),
            queue.deep_view().len() == n,
            forall|j: int|
                0 <= j < i ==> #[trigger] queue.deep_view()[j] == (
                if replica.channels.deep_view()[j] is Some {
                    olddq[j].push(packet@)
                } else {
                    olddq[j]
                }),
            forall|j: int| i <= j < n ==> #[trigger] queue.deep_view()[j] == olddq[j],
        decreases n - i,
    {
        proof {
            assert(replica.channels.deep_view()[i as int] == match replica.channels@[i as int] {
                Some(ref s) => Some(s@),
                None => None,
            });
        }
        if replica.channels[i].is_some() {
            let ghost pre = queue.deep_view();
            let slot = crate::queue_handler::queue_slot_mut(queue, i);
            slot.push(packet.clone());
            proof {
                assert(queue.deep_view() =~~= pre.update(i as int, pre[i as int].push(packet@)));
            }
        }
        i = i + 1;
    }
    proof {
        assert forall|i: int|
            0 <= i < olddq.len() implies olddq[i].is_prefix_of(#[trigger] queue.deep_view()[i]) by {
            if replica.channels.deep_view()[i] is Some {
                assert(queue.deep_view()[i] == olddq[i].push(packet@));
                assert(olddq[i].is_prefix_of(olddq[i].push(packet@)));
            }
        }
    }
}

} // verus!
