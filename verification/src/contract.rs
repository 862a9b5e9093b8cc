//! The administrative surface: start an instance, steer it, trigger faults
//! for testing, and read the replica's records without mutating them.

use vstd::prelude::*;
use crate::msg::{
    AbortResponse, ChannelsResponse, DoneQueryResponse, EchoQueryResponse, ExecuteMsg,
    HighestAbortResponse, HighestReqResponse, Key1QueryResponse, Key2QueryResponse,
    Key3QueryResponse, LockQueryResponse, Msg, MsgKind, PacketMsg, ReceivedSuggestResponse,
    SendAllUponResponse, StateResponse, VIEW_TIMEOUT_SECONDS,
};
use crate::queue_handler::{intent_wf, receive_queue, same_network, ReceiveOutcome};
use crate::replica::Replica;
use crate::state::{fault_bound_of, InputType, State};
use crate::utils::NANOS_PER_SECOND;
use crate::ContractError;

verus! {

/// An empty host response: no packets, no callout.
fn empty_outcome() -> (r: ReceiveOutcome)
    ensures
        r.packets@.len() == 0,
        r.execute is None,
{
    ReceiveOutcome { packets: Vec::new(), execute: None }
}

/// Begin a new consensus instance on `value`: re-initialize the per-instance
/// records and state, then enter view 0.
pub fn handle_execute_input(
    replica: &mut Replica,
    value: InputType,
    now: u64,
    block_height: u64,
) -> (r: Result<ReceiveOutcome, ContractError>)
    requires
        old(replica).wf(),
        old(replica).in_network(),
    ensures
        final(replica).wf(),
        final(replica).in_network(),
        same_network(*old(replica), *final(replica)),
        r matches Ok(o) ==> (o.execute matches Some(e) ==> intent_wf(
            e,
            old(replica).state@.contract_addr,
        )),
        r matches Ok(o) ==> final(replica).state@.done_executed == (o.execute is Some),
{
    crate::utils::init_receive_map(replica);
    replica.state.re_init(value, now);
    proof {
        assert(fault_bound_of(replica.state@.n) < replica.state@.n) by (nonlinear_arith)
            requires
                replica.state@.n >= 1,
                fault_bound_of(replica.state@.n) == (if replica.state@.n == 3 {
                    1u32
                } else {
                    ((((replica.state@.n - 1) as int) / 3) as u32)
                }),
        ;
    }
    crate::view_change::view_change(replica, now, block_height)
}

/// Re-initialize the per-instance records and state without entering the
/// view: the instance starts when every replica is prepared.
pub fn handle_execute_preinput(
    replica: &mut Replica,
    value: InputType,
    now: u64,
) -> (r: Result<ReceiveOutcome, ContractError>)
    requires
        old(replica).wf(),
        old(replica).in_network(),
    ensures
        final(replica).wf(),
        final(replica).in_network(),
        same_network(*old(replica), *final(replica)),
        r is Ok,
        r matches Ok(o) ==> o.packets@.len() == 0 && o.execute is None,
        final(replica).state@.view == 0,
        final(replica).state@.primary == 0,
        final(replica).state@.done is None,
        !final(replica).state@.done_executed,
        final(replica).state@.n == old(replica).state@.n,
        final(replica).state@.chain_id == old(replica).state@.chain_id,
        final(replica).state@.contract_addr == old(replica).state@.contract_addr,
        final(replica).state@.key1 == 0 && final(replica).state@.key2 == 0,
        final(replica).state@.key3 == 0 && final(replica).state@.lock == 0,
        final(replica).state@.key1_val == value@ && final(replica).state@.key2_val == value@,
        final(replica).state@.key3_val == value@ && final(replica).state@.lock_val == value@,
        final(replica).state@.prev_key1 == -1 && final(replica).state@.prev_key2 == -1,
        final(replica).state@.suggestions =~= Seq::<(u32, crate::state::TBInputView)>::empty(),
        final(replica).state@.key2_proofs =~= Seq::<(u32, crate::state::TBInputView, i64)>::empty(),
        final(replica).state@.proofs =~= Seq::<(u32, crate::state::TBInputView, i64)>::empty(),
        !final(replica).state@.received_propose,
        final(replica).state@.sent =~= Seq::<MsgKind>::empty(),
        final(replica).state@.start_time == now,
        final(replica).state@.done_timestamp is None,
        final(replica).state@.done_block_height is None,
        final(replica).state@.fault_bound == fault_bound_of(old(replica).state@.n),
        final(replica).highest_req@.len() == old(replica).highest_req@.len(),
        forall|i: int|
            0 <= i < final(replica).highest_req@.len()
                ==> #[trigger] final(replica).highest_req@[i] == 0u32,
        final(replica).highest_abort@.len() == old(replica).highest_abort@.len(),
        forall|i: int|
            0 <= i < final(replica).highest_abort@.len()
                ==> #[trigger] final(replica).highest_abort@[i] == -1i64,
        final(replica).received_suggest@ =~= Seq::<u32>::empty(),
        final(replica).received_proof@ =~= Seq::<u32>::empty(),
        forall|k2: MsgKind, h: u64|
            crate::replica::is_hop_kind(k2) ==> #[trigger] final(replica).table_of(k2).spec_get(
                h,
            ) =~= Seq::<u32>::empty(),
        forall|i: int|
            0 <= i < final(replica).send_all_upon.deep_view().len()
                ==> #[trigger] final(replica).send_all_upon.deep_view()[i] =~= Seq::<
                crate::msg::MsgView,
            >::empty(),
{
    crate::utils::init_receive_map(replica);
    replica.state.re_init(value, now);
    proof {
        assert(fault_bound_of(replica.state@.n) < replica.state@.n) by (nonlinear_arith)
            requires
                replica.state@.n >= 1,
                fault_bound_of(replica.state@.n) == (if replica.state@.n == 3 {
                    1u32
                } else {
                    ((((replica.state@.n - 1) as int) / 3) as u32)
                }),
        ;
    }
    Ok(empty_outcome())
}

/// A manual abort: permitted only while no value is decided and after the
/// current view's deadline has elapsed; otherwise rejected with a
/// descriptive error.
pub fn handle_execute_abort(replica: &mut Replica, now: u64, block_height: u64) -> (r: Result<
    ReceiveOutcome,
    ContractError,
>)
    requires
        old(replica).wf(),
        old(replica).in_network(),
    ensures
        final(replica).wf(),
        final(replica).in_network(),
        same_network(*old(replica), *final(replica)),
        old(replica).state@.done is Some ==> r is Err,
        (old(replica).state@.done is None && now as int <= old(replica).state@.start_time as int
            + VIEW_TIMEOUT_SECONDS * NANOS_PER_SECOND) ==> r is Err,
        r is Ok ==> (old(replica).state@.done is None && now as int > old(
            replica,
        ).state@.start_time as int + VIEW_TIMEOUT_SECONDS * NANOS_PER_SECOND),
{
    if replica.state.done.is_some() {
        return Err(ContractError::CustomError { val: "Process is Done Cannot abort".to_owned() });
    }
    let end_time: u128 = (replica.state.start_time as u128) + (VIEW_TIMEOUT_SECONDS
        * NANOS_PER_SECOND) as u128;
    if (now as u128) > end_time {
        let abort_packet = Msg::Abort { view: replica.state.view, chain_id: replica.state.chain_id };
        let n = crate::queue_handler::u32_to_usize(replica.state.n);
        let mut queue: Vec<Vec<Msg>> = Vec::new();
        let mut i: usize = 0;
        while i < n
            invariant
                0 <= i <= n,
                queue.deep_view().len() == i,
            decreases n - i,
        {
            let mut slot: Vec<Msg> = Vec::new();
            slot.push(abort_packet.clone());
            queue.push(slot);
            i = i + 1;
        }
        proof {
            assert(queue.deep_view().len() == replica.channels.deep_view().len());
        }
        let mut batch: Vec<Msg> = Vec::new();
        batch.push(abort_packet);
        receive_queue(
            replica,
            Some("ABORT_UNUSED_CHANNEL".to_owned()),
            batch,
            &mut queue,
            now,
            block_height,
        )
    } else {
        Err(ContractError::CustomError {
            val: "Invalid Abort timetsamp hasn't passed yet".to_owned(),
        })
    }
}

/// Inject a protocol message as a named fault trigger would: the debug
/// entry points for Key3, Lock and Done messages.
fn inject_message(
    replica: &mut Replica,
    msg: Msg,
    local_channel_id: String,
    now: u64,
    block_height: u64,
) -> (r: Result<ReceiveOutcome, ContractError>)
    requires
        old(replica).wf(),
        old(replica).in_network(),
    ensures
        final(replica).wf(),
        final(replica).in_network(),
        same_network(*old(replica), *final(replica)),
{
    let n = crate::queue_handler::u32_to_usize(replica.state.n);
    let mut queue: Vec<Vec<Msg>> = crate::utils::empty_queues(n);
    proof {
        assert(queue.deep_view().len() == replica.channels.deep_view().len());
    }
    let mut batch: Vec<Msg> = Vec::new();
    batch.push(msg);
    if !(local_channel_id == "None".to_owned()) {
        receive_queue(replica, Some(local_channel_id), batch, &mut queue, now, block_height)
    } else {
        receive_queue(replica, None, batch, &mut queue, now, block_height)
    }
}

/// Steer the replica: start an instance, abort, trigger a fault for testing,
/// inject a debug message, or reconfigure the callout target.
pub fn execute(replica: &mut Replica, msg: ExecuteMsg, now: u64, block_height: u64) -> (r: Result<
    ReceiveOutcome,
    ContractError,
>)
    requires
        old(replica).wf(),
        old(replica).in_network(),
    ensures
        final(replica).wf(),
        final(replica).in_network(),
        msg is ForceAbort ==> r is Err && *final(replica) == *old(replica),
        (msg is Abort && old(replica).state@.done is Some) ==> r is Err,
        (msg is Abort && old(replica).state@.done is None && now as int <= old(
            replica,
        ).state@.start_time as int + VIEW_TIMEOUT_SECONDS * NANOS_PER_SECOND) ==> r is Err,
        (msg is Abort && r is Ok) ==> (old(replica).state@.done is None && now as int > old(
            replica,
        ).state@.start_time as int + VIEW_TIMEOUT_SECONDS * NANOS_PER_SECOND),
        msg is PreInput ==> r is Ok,
        msg matches ExecuteMsg::SetContractAddr { addr } ==> (r is Ok
            && final(replica).state@.contract_addr == addr@),
        msg matches ExecuteMsg::PreInput { value } ==> (r matches Ok(o) ==> o.execute is None
            && final(replica).state@.view == 0 && final(replica).state@.done is None),
{
    match msg {
        ExecuteMsg::Input { value } => handle_execute_input(replica, value, now, block_height),
        ExecuteMsg::PreInput { value } => handle_execute_preinput(replica, value, now),
        ExecuteMsg::ForceAbort {} => (Err(ContractError::InvalidTransition {
            msg: "forced aborts are not supported".to_owned(),
        })),
        ExecuteMsg::Abort {} => handle_execute_abort(replica, now, block_height),
        ExecuteMsg::Trigger { behavior } => handle_trigger(replica, behavior, now, block_height),
        ExecuteMsg::Key3 { val, view, local_channel_id } => {
            let mut i: usize = 0;
            while i < 4
                invariant
                    replica.wf(),
                    replica.in_network(),
                decreases 4 - i,
            {
                if i < replica.highest_req.len() {
                    replica.highest_req.set(i, 0);
                }
                i = i + 1;
            }
            inject_message(replica, Msg::Key3 { val, view }, local_channel_id, now, block_height)
        },
        ExecuteMsg::Lock { val, view, local_channel_id } => (inject_message(
            replica,
            Msg::Lock { val, view },
            local_channel_id,
            now,
            block_height,
        )),
        ExecuteMsg::Done { val, view: _, local_channel_id } => (inject_message(
            replica,
            Msg::Done { val },
            local_channel_id,
            now,
            block_height,
        )),
        ExecuteMsg::SetContractAddr { addr } => {
            replica.state.contract_addr = addr;
            Ok(empty_outcome())
        },
    }
}

/// Run a named misbehaviour for fault-injection testing.
pub fn handle_trigger(replica: &mut Replica, behavior: String, now: u64, block_height: u64) -> (r:
    Result<ReceiveOutcome, ContractError>)
    requires
        old(replica).wf(),
        old(replica).in_network(),
    ensures
        final(replica).wf(),
        final(replica).in_network(),
{
    if behavior == "multi_propose".to_owned() {
        trigger_multi_propose(replica)
    } else if behavior == "key1_diff_val".to_owned() {
        trigger_key1_diff_val(replica)
    } else if behavior == "abort".to_owned() {
        trigger_abort(replica, now, block_height)
    } else if behavior == "done".to_owned() {
        trigger_done(replica, now, block_height)
    } else if behavior == "done_2".to_owned() {
        trigger_done_2(replica)
    } else {
        Ok(empty_outcome())
    }
}

/// A throwaway value for fault-injection messages.
fn placeholder_input() -> (r: InputType)
    ensures
        r@.binary == "TODO"@,
{
    InputType { binary: "TODO".to_owned(), public_key: Vec::new(), signature: Vec::new() }
}

/// Misbehaviour: broadcast a Done for an unagreed value to every party.
pub fn trigger_done(replica: &mut Replica, now: u64, block_height: u64) -> (r: Result<
    ReceiveOutcome,
    ContractError,
>)
    requires
        old(replica).wf(),
        old(replica).in_network(),
    ensures
        final(replica).wf(),
        final(replica).in_network(),
{
    let n = crate::queue_handler::u32_to_usize(replica.state.n);
    let mut queue: Vec<Vec<Msg>> = crate::utils::empty_queues(n);
    proof {
        assert(queue.deep_view().len() == replica.channels.deep_view().len());
    }
    let done_packet = Msg::Done { val: placeholder_input() };
    let mut pending: Vec<Msg> = Vec::new();
    crate::queue_handler::send_all_party(replica, &mut queue, done_packet, &mut pending);
    proof {
        assert(pending@.len() == pending.deep_view().len());
    }
    let outcome = receive_queue(replica, None, pending, &mut queue, now, block_height)?;
    let packets = crate::view_change::convert_queue_to_ibc_msgs(replica, &queue)?;
    Ok(ReceiveOutcome { packets, execute: outcome.execute })
}

/// Misbehaviour: send two conflicting Done values to two different peers.
pub fn trigger_done_2(replica: &mut Replica) -> (r: Result<ReceiveOutcome, ContractError>)
    requires
        old(replica).wf(),
        old(replica).in_network(),
    ensures
        final(replica).wf(),
        final(replica).in_network(),
        *final(replica) == *old(replica),
{
    let packet_1 = Msg::Done { val: placeholder_input() };
    let packet_2 = Msg::Done { val: placeholder_input() };
    let channel_id_1 = load_channel(replica, 1)?;
    let channel_id_2 = load_channel(replica, 2)?;
    let mut vec_1: Vec<Msg> = Vec::new();
    let mut vec_2: Vec<Msg> = Vec::new();
    vec_1.push(packet_1);
    vec_2.push(packet_2);
    let mut packets: Vec<(String, PacketMsg)> = Vec::new();
    packets.push((channel_id_1, PacketMsg::MsgQueue(vec_1)));
    packets.push((channel_id_2, PacketMsg::MsgQueue(vec_2)));
    Ok(ReceiveOutcome { packets, execute: None })
}

/// The registered channel of one peer, or the report that it is missing.
fn load_channel(replica: &Replica, chain_id: u32) -> (r: Result<String, ContractError>)
    requires
        replica.wf(),
    ensures
        r matches Ok(c) ==> chain_id < replica.channels.deep_view().len()
            && replica.channels.deep_view()[chain_id as int] == Some(c@),
{
    let idx = crate::queue_handler::u32_to_usize(chain_id);
    if idx >= replica.channels.len() {
        return Err(ContractError::StateNotFound);
    }
    proof {
        assert(replica.channels.deep_view()[idx as int] == match replica.channels@[idx as int] {
            Some(ref c) => Some(c@),
            None => None,
        });
    }
    match &replica.channels[idx] {
        Some(c) => Ok(c.clone()),
        None => Err(ContractError::StateNotFound),
    }
}

/// Misbehaviour: broadcast an Abort for the current view from a backup.
pub fn trigger_abort(replica: &mut Replica, now: u64, block_height: u64) -> (r: Result<
    ReceiveOutcome,
    ContractError,
>)
    requires
        old(replica).wf(),
        old(replica).in_network(),
    ensures
        final(replica).wf(),
        final(replica).in_network(),
{
    if replica.state.chain_id == replica.state.primary {
        return Ok(empty_outcome());
    }
    let n = crate::queue_handler::u32_to_usize(replica.state.n);
    let mut queue: Vec<Vec<Msg>> = crate::utils::empty_queues(n);
    proof {
        assert(queue.deep_view().len() == replica.channels.deep_view().len());
    }
    let abort_packet = Msg::Abort { view: replica.state.view, chain_id: replica.state.chain_id };
    let mut pending: Vec<Msg> = Vec::new();
    crate::queue_handler::send_all_party(replica, &mut queue, abort_packet, &mut pending);
    proof {
        assert(pending@.len() == pending.deep_view().len());
    }
    let outcome = receive_queue(replica, None, pending, &mut queue, now, block_height)?;
    let packets = crate::view_change::convert_queue_to_ibc_msgs(replica, &queue)?;
    Ok(ReceiveOutcome { packets, execute: outcome.execute })
}

/// Misbehaviour: send each peer a Key1 carrying a different value.
pub fn trigger_key1_diff_val(replica: &mut Replica) -> (r: Result<ReceiveOutcome, ContractError>)
    requires
        old(replica).wf(),
        old(replica).in_network(),
    ensures
        final(replica).wf(),
        final(replica).in_network(),
        *final(replica) == *old(replica),
{
    if replica.state.chain_id == replica.state.primary {
        return Ok(empty_outcome());
    }
    let channel_ids = crate::utils::get_id_channel_pair_from_storage(replica);
    let mut packets: Vec<(String, PacketMsg)> = Vec::new();
    let mut i: usize = 0;
    while i < channel_ids.len()
        invariant
            0 <= i <= channel_ids@.len(),
        decreases channel_ids@.len() - i,
    {
        let val = placeholder_input();
        let mut msg_queue: Vec<Msg> = Vec::new();
        msg_queue.push(Msg::Key1 { val, view: replica.state.view });
        packets.push((channel_ids[i].1.clone(), PacketMsg::MsgQueue(msg_queue)));
        i = i + 1;
    }
    Ok(ReceiveOutcome { packets, execute: None })
}

/// Misbehaviour: propose a different value to every peer at once.
pub fn trigger_multi_propose(replica: &mut Replica) -> (r: Result<ReceiveOutcome, ContractError>)
    requires
        old(replica).wf(),
        old(replica).in_network(),
    ensures
        final(replica).wf(),
        final(replica).in_network(),
{
    if replica.state.chain_id != replica.state.primary {
        return Ok(empty_outcome());
    }
    let channel_ids = crate::utils::get_id_channel_pair_from_storage(replica);
    let mut packets: Vec<(String, PacketMsg)> = Vec::new();
    let mut i: usize = 0;
    while i < channel_ids.len()
        invariant
            0 <= i <= channel_ids@.len(),
            replica.wf(),
        decreases channel_ids@.len() - i,
    {
        let v = placeholder_input();
        let mut msg_queue: Vec<Msg> = Vec::new();
        msg_queue.push(Msg::Propose {
            chain_id: replica.state.chain_id,
            k: replica.state.view,
            v,
            view: replica.state.view,
        });
        packets.push((channel_ids[i].1.clone(), PacketMsg::MsgQueue(msg_queue)));
        i = i + 1;
    }
    replica.state.current_tx_id = replica.state.current_tx_id.wrapping_add(1);
    Ok(ReceiveOutcome { packets, execute: None })
}


/// A copy of a list of replica ids.
fn clone_u32s(v: &Vec<u32>) -> (r: Vec<u32>)
    ensures
        r@ == v@,
{
    let mut out: Vec<u32> = Vec::new();
    let mut i: usize = 0;
    while i < v.len()
        invariant
            0 <= i <= v@.len(),
            out@ =~= v@.take(i as int),
        decreases v@.len() - i,
    {
        out.push(v[i]);
        proof {
            assert(out@ =~= v@.take(i + 1));
        }
        i = i + 1;
    }
    proof {
        assert(v@.take(v@.len() as int) =~= v@);
    }
    out
}

/// A copy of a list of channel handles.
fn clone_strings(v: &Vec<String>) -> (r: Vec<String>)
    ensures
        r.deep_view() == v.deep_view(),
{
    let mut out: Vec<String> = Vec::new();
    let mut i: usize = 0;
    while i < v.len()
        invariant
            0 <= i <= v@.len(),
            v.deep_view().len() == v@.len(),
            out.deep_view() =~~= v.deep_view().take(i as int),
        decreases v@.len() - i,
    {
        let ghost pre = out.deep_view();
        out.push(v[i].clone());
        proof {
            assert(v.deep_view()[i as int] == v@[i as int]@);
            assert(out.deep_view() =~~= pre.push(v.deep_view()[i as int]));
            assert(v.deep_view().take(i + 1).drop_last() =~~= v.deep_view().take(i as int));
            assert(v.deep_view().take(i + 1).last() == v.deep_view()[i as int]);
            assert(out.deep_view() =~~= v.deep_view().take(i + 1));
        }
        i = i + 1;
    }
    proof {
        assert(v.deep_view().take(v.deep_view().len() as int) =~~= v.deep_view());
    }
    out
}

/// A copy of the collected suggestions.
fn clone_suggestions(v: &Vec<(u32, InputType)>) -> (r: Vec<(u32, InputType)>)
    ensures
        r.deep_view() == v.deep_view(),
{
    let mut out: Vec<(u32, InputType)> = Vec::new();
    let mut i: usize = 0;
    while i < v.len()
        invariant
            0 <= i <= v@.len(),
            v.deep_view().len() == v@.len(),
            out.deep_view() =~~= v.deep_view().take(i as int),
        decreases v@.len() - i,
    {
        let p = &v[i];
        let ghost pre = out.deep_view();
        out.push((p.0, p.1.clone()));
        proof {
            assert(v.deep_view()[i as int] == (v@[i as int].0, v@[i as int].1@));
            assert(out.deep_view() =~~= pre.push(v.deep_view()[i as int]));
            assert(v.deep_view().take(i + 1).drop_last() =~~= v.deep_view().take(i as int));
            assert(v.deep_view().take(i + 1).last() == v.deep_view()[i as int]);
            assert(out.deep_view() =~~= v.deep_view().take(i + 1));
        }
        i = i + 1;
    }
    proof {
        assert(v.deep_view().take(v.deep_view().len() as int) =~~= v.deep_view());
    }
    out
}

/// A copy of the sent-guard set.
fn clone_kinds(v: &Vec<MsgKind>) -> (r: Vec<MsgKind>)
    ensures
        r@ == v@,
{
    let mut out: Vec<MsgKind> = Vec::new();
    let mut i: usize = 0;
    while i < v.len()
        invariant
            0 <= i <= v@.len(),
            out@ =~= v@.take(i as int),
        decreases v@.len() - i,
    {
        out.push(v[i]);
        proof {
            assert(out@ =~= v@.take(i + 1));
        }
        i = i + 1;
    }
    proof {
        assert(v@.take(v@.len() as int) =~= v@);
    }
    out
}

/// A copy of the replica record, for the read-only query surface.
fn clone_state(s: &State) -> (r: State)
    ensures
        r@ == s@,
{
    let done = match &s.done {
        Some(v) => Some(v.clone()),
        None => None,
    };
    let r = State {
        n: s.n,
        chain_id: s.chain_id,
        channel_ids: clone_strings(&s.channel_ids),
        current_tx_id: s.current_tx_id,
        view: s.view,
        primary: s.primary,
        key1: s.key1,
        key2: s.key2,
        key3: s.key3,
        lock: s.lock,
        key1_val: s.key1_val.clone(),
        key2_val: s.key2_val.clone(),
        key3_val: s.key3_val.clone(),
        lock_val: s.lock_val.clone(),
        prev_key1: s.prev_key1,
        prev_key2: s.prev_key2,
        suggestions: clone_suggestions(&s.suggestions),
        key2_proofs: crate::queue_handler::clone_proofs(&s.key2_proofs),
        proofs: crate::queue_handler::clone_proofs(&s.proofs),
        received_propose: s.received_propose,
        sent: clone_kinds(&s.sent),
        done,
        start_time: s.start_time,
        contract_addr: s.contract_addr.clone(),
        done_executed: s.done_executed,
        done_timestamp: s.done_timestamp,
        done_block_height: s.done_block_height,
        F: s.F,
    };
    proof {
        assert(r@ =~~= s@);
    }
    r
}

/// The Echo quorum record.
pub fn query_echo(replica: &Replica) -> (r: EchoQueryResponse)
    ensures
        r.echo.deep_view() == replica.received_echo.entries.deep_view(),
{
    EchoQueryResponse { echo: replica.received_echo.pairs() }
}

/// The Key1 quorum record.
pub fn query_key1(replica: &Replica) -> (r: Key1QueryResponse)
    ensures
        r.key1.deep_view() == replica.received_key1.entries.deep_view(),
{
    Key1QueryResponse { key1: replica.received_key1.pairs() }
}

/// The Key2 quorum record.
pub fn query_key2(replica: &Replica) -> (r: Key2QueryResponse)
    ensures
        r.key2.deep_view() == replica.received_key2.entries.deep_view(),
{
    Key2QueryResponse { key2: replica.received_key2.pairs() }
}

/// The Key3 quorum record.
pub fn query_key3(replica: &Replica) -> (r: Key3QueryResponse)
    ensures
        r.key3.deep_view() == replica.received_key3.entries.deep_view(),
{
    Key3QueryResponse { key3: replica.received_key3.pairs() }
}

/// The Lock quorum record.
pub fn query_lock(replica: &Replica) -> (r: LockQueryResponse)
    ensures
        r.lock.deep_view() == replica.received_lock.entries.deep_view(),
{
    LockQueryResponse { lock: replica.received_lock.pairs() }
}

/// The Done quorum record.
pub fn query_done(replica: &Replica) -> (r: DoneQueryResponse)
    ensures
        r.done.deep_view() == replica.received_done.entries.deep_view(),
{
    DoneQueryResponse { done: replica.received_done.pairs() }
}

/// The replica's progress: the full record while undecided, otherwise the
/// decided value and its timing.
pub fn query_state(replica: &Replica) -> (r: StateResponse)
    requires
        replica.state@.done_timestamp matches Some(t) ==> replica.state@.start_time <= t,
    ensures
        replica.state@.done is None ==> (r matches StateResponse::InProgress { state } && state@
            == replica.state@),
        replica.state@.done matches Some(v) ==> (r matches StateResponse::Done {
            decided_val,
            decided_timestamp,
            block_height,
            start_time,
            ..
        } && decided_val@ == v.binary && decided_timestamp == replica.state@.done_timestamp
            && block_height == replica.state@.done_block_height && start_time
            == replica.state@.start_time),
{
    match &replica.state.done {
        Some(val) => {
            let duration: Option<u64> = match replica.state.done_timestamp {
                Some(ts) => (Some(crate::utils::get_seconds_diff(
                    replica.state.start_time,
                    ts,
                ))),
                None => None,
            };
            let minutes_duration: Option<u64> = match duration {
                Some(d) => Some(d / 60),
                None => None,
            };
            StateResponse::Done {
                decided_val: val.binary.clone(),
                decided_timestamp: replica.state.done_timestamp,
                block_height: replica.state.done_block_height,
                start_time: replica.state.start_time,
                seconds_duration: duration,
                minutes_duration,
            }
        },
        None => StateResponse::InProgress { state: clone_state(&replica.state) },
    }
}

/// The replica record, regardless of progress.
pub fn query_state_progress(replica: &Replica) -> (r: StateResponse)
    ensures
        r matches StateResponse::InProgress { state } && state@ == replica.state@,
{
    StateResponse::InProgress { state: clone_state(&replica.state) }
}

/// The registered (replica id, channel handle) pairs.
pub fn query_channels(replica: &Replica) -> (r: ChannelsResponse)
    requires
        replica.wf(),
    ensures
        r.port_chan_pair.deep_view() == crate::replica::registered_pairs(
            replica.channels.deep_view(),
        ),
{
    ChannelsResponse { port_chan_pair: crate::utils::get_id_channel_pair(replica) }
}

/// Each replica's highest announced Request view.
pub fn query_highest_request(replica: &Replica) -> (r: HighestReqResponse)
    requires
        replica.wf(),
    ensures
        r.highest_request@.len() == replica.highest_req@.len(),
        forall|i: int|
            0 <= i < replica.highest_req@.len() ==> #[trigger] r.highest_request@[i] == (
            i as u32,
            replica.highest_req@[i],
        ),
{
    let mut out: Vec<(u32, u32)> = Vec::new();
    let mut i: usize = 0;
    while i < replica.highest_req.len()
        invariant
            0 <= i <= replica.highest_req@.len(),
            replica.highest_req@.len() <= u32::MAX,
            out@.len() == i,
            forall|j: int|
                0 <= j < i ==> #[trigger] out@[j] == (j as u32, replica.highest_req@[j]),
        decreases replica.highest_req@.len() - i,
    {
        out.push((i as u32, replica.highest_req[i]));
        i = i + 1;
    }
    HighestReqResponse { highest_request: out }
}

/// Each replica's highest announced Abort view.
pub fn query_highest_abort(replica: &Replica) -> (r: HighestAbortResponse)
    requires
        replica.wf(),
    ensures
        r.highest_abort@.len() == replica.highest_abort@.len(),
        forall|i: int|
            0 <= i < replica.highest_abort@.len() ==> #[trigger] r.highest_abort@[i] == (
            i as u32,
            replica.highest_abort@[i],
        ),
{
    let mut out: Vec<(u32, i64)> = Vec::new();
    let mut i: usize = 0;
    while i < replica.highest_abort.len()
        invariant
            0 <= i <= replica.highest_abort@.len(),
            replica.highest_abort@.len() <= u32::MAX,
            out@.len() == i,
            forall|j: int|
                0 <= j < i ==> #[trigger] out@[j] == (j as u32, replica.highest_abort@[j]),
        decreases replica.highest_abort@.len() - i,
    {
        out.push((i as u32, replica.highest_abort[i]));
        i = i + 1;
    }
    HighestAbortResponse { highest_abort: out }
}

/// The senders whose Suggest was already counted this view.
pub fn query_received_suggest(replica: &Replica) -> (r: ReceivedSuggestResponse)
    ensures
        r.received_suggest@ == replica.received_suggest@,
{
    ReceivedSuggestResponse { received_suggest: clone_u32s(&replica.received_suggest) }
}

/// The join-on-request buffers that still hold packets.
pub fn query_send_all_upon(replica: &Replica) -> (r: SendAllUponResponse)
    requires
        replica.wf(),
    ensures
        forall|j: int|
            0 <= j < r.send_all_upon@.len() ==> {
                let pair = #[trigger] r.send_all_upon@[j];
                &&& pair.0 < replica.send_all_upon.deep_view().len()
                &&& pair.1.deep_view() == replica.send_all_upon.deep_view()[pair.0 as int]
                &&& pair.1.deep_view().len() > 0
            },
{
    let mut out: Vec<(u32, Vec<Msg>)> = Vec::new();
    let mut i: usize = 0;
    while i < replica.send_all_upon.len()
        invariant
            0 <= i <= replica.send_all_upon@.len(),
            replica.send_all_upon@.len() <= u32::MAX,
            replica.send_all_upon.deep_view().len() == replica.send_all_upon@.len(),
            forall|j: int|
                0 <= j < out@.len() ==> {
                    let pair = #[trigger] out@[j];
                    &&& pair.0 < replica.send_all_upon.deep_view().len()
                    &&& pair.1.deep_view() == replica.send_all_upon.deep_view()[pair.0 as int]
                    &&& pair.1.deep_view().len() > 0
                },
        decreases replica.send_all_upon@.len() - i,
    {
        if replica.send_all_upon[i].len() > 0 {
            let copied = crate::view_change::clone_msgs(&replica.send_all_upon[i]);
            proof {
                assert(replica.send_all_upon.deep_view()[i as int] == replica.send_all_upon@[
                    i as int
                ].deep_view());
            }
            out.push((i as u32, copied));
        }
        i = i + 1;
    }
    SendAllUponResponse { send_all_upon: out }
}

/// Whether a manual abort would currently be accepted, with the timing that
/// decides it.
pub fn query_abort_info(replica: &Replica, now: u64) -> (r: AbortResponse)
    requires
        replica.state@.start_time + 60 * NANOS_PER_SECOND <= u64::MAX,
    ensures
        r.start_time == replica.state@.start_time,
        r.current_time == now,
        r.is_timeout == (now as int > replica.state@.start_time as int + VIEW_TIMEOUT_SECONDS
            * NANOS_PER_SECOND),
        r.done == (replica.state@.done is Some),
        r.should_abort == (r.is_timeout && r.done),
{
    let end_time = replica.state.start_time + VIEW_TIMEOUT_SECONDS * NANOS_PER_SECOND;
    let timeout = now > end_time;
    let is_input_finished = replica.state.done.is_some();
    // `should_abort` reports `is_timeout && done`, although a manual abort is
    // accepted only while no value is decided; the enforcing path is
    // `handle_execute_abort`, and this diagnostic field keeps its historical
    // reading.
    AbortResponse {
        start_time: replica.state.start_time,
        end_time: replica.state.start_time + 60 * NANOS_PER_SECOND,
        current_time: now,
        is_timeout: timeout,
        done: is_input_finished,
        should_abort: timeout && is_input_finished,
    }
}

} // verus!
