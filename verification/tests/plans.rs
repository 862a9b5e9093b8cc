use trustboost::contract::{execute, query_abort_info, query_send_all_upon, query_state_progress};
use trustboost::msg::{
    add_broadcast_msgs, add_broadcast_submsgs, broadcast_response, broadcast_submsgs, ExecuteMsg,
    Msg, PacketMsg, ResponsePlan, StateResponse, REQUEST_REPLY_ID,
};
use trustboost::replica::Replica;
use trustboost::state::TBInput;
use trustboost::utils::{get_seconds_diff, get_timeout, init_receive_map};
use trustboost::ContractError;

fn input_for_plans(binary: &str) -> TBInput {
    TBInput { binary: binary.to_string(), public_key: Vec::new(), signature: Vec::new() }
}

fn plan_channel(a: u32, b: u32) -> String {
    let (x, y) = if a < b { (a, b) } else { (b, a) };
    format!("chan-{}-{}", x, y)
}

fn plan_replica(chain_id: u32, n: u32) -> Replica {
    let input = input_for_plans("e30=");
    let mut r = Replica::new(chain_id, input.clone(), "target-contract".to_string(), 0);
    for j in 1..n {
        r.channel_connected(format!("conn-{}", j));
    }
    for j in 0..n {
        if j != chain_id {
            r.receive_who_am_i(plan_channel(chain_id, j), j).unwrap();
        }
    }
    init_receive_map(&mut r);
    r.state.re_init(input, 100);
    r
}

#[test]
fn broadcast_submsgs_addresses_every_channel() {
    let plan = broadcast_submsgs(
        "broadcast_propose".to_string(),
        vec!["a".to_string(), "b".to_string()],
        PacketMsg::WhoAmI { chain_id: 3 },
    );
    assert_eq!(plan.messages.len(), 0);
    assert_eq!(plan.submessages.len(), 2);
    assert_eq!(plan.submessages[0].channel_id, "a");
    assert_eq!(plan.submessages[1].channel_id, "b");
    assert_eq!(plan.submessages[0].reply_id, REQUEST_REPLY_ID);
    assert_eq!(plan.submessages[1].packet, PacketMsg::WhoAmI { chain_id: 3 });
    assert_eq!(plan.attributes, vec![("action".to_string(), "broadcast_propose".to_string())]);
}

#[test]
fn add_broadcast_appends_without_disturbing() {
    let base = ResponsePlan {
        messages: Vec::new(),
        submessages: Vec::new(),
        attributes: vec![("action".to_string(), "x".to_string())],
    };
    let plan = add_broadcast_submsgs(
        base,
        vec!["c".to_string()],
        PacketMsg::WhoAmI { chain_id: 1 },
        55,
    );
    assert_eq!(plan.submessages.len(), 1);
    assert_eq!(plan.submessages[0].reply_id, 55);
    assert_eq!(plan.attributes.len(), 1);
    let plan2 = add_broadcast_msgs(plan, vec!["d".to_string()], PacketMsg::WhoAmI { chain_id: 2 });
    assert_eq!(plan2.messages.len(), 1);
    assert_eq!(plan2.messages[0].channel_id, "d");
    assert_eq!(plan2.submessages.len(), 1);
}

#[test]
fn broadcast_response_crosses_packets_and_channels() {
    let plan = broadcast_response(
        vec![(1, "chan-a".to_string()), (2, "chan-b".to_string())],
        vec![PacketMsg::WhoAmI { chain_id: 1 }, PacketMsg::WhoAmI { chain_id: 2 }],
        "broadcast".to_string(),
    );
    assert_eq!(plan.messages.len(), 4);
    assert_eq!(plan.messages[0].channel_id, "chan-a");
    assert_eq!(plan.messages[0].packet, PacketMsg::WhoAmI { chain_id: 1 });
    assert_eq!(plan.messages[1].channel_id, "chan-b");
    assert_eq!(plan.messages[2].packet, PacketMsg::WhoAmI { chain_id: 2 });
    assert_eq!(plan.submessages.len(), 0);
}

#[test]
fn timeout_is_one_hour_in_nanoseconds() {
    assert_eq!(get_timeout(0), 3_600_000_000_000);
    assert_eq!(get_timeout(5), 3_600_000_000_005);
}

#[test]
fn seconds_difference_truncates_to_whole_seconds() {
    assert_eq!(get_seconds_diff(0, 2_500_000_000), 2);
    assert_eq!(get_seconds_diff(1_000_000_000, 1_999_999_999), 0);
}

#[test]
fn manual_abort_needs_the_deadline() {
    let mut rep = plan_replica(0, 4);
    // start_time is 100 and the deadline is 10 seconds: far in the future
    let r = execute(&mut rep, ExecuteMsg::Abort {}, 200, 5);
    assert!(matches!(r.unwrap_err(), ContractError::CustomError { .. }));
    // once the deadline passed, the abort is accepted and broadcast
    let r2 = execute(&mut rep, ExecuteMsg::Abort {}, 100 + 11_000_000_000, 5).unwrap();
    assert!(r2.packets.len() > 0);
}

#[test]
fn manual_abort_after_decision_is_rejected() {
    let mut rep = plan_replica(0, 4);
    rep.state.done = Some(input_for_plans("e30="));
    let r = execute(&mut rep, ExecuteMsg::Abort {}, 100 + 11_000_000_000, 5);
    assert!(matches!(r.unwrap_err(), ContractError::CustomError { .. }));
}

#[test]
fn forced_abort_is_not_supported() {
    let mut rep = plan_replica(0, 4);
    let r = execute(&mut rep, ExecuteMsg::ForceAbort {}, 200, 5);
    assert!(matches!(r.unwrap_err(), ContractError::InvalidTransition { .. }));
}

#[test]
fn set_contract_addr_reconfigures_the_callout_target() {
    let mut rep = plan_replica(0, 4);
    execute(&mut rep, ExecuteMsg::SetContractAddr { addr: "other".to_string() }, 200, 5).unwrap();
    assert_eq!(rep.state.contract_addr, "other");
}

#[test]
fn abort_info_reports_the_deadline() {
    let rep = plan_replica(0, 4);
    let info = query_abort_info(&rep, 200);
    assert_eq!(info.start_time, 100);
    assert_eq!(info.current_time, 200);
    assert!(!info.is_timeout);
    assert!(!info.done);
    assert!(!info.should_abort);
    let late = query_abort_info(&rep, 100 + 11_000_000_000);
    assert!(late.is_timeout);
}

#[test]
fn state_progress_mirrors_the_record() {
    let rep = plan_replica(2, 4);
    match query_state_progress(&rep) {
        StateResponse::InProgress { state } => {
            assert_eq!(state.n, 4);
            assert_eq!(state.chain_id, 2);
            assert_eq!(state.view, 0);
        },
        StateResponse::Done { .. } => panic!("undecided replica reported a decision"),
    }
}

#[test]
fn join_buffer_holds_packets_for_lagging_replicas() {
    let mut rep = plan_replica(0, 4);
    // replica 3 has not announced view 0: pretend its tracker is behind
    rep.highest_req[3] = 7;
    let mut queue: Vec<Vec<Msg>> = vec![Vec::new(), Vec::new(), Vec::new(), Vec::new()];
    let mut pending: Vec<Msg> = Vec::new();
    trustboost::queue_handler::send_all_upon_join_queue(
        &mut rep,
        &mut queue,
        Msg::Request { view: 0, chain_id: 0 },
        &mut pending,
    );
    assert_eq!(queue[1].len(), 1);
    assert_eq!(queue[2].len(), 1);
    assert_eq!(queue[3].len(), 0);
    let buffered = query_send_all_upon(&rep).send_all_upon;
    assert_eq!(buffered.len(), 1);
    assert_eq!(buffered[0].0, 3);
    assert_eq!(buffered[0].1.len(), 1);
    assert_eq!(pending.len(), 1);
}

#[test]
fn request_flushes_the_join_buffer() {
    let mut rep = plan_replica(0, 4);
    // the replica moved to view 1 while the peers still announce view 0
    rep.state.view = 1;
    rep.state.primary = 1;
    let mut queue: Vec<Vec<Msg>> = vec![Vec::new(), Vec::new(), Vec::new(), Vec::new()];
    let mut pending: Vec<Msg> = Vec::new();
    trustboost::queue_handler::send_all_upon_join_queue(
        &mut rep,
        &mut queue,
        Msg::Request { view: 1, chain_id: 0 },
        &mut pending,
    );
    // nobody announced view 1 yet: everything is buffered
    assert!(queue[3].is_empty());
    assert_eq!(query_send_all_upon(&rep).send_all_upon.len(), 3);
    // replica 3 catches up: its buffer is flushed into its outbound slot
    trustboost::queue_handler::handle_request(&mut rep, &mut queue, 1, 3).unwrap();
    assert_eq!(queue[3].len(), 1);
    assert!(matches!(&queue[3][0], Msg::Request { view: 1, chain_id: 0 }));
    let buffered = query_send_all_upon(&rep).send_all_upon;
    assert!(buffered.iter().all(|(i, _)| *i != 3));
}
