use trustboost::msg::{Msg, MsgKind};
use trustboost::queue_handler::{handle_propose, handle_request, receive_queue};
use trustboost::replica::Replica;
use trustboost::state::{State, TBInput};
use trustboost::utils::init_receive_map;
use trustboost::contract::{query_done, query_echo, query_highest_abort, query_received_suggest};
use trustboost::ContractError;

fn plain_input(binary: &str) -> TBInput {
    TBInput { binary: binary.to_string(), public_key: Vec::new(), signature: Vec::new() }
}

fn pair_channel(a: u32, b: u32) -> String {
    let (x, y) = if a < b { (a, b) } else { (b, a) };
    format!("chan-{}-{}", x, y)
}

/// A replica of an `n`-member network with every channel registered and a
/// fresh instance started on `input`.
fn network_replica(chain_id: u32, n: u32, input: TBInput) -> Replica {
    let mut r = Replica::new(chain_id, input.clone(), "target-contract".to_string(), 0);
    for j in 1..n {
        r.channel_connected(format!("conn-{}", j));
    }
    for j in 0..n {
        if j != chain_id {
            r.receive_who_am_i(pair_channel(chain_id, j), j).unwrap();
        }
    }
    init_receive_map(&mut r);
    r.state.re_init(input, 0);
    r
}

fn fresh_queue(n: u32) -> Vec<Vec<Msg>> {
    let mut q = Vec::new();
    for _ in 0..n {
        q.push(Vec::new());
    }
    q
}

fn deliver(rep: &mut Replica, chan: &str, msgs: Vec<Msg>) -> trustboost::queue_handler::ReceiveOutcome {
    let n = rep.state.n;
    let mut queue = fresh_queue(n);
    receive_queue(rep, Some(chan.to_string()), msgs, &mut queue, 1_000, 5).unwrap()
}

#[test]
fn quorum_constants_for_four_replicas() {
    let rep = network_replica(0, 4, plain_input("e30="));
    assert_eq!(rep.state.n, 4);
    assert_eq!(rep.state.F, 1);
    assert_eq!(rep.state.n - rep.state.F, 3);
    assert_eq!(rep.state.F + 1, 2);
}

#[test]
fn quorum_constants_for_three_replicas() {
    let rep = network_replica(0, 3, plain_input("e30="));
    assert_eq!(rep.state.n, 3);
    assert_eq!(rep.state.F, 1);
}

#[test]
fn abort_scenario_first_vote_changes_nothing() {
    let mut rep = network_replica(0, 4, plain_input("e30="));
    assert_eq!(
        query_highest_abort(&rep).highest_abort,
        vec![(0, -1), (1, -1), (2, -1), (3, -1)]
    );
    deliver(&mut rep, "chan-0-1", vec![Msg::Abort { view: 0, chain_id: 1 }]);
    assert_eq!(
        query_highest_abort(&rep).highest_abort,
        vec![(0, -1), (1, 0), (2, -1), (3, -1)]
    );
    assert_eq!(rep.state.view, 0);
}

#[test]
fn abort_scenario_second_vote_records_but_keeps_view() {
    let mut rep = network_replica(0, 4, plain_input("e30="));
    deliver(&mut rep, "chan-0-1", vec![Msg::Abort { view: 0, chain_id: 1 }]);
    deliver(&mut rep, "chan-0-1", vec![Msg::Abort { view: 0, chain_id: 0 }]);
    assert_eq!(
        query_highest_abort(&rep).highest_abort,
        vec![(0, 0), (1, 0), (2, -1), (3, -1)]
    );
    // the (n-F)-th largest announcement is still -1: no view is adopted yet
    assert_eq!(rep.state.view, 0);
}

#[test]
fn abort_scenario_strong_quorum_adopts_next_view() {
    let mut rep = network_replica(0, 4, plain_input("e30="));
    deliver(&mut rep, "chan-0-1", vec![Msg::Abort { view: 0, chain_id: 1 }]);
    deliver(&mut rep, "chan-0-1", vec![Msg::Abort { view: 0, chain_id: 0 }]);
    // a marker in a view-scoped record, to observe the reset
    deliver(
        &mut rep,
        "chan-0-2",
        vec![Msg::Suggest {
            chain_id: 2,
            view: 0,
            key2: 0,
            key2_val: plain_input("e30="),
            prev_key2: -1,
            key3: 0,
            key3_val: plain_input("e30="),
        }],
    );
    assert_eq!(query_received_suggest(&rep).received_suggest, vec![2]);

    // the third announcement completes the n-F quorum: w = 0, adopt view 1
    deliver(&mut rep, "chan-0-2", vec![Msg::Abort { view: 0, chain_id: 2 }]);
    assert_eq!(
        query_highest_abort(&rep).highest_abort,
        vec![(0, 0), (1, 0), (2, 0), (3, -1)]
    );
    assert_eq!(rep.state.view, 1);
    assert_eq!(rep.state.primary, 1);
    // the view change cleared the view-scoped records
    assert_eq!(query_received_suggest(&rep).received_suggest, Vec::<u32>::new());
}

#[test]
fn duplicate_contribution_is_counted_once() {
    let mut rep = network_replica(0, 4, plain_input("e30="));
    let val = plain_input("e30=");
    deliver(&mut rep, "chan-0-1", vec![Msg::Echo { val: val.clone(), view: 0 }]);
    let first = query_echo(&rep).echo;
    assert_eq!(first.len(), 1);
    assert_eq!(first[0].1, vec![1]);
    // the identical (kind, value, sender) tuple again, twice
    deliver(
        &mut rep,
        "chan-0-1",
        vec![Msg::Echo { val: val.clone(), view: 0 }, Msg::Echo { val: val.clone(), view: 0 }],
    );
    let again = query_echo(&rep).echo;
    assert_eq!(again, first);
}

#[test]
fn echo_from_wrong_view_is_ignored() {
    let mut rep = network_replica(0, 4, plain_input("e30="));
    deliver(&mut rep, "chan-0-1", vec![Msg::Echo { val: plain_input("e30="), view: 7 }]);
    assert_eq!(query_echo(&rep).echo.len(), 0);
}

#[test]
fn done_is_counted_across_views() {
    let mut rep = network_replica(0, 4, plain_input("e30="));
    rep.state.view = 3;
    deliver(&mut rep, "chan-0-1", vec![Msg::Done { val: plain_input("e30=") }]);
    assert_eq!(query_done(&rep).done.len(), 1);
}

#[test]
fn unknown_sender_channel_is_an_error() {
    let mut rep = network_replica(0, 4, plain_input("e30="));
    let n = rep.state.n;
    let mut queue = fresh_queue(n);
    let r = receive_queue(
        &mut rep,
        Some("no-such-channel".to_string()),
        vec![Msg::Echo { val: plain_input("e30="), view: 0 }],
        &mut queue,
        1_000,
        5,
    );
    assert_eq!(r.unwrap_err(), ContractError::StateNotFound);
}

#[test]
fn abort_from_unknown_replica_is_an_error() {
    let mut rep = network_replica(0, 4, plain_input("e30="));
    let n = rep.state.n;
    let mut queue = fresh_queue(n);
    let r = receive_queue(
        &mut rep,
        Some("chan-0-1".to_string()),
        vec![Msg::Abort { view: 0, chain_id: 9 }],
        &mut queue,
        1_000,
        5,
    );
    assert!(matches!(r.unwrap_err(), ContractError::GenericErr { .. }));
}

#[test]
fn locked_replica_rejects_conflicting_proposal_without_proofs() {
    let mut rep = network_replica(1, 4, plain_input("e30="));
    let locked = plain_input("bG9ja2Vk");
    rep.state.lock = 1;
    rep.state.lock_val = locked;
    rep.state.view = 2;
    rep.state.primary = 2;
    let n = rep.state.n;
    let mut queue = fresh_queue(n);
    let mut pending = Vec::new();
    handle_propose(
        &mut rep,
        &mut queue,
        None,
        2,
        1,
        plain_input("Y29uZmxpY3Q="),
        2,
        &mut pending,
    )
    .unwrap();
    // the proposal was consumed but no Echo was broadcast
    assert!(rep.state.received_propose);
    assert!(pending.is_empty());
}

#[test]
fn locked_replica_accepts_conflicting_proposal_with_opening_proofs() {
    let mut rep = network_replica(1, 4, plain_input("e30="));
    let locked = plain_input("bG9ja2Vk");
    let conflict = plain_input("Y29uZmxpY3Q=");
    rep.state.lock = 1;
    rep.state.lock_val = locked;
    rep.state.view = 2;
    rep.state.primary = 2;
    // F + 1 = 2 proofs whose previous height exceeds the lock height
    rep.state.proofs.push((2, conflict.clone(), 2));
    rep.state.proofs.push((2, conflict.clone(), 3));
    let n = rep.state.n;
    let mut queue = fresh_queue(n);
    let mut pending = Vec::new();
    handle_propose(&mut rep, &mut queue, None, 2, 1, conflict.clone(), 2, &mut pending).unwrap();
    assert_eq!(pending.len(), 1);
    assert!(matches!(&pending[0], Msg::Echo { view: 2, .. }));
}

#[test]
fn request_for_unknown_replica_is_an_error() {
    let mut rep = network_replica(1, 4, plain_input("e30="));
    let n = rep.state.n;
    let mut queue = fresh_queue(n);
    assert!(matches!(
        handle_request(&mut rep, &mut queue, 0, 9),
        Err(ContractError::StateNotFound)
    ));
}

#[test]
fn request_from_primary_gets_suggest() {
    let mut rep = network_replica(1, 4, plain_input("e30="));
    let n = rep.state.n;
    let mut queue = fresh_queue(n);
    // the tracker starts at 0; a Request for view 1 raises it but misses view 0
    // deliver a Request from the primary announcing a higher tracker value
    // after re-entering view 0 the tracker is 0 == view, so prime it lower first
    for i in 0..rep.highest_req.len() {
        rep.highest_req[i] = 0;
    }
    // force the tracker below the announced view
    rep.state.view = 1;
    rep.state.primary = 1;
    let out = handle_request(&mut rep, &mut queue, 1, 1);
    assert!(out.is_ok());
    assert_eq!(rep.highest_req[1], 1);
    // the sender is the primary of view 1, so it is owed the Suggest
    assert_eq!(queue[1].len(), 1);
    assert!(matches!(&queue[1][0], Msg::Suggest { .. }));
    assert!(rep.state.sent.contains(&MsgKind::Suggest));
}

#[test]
fn state_new_and_re_init_reset_the_record() {
    let input = plain_input("e30=");
    let mut st = State::new(7, input.clone(), "target".to_string(), 11);
    assert_eq!(st.n, 1);
    assert_eq!(st.chain_id, 7);
    assert_eq!(st.view, 0);
    assert_eq!(st.primary, 0);
    assert_eq!(st.prev_key1, -1);
    assert_eq!(st.prev_key2, -1);
    assert_eq!(st.F, 0);
    assert_eq!(st.start_time, 11);
    st.n = 4;
    st.view = 9;
    st.done_executed = true;
    st.re_init(plain_input("bmV4dA=="), 22);
    assert_eq!(st.view, 0);
    assert_eq!(st.primary, 0);
    assert_eq!(st.F, 1);
    assert_eq!(st.start_time, 22);
    assert!(!st.done_executed);
    assert!(st.done.is_none());
    assert!(st.suggestions.is_empty());
    assert!(st.sent.is_empty());
}

#[test]
fn message_names_match_their_kinds() {
    let v = plain_input("e30=");
    assert_eq!(Msg::Request { view: 0, chain_id: 0 }.name(), "Request");
    assert_eq!(Msg::Abort { view: 0, chain_id: 0 }.name(), "Abort");
    assert_eq!(Msg::Echo { val: v.clone(), view: 0 }.name(), "Echo");
    assert_eq!(Msg::Key1 { val: v.clone(), view: 0 }.name(), "Key1");
    assert_eq!(Msg::Key2 { val: v.clone(), view: 0 }.name(), "Key2");
    assert_eq!(Msg::Key3 { val: v.clone(), view: 0 }.name(), "Key3");
    assert_eq!(Msg::Lock { val: v.clone(), view: 0 }.name(), "Lock");
    assert_eq!(Msg::Done { val: v.clone() }.name(), "Done");
    assert_eq!(Msg::Done { val: v }.kind(), MsgKind::Done);
}

#[test]
fn adopted_view_never_decreases_on_stale_aborts() {
    let mut rep = network_replica(0, 4, plain_input("e30="));
    deliver(&mut rep, "chan-0-1", vec![Msg::Abort { view: 0, chain_id: 1 }]);
    deliver(&mut rep, "chan-0-1", vec![Msg::Abort { view: 0, chain_id: 0 }]);
    deliver(&mut rep, "chan-0-2", vec![Msg::Abort { view: 0, chain_id: 2 }]);
    assert_eq!(rep.state.view, 1);
    // stale announcements for the closed view cannot move the view back
    deliver(&mut rep, "chan-0-3", vec![Msg::Abort { view: 0, chain_id: 3 }]);
    assert_eq!(rep.state.view, 1);
    deliver(&mut rep, "chan-0-1", vec![Msg::Abort { view: 0, chain_id: 1 }]);
    assert_eq!(rep.state.view, 1);
}

#[test]
fn primary_broadcasts_a_proposal_after_enough_suggestions() {
    let mut rep = network_replica(0, 4, plain_input("e30="));
    let val = plain_input("e30=");
    let mut proposed = false;
    for s in 1..4u32 {
        let out = deliver(
            &mut rep,
            &pair_channel(0, s),
            vec![Msg::Suggest {
                chain_id: s,
                view: 0,
                key2: 0,
                key2_val: val.clone(),
                prev_key2: -1,
                key3: 0,
                key3_val: val.clone(),
            }],
        );
        for (_chan, packet) in &out.packets {
            let trustboost::msg::PacketMsg::MsgQueue(q) = packet else { continue };
            for m in q {
                if let Msg::Propose { chain_id, k, view, .. } = m {
                    assert_eq!(*chain_id, 0);
                    assert_eq!(*k, 0);
                    assert_eq!(*view, 0);
                    proposed = true;
                }
            }
        }
    }
    assert!(proposed);
    assert!(rep.state.sent.contains(&MsgKind::Propose));
}

#[test]
fn echo_quorum_advances_the_key1_certificate() {
    let mut rep = network_replica(0, 4, plain_input("e30="));
    rep.state.view = 1;
    let val = plain_input("dmFsdWU=");
    for s in 1..4u32 {
        deliver(&mut rep, &pair_channel(0, s), vec![Msg::Echo { val: val.clone(), view: 1 }]);
    }
    assert_eq!(rep.state.key1, 1);
    assert_eq!(rep.state.key1_val, val);
    assert!(rep.state.sent.contains(&MsgKind::Key1));
}
