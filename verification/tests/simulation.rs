//! A four-replica network driven to a decision: every replica starts an
//! instance on the same signed value, the harness ferries every emitted
//! packet, and the run must end with decisions and exactly one execution
//! intent per replica.

use k256::ecdsa::signature::hazmat::PrehashSigner;
use k256::ecdsa::{Signature, SigningKey};
use sha2::{Digest, Sha256};
use trustboost::contract::{execute, query_state};
use trustboost::msg::{ExecuteMsg, Msg, PacketMsg, StateResponse};
use trustboost::queue_handler::{receive_queue, ReceiveOutcome};
use trustboost::replica::Replica;
use trustboost::state::TBInput;
use trustboost::utils::init_receive_map;

fn sim_signed_input(binary: &str) -> TBInput {
    let sk = SigningKey::from_slice(&[42u8; 32]).unwrap();
    let hash = Sha256::digest(binary.as_bytes());
    let sig: Signature = sk.sign_prehash(&hash).unwrap();
    TBInput {
        binary: binary.to_string(),
        public_key: sk.verifying_key().to_sec1_bytes().to_vec(),
        signature: sig.to_bytes().to_vec(),
    }
}

fn sim_channel(a: u32, b: u32) -> String {
    let (x, y) = if a < b { (a, b) } else { (b, a) };
    format!("chan-{}-{}", x, y)
}

fn sim_replica(chain_id: u32, n: u32, input: TBInput) -> Replica {
    let mut r = Replica::new(chain_id, input.clone(), "target-contract".to_string(), 0);
    for j in 1..n {
        r.channel_connected(format!("conn-{}", j));
    }
    for j in 0..n {
        if j != chain_id {
            r.receive_who_am_i(sim_channel(chain_id, j), j).unwrap();
        }
    }
    init_receive_map(&mut r);
    r
}

/// The replica at the other end of a pair channel.
fn sim_peer_of(channel: &str, sender: u32) -> u32 {
    let rest = &channel["chan-".len()..];
    let mut parts = rest.split('-');
    let a: u32 = parts.next().unwrap().parse().unwrap();
    let b: u32 = parts.next().unwrap().parse().unwrap();
    if a == sender { b } else { a }
}

fn sim_collect(
    sender: u32,
    outcome: &ReceiveOutcome,
    wire: &mut Vec<(u32, String, Vec<Msg>)>,
    intents: &mut Vec<u32>,
) {
    if outcome.execute.is_some() {
        intents.push(sender);
    }
    for (channel, packet) in &outcome.packets {
        let dest = sim_peer_of(channel, sender);
        match packet {
            PacketMsg::MsgQueue(q) => {
                let mut msgs = Vec::new();
                for m in q {
                    msgs.push(m.clone());
                }
                wire.push((dest, channel.clone(), msgs));
            },
            PacketMsg::WhoAmI { .. } => {},
        }
    }
}

#[test]
fn four_replicas_reach_a_decision_with_one_callout_each() {
    let n: u32 = 4;
    let input = sim_signed_input("e30=");
    let mut reps: Vec<Replica> = Vec::new();
    for i in 0..n {
        reps.push(sim_replica(i, n, input.clone()));
    }

    let mut wire: Vec<(u32, String, Vec<Msg>)> = Vec::new();
    let mut intents: Vec<u32> = Vec::new();

    for i in 0..n {
        let outcome = execute(
            &mut reps[i as usize],
            ExecuteMsg::Input { value: input.clone() },
            1_000,
            5,
        )
        .unwrap();
        sim_collect(i, &outcome, &mut wire, &mut intents);
    }

    let mut steps = 0;
    while let Some((dest, channel, msgs)) = wire.pop() {
        steps += 1;
        assert!(steps < 10_000, "the network did not quiesce");
        let mut queue: Vec<Vec<Msg>> = Vec::new();
        for _ in 0..n {
            queue.push(Vec::new());
        }
        let outcome = receive_queue(
            &mut reps[dest as usize],
            Some(channel),
            msgs,
            &mut queue,
            2_000,
            6,
        )
        .unwrap();
        sim_collect(dest, &outcome, &mut wire, &mut intents);
    }

    // every replica decided on the started value
    let mut decided = 0;
    for i in 0..n {
        let rep = &reps[i as usize];
        if let Some(v) = &rep.state.done {
            assert_eq!(v.binary, input.binary);
            decided += 1;
        }
        match query_state(rep) {
            StateResponse::Done { decided_val, .. } => assert_eq!(decided_val, input.binary),
            StateResponse::InProgress { .. } => assert!(rep.state.done.is_none()),
        }
    }
    assert!(decided as u32 >= n - 1, "too few replicas decided: {}", decided);

    // the exactly-once effect: no replica emitted two callouts
    for i in 0..n {
        let count = intents.iter().filter(|r| **r == i).count();
        assert!(count <= 1, "replica {} emitted {} callouts", i, count);
    }
    // and the network as a whole made progress to at least one callout
    assert!(intents.len() >= 1, "no execution intent was emitted");
}

#[test]
fn duplicate_done_deliveries_fire_the_callout_once() {
    let n: u32 = 4;
    let input = sim_signed_input("e30=");
    let mut rep = sim_replica(0, n, input.clone());
    rep.state.re_init(input.clone(), 0);

    let mk_queue = || -> Vec<Vec<Msg>> {
        let mut q = Vec::new();
        for _ in 0..n {
            q.push(Vec::new());
        }
        q
    };

    // three Lock quorum messages: the replica broadcasts Done but cannot yet
    // decide
    for sender in 1..4u32 {
        let mut queue = mk_queue();
        receive_queue(
            &mut rep,
            Some(sim_channel(0, sender)),
            vec![Msg::Lock { val: input.clone(), view: 0 }],
            &mut queue,
            1_000,
            5,
        )
        .unwrap();
    }
    assert!(rep.state.done.is_none());
    assert!(!rep.state.done_executed);

    // peers confirm Done; the second confirmation completes the quorum
    // (the replica's own Done was already counted) and fires the callout
    let mut fired = 0;
    for sender in 1..3u32 {
        let mut queue = mk_queue();
        let outcome = receive_queue(
            &mut rep,
            Some(sim_channel(0, sender)),
            vec![Msg::Done { val: input.clone() }],
            &mut queue,
            1_000,
            5,
        )
        .unwrap();
        if let Some(intent) = &outcome.execute {
            fired += 1;
            assert_eq!(intent.contract_addr, "target-contract");
            // the payload frames the decided value with the derived identity
            let addr = trustboost::crypto::get_address(input.clone()).unwrap();
            let expected = format!(",\"tb_user\":\"{}\"}}}}", addr).into_bytes();
            assert_eq!(intent.payload, expected);
        }
    }
    assert_eq!(fired, 1);
    assert!(rep.state.done.is_some());
    assert!(rep.state.done_executed);

    // any further duplicates are ignored entirely
    for sender in 1..4u32 {
        let mut queue = mk_queue();
        let outcome = receive_queue(
            &mut rep,
            Some(sim_channel(0, sender)),
            vec![Msg::Done { val: input.clone() }, Msg::Lock { val: input.clone(), view: 0 }],
            &mut queue,
            1_000,
            5,
        )
        .unwrap();
        assert!(outcome.execute.is_none());
        assert!(outcome.packets.is_empty());
    }
}
