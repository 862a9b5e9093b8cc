//! The replica-local consensus record: the decided-upon input value, the
//! certificate heights of the phases, the evidence lists, and the per-view
//! bookkeeping flags.

use vstd::prelude::*;
use vstd::utf8::encode_utf8;

verus! {

/// The 64-bit FNV-1a offset basis.
pub const FNV_OFFSET: u64 = 0xcbf2_9ce4_8422_2325;

/// The 64-bit FNV-1a prime.
pub const FNV_PRIME: u64 = 0x0000_0100_0000_01b3;

/// One FNV-1a round: xor the next byte into the state, then multiply by the
/// prime modulo 2^64.
pub open spec fn fnv1a_step(h: u64, b: u64) -> u64 {
    ((((h ^ b) as int) * (FNV_PRIME as int)) % 0x1_0000_0000_0000_0000) as u64
}

/// FNV-1a over a byte sequence, starting from state `h`.
pub open spec fn fnv1a_bytes(h: u64, s: Seq<u8>) -> u64
    decreases s.len(),
{
    if s.len() == 0 {
        h
    } else {
        fnv1a_step(fnv1a_bytes(h, s.drop_last()), s.last() as u64)
    }
}

/// The input value a consensus instance agrees on: an opaque payload (a
/// base64-encoded message for the external system), together with the public
/// key and signature that the decision callout is gated on.
#[derive(Debug)]
pub struct TBInput {
    pub binary: String,
    pub public_key: Vec<u8>,
    pub signature: Vec<u8>,
}

/// The value type carried by every phase message.
pub type InputType = TBInput;

/// The mathematical value of a [`TBInput`].
#[verifier::ext_equal]
pub struct TBInputView {
    pub binary: Seq<char>,
    pub public_key: Seq<u8>,
    pub signature: Seq<u8>,
}

impl View for TBInput {
    type V = TBInputView;

    open spec fn view(&self) -> TBInputView {
        TBInputView {
            binary: self.binary@,
            public_key: self.public_key@,
            signature: self.signature@,
        }
    }
}

impl DeepView for TBInput {
    type V = TBInputView;

    open spec fn deep_view(&self) -> TBInputView {
        self.view()
    }
}

/// The hash under which contributions for a value are collected: FNV-1a over
/// the UTF-8 bytes of the payload, then the public key, then the signature.
pub open spec fn input_hash_of(v: TBInputView) -> u64 {
    fnv1a_bytes(fnv1a_bytes(fnv1a_bytes(FNV_OFFSET, encode_utf8(v.binary)), v.public_key), v.signature)
}

impl Clone for TBInput {
    fn clone(&self) -> (r: Self)
        ensures
            r@ == self@,
    {
        TBInput {
            binary: self.binary.clone(),
            public_key: self.public_key.clone(),
            signature: self.signature.clone(),
        }
    }
}

impl PartialEq for TBInput {
    fn eq(&self, other: &Self) -> (r: bool) {
        let r = self.binary == other.binary && self.public_key == other.public_key
            && self.signature == other.signature;
        proof {
            if r {
                assert(self@ =~= other@);
            }
        }
        r
    }
}

impl vstd::std_specs::cmp::PartialEqSpecImpl for TBInput {
    open spec fn obeys_eq_spec() -> bool {
        true
    }

    open spec fn eq_spec(&self, other: &Self) -> bool {
        self@ == other@
    }
}

/// One FNV-1a round, executable form.
fn fnv1a_step_exec(h: u64, b: u8) -> (r: u64)
    ensures
        r == fnv1a_step(h, b as u64),
{
    let x: u64 = h ^ (b as u64);
    let prod: u128 = (x as u128) * (FNV_PRIME as u128);
    (prod % 0x1_0000_0000_0000_0000u128) as u64
}

/// FNV-1a over a byte slice, executable form.
fn fnv1a_bytes_exec(h0: u64, s: &[u8]) -> (r: u64)
    ensures
        r == fnv1a_bytes(h0, s@),
{
    let mut h: u64 = h0;
    let mut i: usize = 0;
    while i < s.len()
        invariant
            0 <= i <= s@.len(),
            h == fnv1a_bytes(h0, s@.take(i as int)),
        decreases s@.len() - i,
    {
        h = fnv1a_step_exec(h, s[i]);
        proof {
            assert(s@.take(i + 1).drop_last() =~= s@.take(i as int));
            assert(s@.take(i + 1).last() == s@[i as int]);
        }
        i = i + 1;
    }
    proof {
        assert(s@.take(s@.len() as int) =~= s@);
    }
    h
}

impl TBInput {
    /// The hash of this value, used to key the per-value quorum sets.
    pub fn calculate_hash(self) -> (r: u64)
        ensures
            r == input_hash_of(self@),
    {
        let h0: u64 = fnv1a_bytes_exec(FNV_OFFSET, self.binary.as_str().as_bytes());
        let h1: u64 = fnv1a_bytes_exec(h0, self.public_key.as_slice());
        fnv1a_bytes_exec(h1, self.signature.as_slice())
    }
}

/// The mathematical value of a [`State`].
#[verifier::ext_equal]
pub struct StateView {
    pub n: u32,
    pub chain_id: u32,
    pub channel_ids: Seq<Seq<char>>,
    pub current_tx_id: u32,
    pub view: u32,
    pub primary: u32,
    pub key1: u32,
    pub key2: u32,
    pub key3: u32,
    pub lock: u32,
    pub key1_val: TBInputView,
    pub key2_val: TBInputView,
    pub key3_val: TBInputView,
    pub lock_val: TBInputView,
    pub prev_key1: i64,
    pub prev_key2: i64,
    pub suggestions: Seq<(u32, TBInputView)>,
    pub key2_proofs: Seq<(u32, TBInputView, i64)>,
    pub proofs: Seq<(u32, TBInputView, i64)>,
    pub received_propose: bool,
    pub sent: Seq<crate::msg::MsgKind>,
    pub done: Option<TBInputView>,
    pub start_time: u64,
    pub contract_addr: Seq<char>,
    pub done_executed: bool,
    pub done_timestamp: Option<u64>,
    pub done_block_height: Option<u64>,
    pub fault_bound: u32,
}

/// The replica-local consensus record.
///
/// `F` is the fault tolerance bound: 1 when `n == 3`, else `(n - 1) / 3`.
/// It is recomputed whenever a new instance starts.
#[allow(non_snake_case)]
pub struct State {
    pub n: u32,
    pub chain_id: u32,
    pub channel_ids: Vec<String>,
    pub current_tx_id: u32,
    pub view: u32,
    pub primary: u32,
    pub key1: u32,
    pub key2: u32,
    pub key3: u32,
    pub lock: u32,
    pub key1_val: TBInput,
    pub key2_val: TBInput,
    pub key3_val: TBInput,
    pub lock_val: TBInput,
    pub prev_key1: i64,
    pub prev_key2: i64,
    pub suggestions: Vec<(u32, TBInput)>,
    pub key2_proofs: Vec<(u32, TBInput, i64)>,
    pub proofs: Vec<(u32, TBInput, i64)>,
    pub received_propose: bool,
    pub sent: Vec<crate::msg::MsgKind>,
    pub done: Option<TBInput>,
    pub start_time: u64,
    pub contract_addr: String,
    pub done_executed: bool,
    pub done_timestamp: Option<u64>,
    pub done_block_height: Option<u64>,
    pub F: u32,
}

impl View for State {
    type V = StateView;

    open spec fn view(&self) -> StateView {
        StateView {
            n: self.n,
            chain_id: self.chain_id,
            channel_ids: self.channel_ids.deep_view(),
            current_tx_id: self.current_tx_id,
            view: self.view,
            primary: self.primary,
            key1: self.key1,
            key2: self.key2,
            key3: self.key3,
            lock: self.lock,
            key1_val: self.key1_val@,
            key2_val: self.key2_val@,
            key3_val: self.key3_val@,
            lock_val: self.lock_val@,
            prev_key1: self.prev_key1,
            prev_key2: self.prev_key2,
            suggestions: self.suggestions.deep_view(),
            key2_proofs: self.key2_proofs.deep_view(),
            proofs: self.proofs.deep_view(),
            received_propose: self.received_propose,
            sent: self.sent@,
            done: match self.done {
                Some(ref v) => Some(v@),
                None => None,
            },
            start_time: self.start_time,
            contract_addr: self.contract_addr@,
            done_executed: self.done_executed,
            done_timestamp: self.done_timestamp,
            done_block_height: self.done_block_height,
            fault_bound: self.F,
        }
    }
}

/// The fault bound the protocol uses for `n` replicas: 1 when `n == 3`,
/// otherwise `(n - 1) / 3`.
pub open spec fn fault_bound_of(n: u32) -> u32 {
    if n == 3 {
        1
    } else {
        (((n - 1) as int) / 3) as u32
    }
}

impl State {
    /// A fresh replica record for a single-member network: view 0, all
    /// certificate heights 0, all certificate values set to `input`, previous
    /// heights -1, and every collection empty.
    pub fn new(chain_id: u32, input: InputType, contract_addr: String, start_time: u64) -> (r: Self)
        ensures
            r@.n == 1,
            r@.chain_id == chain_id,
            r@.channel_ids =~= Seq::<Seq<char>>::empty(),
            r@.current_tx_id == 0,
            r@.view == 0,
            r@.primary == 0,
            r@.key1 == 0 && r@.key2 == 0 && r@.key3 == 0 && r@.lock == 0,
            r@.key1_val == input@ && r@.key2_val == input@,
            r@.key3_val == input@ && r@.lock_val == input@,
            r@.prev_key1 == -1 && r@.prev_key2 == -1,
            r@.suggestions =~= Seq::<(u32, TBInputView)>::empty(),
            r@.key2_proofs =~= Seq::<(u32, TBInputView, i64)>::empty(),
            r@.proofs =~= Seq::<(u32, TBInputView, i64)>::empty(),
            !r@.received_propose,
            r@.sent =~= Seq::<crate::msg::MsgKind>::empty(),
            r@.done is None,
            r@.start_time == start_time,
            r@.contract_addr == contract_addr@,
            !r@.done_executed,
            r@.done_timestamp is None,
            r@.done_block_height is None,
            r@.fault_bound == 0,
    {
        State {
            n: 1,
            chain_id,
            channel_ids: Vec::new(),
            current_tx_id: 0,
            view: 0,
            primary: 0,
            key1: 0,
            key2: 0,
            key3: 0,
            lock: 0,
            key1_val: input.clone(),
            key2_val: input.clone(),
            key3_val: input.clone(),
            lock_val: input.clone(),
            prev_key1: -1,
            prev_key2: -1,
            suggestions: Vec::new(),
            key2_proofs: Vec::new(),
            proofs: Vec::new(),
            received_propose: false,
            sent: Vec::new(),
            done: None,
            start_time,
            contract_addr,
            done_executed: false,
            done_timestamp: None,
            done_block_height: None,
            F: 0,
        }
    }

    /// Re-initialize for a new consensus instance: reset the view, the
    /// certificate heights and values, the evidence lists and the per-view
    /// flags, keep the network shape (`n`, channels), and recompute the
    /// primary and the fault bound.
    pub fn re_init(&mut self, input: InputType, start_time: u64)
        requires
            old(self).n >= 1,
        ensures
            final(self)@.n == old(self)@.n,
            final(self)@.chain_id == old(self)@.chain_id,
            final(self)@.channel_ids == old(self)@.channel_ids,
            final(self)@.current_tx_id == old(self)@.current_tx_id,
            final(self)@.contract_addr == old(self)@.contract_addr,
            final(self)@.view == 0,
            final(self)@.primary == 0,
            final(self)@.key1 == 0 && final(self)@.key2 == 0,
            final(self)@.key3 == 0 && final(self)@.lock == 0,
            final(self)@.key1_val == input@ && final(self)@.key2_val == input@,
            final(self)@.key3_val == input@ && final(self)@.lock_val == input@,
            final(self)@.prev_key1 == -1 && final(self)@.prev_key2 == -1,
            final(self)@.suggestions =~= Seq::<(u32, TBInputView)>::empty(),
            final(self)@.key2_proofs =~= Seq::<(u32, TBInputView, i64)>::empty(),
            final(self)@.proofs =~= Seq::<(u32, TBInputView, i64)>::empty(),
            !final(self)@.received_propose,
            final(self)@.sent =~= Seq::<crate::msg::MsgKind>::empty(),
            final(self)@.done is None,
            final(self)@.start_time == start_time,
            !final(self)@.done_executed,
            final(self)@.done_timestamp is None,
            final(self)@.done_block_height is None,
            final(self)@.fault_bound == fault_bound_of(old(self)@.n),
    {
        self.sent = Vec::new();
        self.done = None;
        self.view = 0;
        self.key1 = 0;
        self.key2 = 0;
        self.key3 = 0;
        self.lock = 0;
        self.prev_key1 = -1;
        self.prev_key2 = -1;
        self.key1_val = input.clone();
        self.key2_val = input.clone();
        self.key3_val = input.clone();
        self.lock_val = input.clone();
        self.suggestions = Vec::new();
        self.key2_proofs = Vec::new();
        self.proofs = Vec::new();
        self.start_time = start_time;
        proof {
            assert(0u32 % self.n == 0) by (nonlinear_arith)
                requires
                    self.n >= 1,
            ;
        }
        self.primary = self.view % self.n;
        self.proofs = Vec::new();
        self.received_propose = false;
        self.done_executed = false;
        self.done_timestamp = None;
        self.done_block_height = None;
        if self.n == 3 {
            self.F = 1;
        } else {
            self.F = (self.n - 1) / 3;
        }
    }

    /// Whether a message of kind `k` was already transmitted this view.
    pub fn sent_contains(&self, k: crate::msg::MsgKind) -> (r: bool)
        ensures
            r == self@.sent.contains(k),
    {
        let mut i: usize = 0;
        while i < self.sent.len()
            invariant
                0 <= i <= self.sent@.len(),
                forall|j: int| 0 <= j < i ==> self.sent@[j] != k,
            decreases self.sent@.len() - i,
        {
            if self.sent[i] == k {
                return true;
            }
            i = i + 1;
        }
        false
    }

    /// Record that a message of kind `k` has been transmitted this view.
    pub fn sent_insert(&mut self, k: crate::msg::MsgKind)
        ensures
            old(self)@.sent.contains(k) ==> final(self)@.sent == old(self)@.sent,
            !old(self)@.sent.contains(k) ==> final(self)@.sent == old(self)@.sent.push(k),
            final(self)@.sent.contains(k),
            forall|k2: crate::msg::MsgKind| old(self)@.sent.contains(k2)
                ==> final(self)@.sent.contains(k2),
            forall|k2: crate::msg::MsgKind| final(self)@.sent.contains(k2)
                ==> old(self)@.sent.contains(k2) || k2 == k,
            (StateView { sent: old(self)@.sent, ..final(self)@ }) == old(self)@,
    {
        if !self.sent_contains(k) {
            let ghost olds: Seq<crate::msg::MsgKind> = self.sent@;
            self.sent.push(k);
            proof {
                assert(self.sent@[olds.len() as int] == k);
                assert(self.sent@.contains(k));
                assert forall|k2: crate::msg::MsgKind|
                    olds.contains(k2) implies self.sent@.contains(k2) by {
                    let i = choose|i: int| 0 <= i < olds.len() && olds[i] == k2;
                    assert(self.sent@[i] == k2);
                }
                assert forall|k2: crate::msg::MsgKind|
                    self.sent@.contains(k2) implies olds.contains(k2) || k2 == k by {
                    let i = choose|i: int| 0 <= i < self.sent@.len() && self.sent@[i] == k2;
                    if i < olds.len() {
                        assert(olds[i] == k2);
                    }
                }
            }
        }
        proof {
            assert((StateView { sent: old(self)@.sent, ..self@ }) =~= old(self)@);
        }
    }
}

/// A record of one channel's endpoints, kept for debugging the handshake.
#[derive(Clone, Debug, PartialEq)]
pub struct Test {
    pub src_port: String,
    pub src_chan_id: String,
    pub dest_port: String,
    pub dest_chan_id: String,
}

} // verus!
