//! The protocol messages exchanged between replicas, their mathematical
//! views, and the plain response shapes of the administrative query surface.

use vstd::prelude::*;
use vstd::pervasive::cloned;
use crate::state::{InputType, TBInputView};

verus! {

/// The reply identifier the host attaches to a broadcast Request packet.
pub const REQUEST_REPLY_ID: u64 = 100;

/// The reply identifier the host attaches to a Suggest packet.
pub const SUGGEST_REPLY_ID: u64 = 101;

/// The reply identifier the host attaches to a Proof packet.
pub const PROOF_REPLY_ID: u64 = 102;

/// The reply identifier the host attaches to a Propose packet.
pub const PROPOSE_REPLY_ID: u64 = 103;

/// The reply identifier the host attaches to the decision callout.
pub const WASM_EXEC_REPLY_ID: u64 = 1234;

/// Seconds a view may run before a manual abort is permitted.
pub const VIEW_TIMEOUT_SECONDS: u64 = 10;

/// The message kinds of the protocol, used to key the sent-guard set.
#[derive(Clone, Copy, Debug, PartialEq, Eq, Structural)]
pub enum MsgKind {
    Request,
    Suggest,
    Proof,
    Abort,
    Propose,
    Echo,
    Key1,
    Key2,
    Key3,
    Lock,
    Done,
}

/// A protocol message.
#[derive(Debug, PartialEq)]
pub enum Msg {
    Request { view: u32, chain_id: u32 },
    Suggest {
        chain_id: u32,
        view: u32,
        key2: u32,
        key2_val: InputType,
        prev_key2: i64,
        key3: u32,
        key3_val: InputType,
    },
    Proof { key1: u32, key1_val: InputType, prev_key1: i64, view: u32 },
    Abort { view: u32, chain_id: u32 },
    Propose { chain_id: u32, k: u32, v: InputType, view: u32 },
    Echo { val: InputType, view: u32 },
    Key1 { val: InputType, view: u32 },
    Key2 { val: InputType, view: u32 },
    Key3 { val: InputType, view: u32 },
    Lock { val: InputType, view: u32 },
    Done { val: InputType },
}

/// The mathematical value of a [`Msg`].
#[verifier::ext_equal]
pub enum MsgView {
    Request { view: u32, chain_id: u32 },
    Suggest {
        chain_id: u32,
        view: u32,
        key2: u32,
        key2_val: TBInputView,
        prev_key2: i64,
        key3: u32,
        key3_val: TBInputView,
    },
    Proof { key1: u32, key1_val: TBInputView, prev_key1: i64, view: u32 },
    Abort { view: u32, chain_id: u32 },
    Propose { chain_id: u32, k: u32, v: TBInputView, view: u32 },
    Echo { val: TBInputView, view: u32 },
    Key1 { val: TBInputView, view: u32 },
    Key2 { val: TBInputView, view: u32 },
    Key3 { val: TBInputView, view: u32 },
    Lock { val: TBInputView, view: u32 },
    Done { val: TBInputView },
}

impl View for Msg {
    type V = MsgView;

    open spec fn view(&self) -> MsgView {
        match self {
            Msg::Request { view, chain_id } => MsgView::Request { view: *view, chain_id: *chain_id },
            Msg::Suggest { chain_id, view, key2, key2_val, prev_key2, key3, key3_val } => (
                MsgView::Suggest {
                    chain_id: *chain_id,
                    view: *view,
                    key2: *key2,
                    key2_val: key2_val@,
                    prev_key2: *prev_key2,
                    key3: *key3,
                    key3_val: key3_val@,
                }
            ),
            Msg::Proof { key1, key1_val, prev_key1, view } => (MsgView::Proof {
                key1: *key1,
                key1_val: key1_val@,
                prev_key1: *prev_key1,
                view: *view,
            }),
            Msg::Abort { view, chain_id } => MsgView::Abort { view: *view, chain_id: *chain_id },
            Msg::Propose { chain_id, k, v, view } => (MsgView::Propose {
                chain_id: *chain_id,
                k: *k,
                v: v@,
                view: *view,
            }),
            Msg::Echo { val, view } => MsgView::Echo { val: val@, view: *view },
            Msg::Key1 { val, view } => MsgView::Key1 { val: val@, view: *view },
            Msg::Key2 { val, view } => MsgView::Key2 { val: val@, view: *view },
            Msg::Key3 { val, view } => MsgView::Key3 { val: val@, view: *view },
            Msg::Lock { val, view } => MsgView::Lock { val: val@, view: *view },
            Msg::Done { val } => MsgView::Done { val: val@ },
        }
    }
}

impl DeepView for Msg {
    type V = MsgView;

    open spec fn deep_view(&self) -> MsgView {
        self.view()
    }
}

/// The kind of a message view.
pub open spec fn kind_of(m: MsgView) -> MsgKind {
    match m {
        MsgView::Request { .. } => MsgKind::Request,
        MsgView::Suggest { .. } => MsgKind::Suggest,
        MsgView::Proof { .. } => MsgKind::Proof,
        MsgView::Abort { .. } => MsgKind::Abort,
        MsgView::Propose { .. } => MsgKind::Propose,
        MsgView::Echo { .. } => MsgKind::Echo,
        MsgView::Key1 { .. } => MsgKind::Key1,
        MsgView::Key2 { .. } => MsgKind::Key2,
        MsgView::Key3 { .. } => MsgKind::Key3,
        MsgView::Lock { .. } => MsgKind::Lock,
        MsgView::Done { .. } => MsgKind::Done,
    }
}

/// The display name of a message kind.
pub open spec fn kind_name(k: MsgKind) -> Seq<char> {
    match k {
        MsgKind::Request => "Request"@,
        MsgKind::Suggest => "Suggest"@,
        MsgKind::Proof => "Proof"@,
        MsgKind::Abort => "Abort"@,
        MsgKind::Propose => "Propose"@,
        MsgKind::Echo => "Echo"@,
        MsgKind::Key1 => "Key1"@,
        MsgKind::Key2 => "Key2"@,
        MsgKind::Key3 => "Key3"@,
        MsgKind::Lock => "Lock"@,
        MsgKind::Done => "Done"@,
    }
}

impl Msg {
    /// The kind of this message.
    pub fn kind(&self) -> (k: MsgKind)
        ensures
            k == kind_of(self@),
    {
        match self {
            Msg::Request { .. } => MsgKind::Request,
            Msg::Suggest { .. } => MsgKind::Suggest,
            Msg::Proof { .. } => MsgKind::Proof,
            Msg::Abort { .. } => MsgKind::Abort,
            Msg::Propose { .. } => MsgKind::Propose,
            Msg::Echo { .. } => MsgKind::Echo,
            Msg::Key1 { .. } => MsgKind::Key1,
            Msg::Key2 { .. } => MsgKind::Key2,
            Msg::Key3 { .. } => MsgKind::Key3,
            Msg::Lock { .. } => MsgKind::Lock,
            Msg::Done { .. } => MsgKind::Done,
        }
    }

    /// The static name of the message's kind.
    pub fn name(&self) -> (r: &'static str)
        ensures
            r@ == kind_name(kind_of(self@)),
    {
        match self {
            Msg::Request { .. } => "Request",
            Msg::Suggest { .. } => "Suggest",
            Msg::Proof { .. } => "Proof",
            Msg::Abort { .. } => "Abort",
            Msg::Propose { .. } => "Propose",
            Msg::Echo { .. } => "Echo",
            Msg::Key1 { .. } => "Key1",
            Msg::Key2 { .. } => "Key2",
            Msg::Key3 { .. } => "Key3",
            Msg::Lock { .. } => "Lock",
            Msg::Done { .. } => "Done",
        }
    }
}

impl Clone for Msg {
    fn clone(&self) -> (r: Self)
        ensures
            r@ == self@,
    {
        match self {
            Msg::Request { view, chain_id } => Msg::Request { view: *view, chain_id: *chain_id },
            Msg::Suggest { chain_id, view, key2, key2_val, prev_key2, key3, key3_val } => (
                Msg::Suggest {
                    chain_id: *chain_id,
                    view: *view,
                    key2: *key2,
                    key2_val: key2_val.clone(),
                    prev_key2: *prev_key2,
                    key3: *key3,
                    key3_val: key3_val.clone(),
                }
            ),
            Msg::Proof { key1, key1_val, prev_key1, view } => (Msg::Proof {
                key1: *key1,
                key1_val: key1_val.clone(),
                prev_key1: *prev_key1,
                view: *view,
            }),
            Msg::Abort { view, chain_id } => Msg::Abort { view: *view, chain_id: *chain_id },
            Msg::Propose { chain_id, k, v, view } => (Msg::Propose {
                chain_id: *chain_id,
                k: *k,
                v: v.clone(),
                view: *view,
            }),
            Msg::Echo { val, view } => Msg::Echo { val: val.clone(), view: *view },
            Msg::Key1 { val, view } => Msg::Key1 { val: val.clone(), view: *view },
            Msg::Key2 { val, view } => Msg::Key2 { val: val.clone(), view: *view },
            Msg::Key3 { val, view } => Msg::Key3 { val: val.clone(), view: *view },
            Msg::Lock { val, view } => Msg::Lock { val: val.clone(), view: *view },
            Msg::Done { val } => Msg::Done { val: val.clone() },
        }
    }
}

/// A packet sent over a channel: either a queue of protocol messages or the
/// handshake message announcing the sender's identity.
#[derive(Debug, PartialEq)]
pub enum PacketMsg {
    MsgQueue(Vec<Msg>),
    WhoAmI { chain_id: u32 },
}

/// The mathematical value of a [`PacketMsg`].
#[verifier::ext_equal]
pub enum PacketMsgView {
    MsgQueue(Seq<MsgView>),
    WhoAmI { chain_id: u32 },
}

impl View for PacketMsg {
    type V = PacketMsgView;

    open spec fn view(&self) -> PacketMsgView {
        match self {
            PacketMsg::MsgQueue(q) => PacketMsgView::MsgQueue(q.deep_view()),
            PacketMsg::WhoAmI { chain_id } => PacketMsgView::WhoAmI { chain_id: *chain_id },
        }
    }
}

impl DeepView for PacketMsg {
    type V = PacketMsgView;

    open spec fn deep_view(&self) -> PacketMsgView {
        self.view()
    }
}

impl Clone for PacketMsg {
    fn clone(&self) -> (r: Self)
        ensures
            r@ == self@,
    {
        match self {
            PacketMsg::MsgQueue(q) => {
                let q2 = q.clone();
                proof {
                    assert forall|i: int| 0 <= i < q@.len() implies q2.deep_view()[i]
                        == q.deep_view()[i] by {
                        assert(cloned::<Msg>(q@[i], q2@[i]));
                    }
                    assert(q2.deep_view() =~= q.deep_view());
                }
                PacketMsg::MsgQueue(q2)
            },
            PacketMsg::WhoAmI { chain_id } => PacketMsg::WhoAmI { chain_id: *chain_id },
        }
    }
}


/// One packet addressed to a channel, for the host to send.
pub struct PacketSend {
    pub channel_id: String,
    pub packet: PacketMsg,
}

/// One packet addressed to a channel, sent as a sub-message that reports its
/// outcome under `reply_id`.
pub struct SubMsgSend {
    pub channel_id: String,
    pub packet: PacketMsg,
    pub reply_id: u64,
}

/// A response under construction: the packets and sub-messages the host must
/// send, and the attributes it should attach.
pub struct ResponsePlan {
    pub messages: Vec<PacketSend>,
    pub submessages: Vec<SubMsgSend>,
    pub attributes: Vec<(String, String)>,
}

/// Broadcast one packet to a list of channels as sub-messages replying under
/// the Request id, labelled with the given action attribute.
pub fn broadcast_submsgs(
    attrib: String,
    channel_ids: Vec<String>,
    packet_to_broadcast: PacketMsg,
) -> (r: ResponsePlan)
    ensures
        r.messages@.len() == 0,
        r.submessages@.len() == channel_ids@.len(),
        forall|i: int|
            0 <= i < channel_ids@.len() ==> {
                &&& (#[trigger] r.submessages@[i]).channel_id@ == channel_ids@[i]@
                &&& r.submessages@[i].packet@ == packet_to_broadcast@
                &&& r.submessages@[i].reply_id == REQUEST_REPLY_ID
            },
        r.attributes@.len() == 1,
        r.attributes@[0].0@ == "action"@ && r.attributes@[0].1@ == attrib@,
{
    let plan = ResponsePlan {
        messages: Vec::new(),
        submessages: Vec::new(),
        attributes: Vec::new(),
    };
    let mut plan = add_broadcast_submsgs(plan, channel_ids, packet_to_broadcast, REQUEST_REPLY_ID);
    proof {
        assert forall|i: int| 0 <= i < channel_ids@.len() implies {
            &&& (#[trigger] plan.submessages@[i]).channel_id@ == channel_ids@[i]@
            &&& plan.submessages@[i].packet@ == packet_to_broadcast@
            &&& plan.submessages@[i].reply_id == REQUEST_REPLY_ID
        } by {
            assert(plan.submessages@[0 + i].channel_id@ == channel_ids@[i]@);
            assert(plan.submessages@[0 + i].packet@ == packet_to_broadcast@);
            assert(plan.submessages@[0 + i].reply_id == REQUEST_REPLY_ID);
        }
    }
    plan.attributes.push(("action".to_owned(), attrib));
    plan
}

/// Append one sub-message per channel to a response under construction.
pub fn add_broadcast_submsgs(
    res: ResponsePlan,
    channel_ids: Vec<String>,
    packet_to_broadcast: PacketMsg,
    submsg_id: u64,
) -> (r: ResponsePlan)
    ensures
        r.messages == res.messages,
        r.attributes == res.attributes,
        r.submessages@.len() == res.submessages@.len() + channel_ids@.len(),
        forall|i: int|
            0 <= i < res.submessages@.len() ==> #[trigger] r.submessages@[i] == res.submessages@[i],
        forall|i: int|
            0 <= i < channel_ids@.len() ==> {
                &&& (#[trigger] r.submessages@[res.submessages@.len() + i]).channel_id@
                    == channel_ids@[i]@
                &&& r.submessages@[res.submessages@.len() + i].packet@ == packet_to_broadcast@
                &&& r.submessages@[res.submessages@.len() + i].reply_id == submsg_id
            },
{
    let mut out = res;
    let ghost base = out.submessages@;
    let mut i: usize = 0;
    while i < channel_ids.len()
        invariant
            0 <= i <= channel_ids@.len(),
            out.messages == res.messages,
            out.attributes == res.attributes,
            base == res.submessages@,
            out.submessages@.len() == base.len() + i,
            forall|j: int| 0 <= j < base.len() ==> #[trigger] out.submessages@[j] == base[j],
            forall|j: int|
                0 <= j < i ==> {
                    &&& (#[trigger] out.submessages@[base.len() + j]).channel_id@
                        == channel_ids@[j]@
                    &&& out.submessages@[base.len() + j].packet@ == packet_to_broadcast@
                    &&& out.submessages@[base.len() + j].reply_id == submsg_id
                },
        decreases channel_ids@.len() - i,
    {
        let c = &channel_ids[i];
        out.submessages.push(SubMsgSend {
            channel_id: c.clone(),
            packet: packet_to_broadcast.clone(),
            reply_id: submsg_id,
        });
        i = i + 1;
    }
    out
}

/// Append one plain packet per channel to a response under construction.
pub fn add_broadcast_msgs(
    res: ResponsePlan,
    channel_ids: Vec<String>,
    packet_to_broadcast: PacketMsg,
) -> (r: ResponsePlan)
    ensures
        r.submessages == res.submessages,
        r.attributes == res.attributes,
        r.messages@.len() == res.messages@.len() + channel_ids@.len(),
        forall|i: int|
            0 <= i < res.messages@.len() ==> #[trigger] r.messages@[i] == res.messages@[i],
        forall|i: int|
            0 <= i < channel_ids@.len() ==> {
                &&& (#[trigger] r.messages@[res.messages@.len() + i]).channel_id@
                    == channel_ids@[i]@
                &&& r.messages@[res.messages@.len() + i].packet@ == packet_to_broadcast@
            },
{
    let mut out = res;
    let ghost base = out.messages@;
    let mut i: usize = 0;
    while i < channel_ids.len()
        invariant
            0 <= i <= channel_ids@.len(),
            out.submessages == res.submessages,
            out.attributes == res.attributes,
            base == res.messages@,
            out.messages@.len() == base.len() + i,
            forall|j: int| 0 <= j < base.len() ==> #[trigger] out.messages@[j] == base[j],
            forall|j: int|
                0 <= j < i ==> {
                    &&& (#[trigger] out.messages@[base.len() + j]).channel_id@ == channel_ids@[j]@
                    &&& out.messages@[base.len() + j].packet@ == packet_to_broadcast@
                },
        decreases channel_ids@.len() - i,
    {
        let c = &channel_ids[i];
        out.messages.push(PacketSend { channel_id: c.clone(), packet: packet_to_broadcast.clone() });
        i = i + 1;
    }
    out
}

/// The sends of one packet to each channel of a registry, in registry order.
pub open spec fn one_packet_sends(
    chans: Seq<(u32, Seq<char>)>,
    pkt: PacketMsgView,
) -> Seq<(Seq<char>, PacketMsgView)>
    decreases chans.len(),
{
    if chans.len() == 0 {
        Seq::<(Seq<char>, PacketMsgView)>::empty()
    } else {
        one_packet_sends(chans.drop_last(), pkt).push((chans.last().1, pkt))
    }
}

/// The sends of a packet list to a registry: every packet to every channel,
/// packets outermost.
pub open spec fn cross_sends(
    pkts: Seq<PacketMsgView>,
    chans: Seq<(u32, Seq<char>)>,
) -> Seq<(Seq<char>, PacketMsgView)>
    decreases pkts.len(),
{
    if pkts.len() == 0 {
        Seq::<(Seq<char>, PacketMsgView)>::empty()
    } else {
        cross_sends(pkts.drop_last(), chans) + one_packet_sends(chans, pkts.last())
    }
}

impl View for PacketSend {
    type V = (Seq<char>, PacketMsgView);

    open spec fn view(&self) -> (Seq<char>, PacketMsgView) {
        (self.channel_id@, self.packet@)
    }
}

impl DeepView for PacketSend {
    type V = (Seq<char>, PacketMsgView);

    open spec fn deep_view(&self) -> (Seq<char>, PacketMsgView) {
        self.view()
    }
}

/// Broadcast a list of packets to a list of (id, channel) pairs, labelled
/// with the given action attribute: every packet goes to every channel.
pub fn broadcast_response(
    channel_ids: Vec<(u32, String)>,
    packets_to_broadcast: Vec<PacketMsg>,
    attrib: String,
) -> (r: ResponsePlan)
    ensures
        r.submessages@.len() == 0,
        r.messages.deep_view() == cross_sends(
            packets_to_broadcast.deep_view(),
            channel_ids.deep_view(),
        ),
        r.attributes@.len() == 1,
        r.attributes@[0].0@ == "action"@ && r.attributes@[0].1@ == attrib@,
{
    let ghost pk = packets_to_broadcast.deep_view();
    let ghost ch = channel_ids.deep_view();
    let mut messages: Vec<PacketSend> = Vec::new();
    let mut p: usize = 0;
    while p < packets_to_broadcast.len()
        invariant
            0 <= p <= pk.len(),
            pk == packets_to_broadcast.deep_view(),
            ch == channel_ids.deep_view(),
            pk.len() == packets_to_broadcast@.len(),
            ch.len() == channel_ids@.len(),
            messages.deep_view() =~~= cross_sends(pk.take(p as int), ch),
        decreases pk.len() - p,
    {
        let packet = &packets_to_broadcast[p];
        proof {
            assert(pk[p as int] == packets_to_broadcast@[p as int]@);
        }
        let ghost block0 = messages.deep_view();
        let mut c: usize = 0;
        while c < channel_ids.len()
            invariant
                0 <= c <= ch.len(),
                0 <= p < pk.len(),
                pk == packets_to_broadcast.deep_view(),
                ch == channel_ids.deep_view(),
                pk.len() == packets_to_broadcast@.len(),
                ch.len() == channel_ids@.len(),
                packet == &packets_to_broadcast@[p as int],
                pk[p as int] == packets_to_broadcast@[p as int]@,
                block0 == cross_sends(pk.take(p as int), ch),
                messages.deep_view() =~~= block0 + one_packet_sends(ch.take(c as int), pk[p as int]),
            decreases ch.len() - c,
        {
            let pair = &channel_ids[c];
            let ghost pre = messages.deep_view();
            messages.push(PacketSend { channel_id: pair.1.clone(), packet: packet.clone() });
            proof {
                assert(ch[c as int] == (channel_ids@[c as int].0, channel_ids@[c as int].1@));
                assert(messages.deep_view() =~~= pre.push((ch[c as int].1, pk[p as int])));
                assert(ch.take(c + 1).drop_last() =~~= ch.take(c as int));
                assert(ch.take(c + 1).last() == ch[c as int]);
                assert(one_packet_sends(ch.take(c + 1), pk[p as int]) =~~= one_packet_sends(
                    ch.take(c as int),
                    pk[p as int],
                ).push((ch[c as int].1, pk[p as int])));
                assert(messages.deep_view() =~~= block0 + one_packet_sends(
                    ch.take(c + 1),
                    pk[p as int],
                ));
            }
            c = c + 1;
        }
        proof {
            assert(ch.take(ch.len() as int) =~~= ch);
            assert(pk.take(p + 1).drop_last() =~~= pk.take(p as int));
            assert(pk.take(p + 1).last() == pk[p as int]);
            assert(cross_sends(pk.take(p + 1), ch) =~~= cross_sends(pk.take(p as int), ch)
                + one_packet_sends(ch, pk[p as int]));
            assert(messages.deep_view() =~~= cross_sends(pk.take(p + 1), ch));
        }
        p = p + 1;
    }
    proof {
        assert(pk.take(pk.len() as int) =~~= pk);
        assert(messages.deep_view() =~~= cross_sends(pk, ch));
    }
    let mut attributes: Vec<(String, String)> = Vec::new();
    attributes.push(("action".to_owned(), attrib));
    ResponsePlan { messages, submessages: Vec::new(), attributes }
}


/// Starts or steers a consensus instance.
pub enum ExecuteMsg {
    Input { value: InputType },
    PreInput { value: InputType },
    ForceAbort {},
    Abort {},
    Trigger { behavior: String },
    Key3 { val: InputType, view: u32, local_channel_id: String },
    Lock { val: InputType, view: u32, local_channel_id: String },
    Done { val: InputType, view: u32, local_channel_id: String },
    SetContractAddr { addr: String },
}

/// The read-only administrative queries.
pub enum QueryMsg {
    GetState {},
    GetStateProgress {},
    GetChannels {},
    GetTest {},
    GetHighestReq {},
    GetHighestAbort {},
    GetReceivedSuggest {},
    GetSendAllUpon {},
    GetTestQueue {},
    GetEcho {},
    GetKey1 {},
    GetKey2 {},
    GetKey3 {},
    GetLock {},
    GetDone {},
    GetAbortInfo {},
    GetDebug {},
    GetIbcDebug {},
    GetDebugReceive {},
    CheckSignature { val: InputType },
    GetAddress { val: InputType },
}

/// A looked-up key, or the report that it is absent.
#[derive(Clone, Debug, PartialEq)]
pub enum ValueResponse {
    KeyFound { key: String, value: String },
    KeyNotFound {},
}

/// The replica record, or the decided value with its timing once the
/// instance has terminated.
pub enum StateResponse {
    InProgress { state: crate::state::State },
    Done {
        decided_val: String,
        decided_timestamp: Option<u64>,
        block_height: Option<u64>,
        start_time: u64,
        seconds_duration: Option<u64>,
        minutes_duration: Option<u64>,
    },
}

/// The registered (replica id, channel handle) pairs.
#[derive(Debug, PartialEq)]
pub struct ChannelsResponse {
    pub port_chan_pair: Vec<(u32, String)>,
}

/// Each replica's highest announced Request view.
#[derive(Debug, PartialEq)]
pub struct HighestReqResponse {
    pub highest_request: Vec<(u32, u32)>,
}

/// The senders whose Suggest was already counted this view.
#[derive(Debug, PartialEq)]
pub struct ReceivedSuggestResponse {
    pub received_suggest: Vec<u32>,
}

/// The join-on-request buffers that still hold packets.
#[derive(Debug, PartialEq)]
pub struct SendAllUponResponse {
    pub send_all_upon: Vec<(u32, Vec<Msg>)>,
}

/// A replay record of queued packets per transfer.
#[derive(Debug, PartialEq)]
pub struct TestQueueResponse {
    pub test_queue: Vec<(u32, Vec<(u32, Vec<Msg>)>)>,
}

/// The Echo quorum record: contributors per value hash.
#[derive(Debug, PartialEq)]
pub struct EchoQueryResponse {
    pub echo: Vec<(u64, Vec<u32>)>,
}

/// The Key1 quorum record: contributors per value hash.
#[derive(Debug, PartialEq)]
pub struct Key1QueryResponse {
    pub key1: Vec<(u64, Vec<u32>)>,
}

/// The Key2 quorum record: contributors per value hash.
#[derive(Debug, PartialEq)]
pub struct Key2QueryResponse {
    pub key2: Vec<(u64, Vec<u32>)>,
}

/// The Key3 quorum record: contributors per value hash.
#[derive(Debug, PartialEq)]
pub struct Key3QueryResponse {
    pub key3: Vec<(u64, Vec<u32>)>,
}

/// The Lock quorum record: contributors per value hash.
#[derive(Debug, PartialEq)]
pub struct LockQueryResponse {
    pub lock: Vec<(u64, Vec<u32>)>,
}

/// The Done quorum record: contributors per value hash.
#[derive(Debug, PartialEq)]
pub struct DoneQueryResponse {
    pub done: Vec<(u64, Vec<u32>)>,
}

/// Whether a manual abort would currently be accepted.
#[derive(Debug, PartialEq)]
pub struct AbortResponse {
    pub start_time: u64,
    pub end_time: u64,
    pub current_time: u64,
    pub is_timeout: bool,
    pub done: bool,
    pub should_abort: bool,
}

/// Free-form diagnostic records.
#[derive(Debug, PartialEq)]
pub struct DebugResponse {
    pub debug: Vec<(u32, String)>,
}

/// Each replica's highest announced Abort view.
#[derive(Debug, PartialEq)]
pub struct HighestAbortResponse {
    pub highest_abort: Vec<(u32, i64)>,
}

/// Acknowledgement of a WhoAmI handshake.
#[derive(Clone, Debug, PartialEq)]
pub struct WhoAmIResponse {}

/// Acknowledgement of a Propose packet.
#[derive(Clone, Debug, PartialEq)]
pub struct ProposeResponse {}

/// Acknowledgement of a Commit packet, carrying its transfer id.
#[derive(Clone, Debug, PartialEq)]
pub struct CommitResponse {
    pub tx_id: u32,
}

/// Acknowledgement of a Request packet.
#[derive(Clone, Debug, PartialEq)]
pub struct RequestResponse {}

/// Acknowledgement of a Suggest packet.
#[derive(Clone, Debug, PartialEq)]
pub struct SuggestResponse {}

/// Acknowledgement of a Proof packet.
#[derive(Clone, Debug, PartialEq)]
pub struct ProofResponse {}

/// Acknowledgement of an Echo packet.
#[derive(Clone, Debug, PartialEq)]
pub struct EchoResponse {}

/// Acknowledgement of a Key1 packet.
#[derive(Clone, Debug, PartialEq)]
pub struct Key1Response {}

/// Acknowledgement of a Key2 packet.
#[derive(Clone, Debug, PartialEq)]
pub struct Key2Response {}

/// Acknowledgement of a Key3 packet.
#[derive(Clone, Debug, PartialEq)]
pub struct Key3Response {}

/// Acknowledgement of a Lock packet.
#[derive(Clone, Debug, PartialEq)]
pub struct LockResponse {}

/// Acknowledgement of a Done packet.
#[derive(Clone, Debug, PartialEq)]
pub struct DoneResponse {}

/// Acknowledgement of a message-queue packet.
#[derive(Clone, Debug, PartialEq)]
pub struct MsgQueueResponse {}

} // verus!
