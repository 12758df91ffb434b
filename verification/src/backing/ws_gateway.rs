//! The websocket gateway backing: webpages connect over a websocket and take part in
//! the messaging.
//!
//! On the wire every message is `<payload><header size>`, the header size being eight
//! bytes, little-endian, at the very end. Connections are accepted only from
//! `http://127.0.0.1` and `http://localhost` (on any port), from clients whose origin is
//! `null` (a page opened from a local file), or from clients that send no `Origin`
//! header at all.
use vstd::prelude::*;
use vstd::bytes::{spec_u64_to_le_bytes, spec_u64_from_le_bytes, u64_to_le_bytes, u64_from_le_bytes, lemma_auto_spec_u64_to_from_le_bytes};
use crate::backing::common::TryRecvStreamResult;

verus! {

/// The TCP port the gateway listens on.
pub const GATEWAY_PORT: usize = 8367;

/// The number of bytes the header size takes at the end of a framed message.
pub const HEADER_SIZE_BYTES: usize = 8;

#[verifier::external_type_specification]
#[verifier::external_body]
#[verifier::reject_recursive_types(T)]
pub struct ExUnboundedReceiver<T>(tokio::sync::mpsc::UnboundedReceiver<T>);

#[verifier::external_type_specification]
#[verifier::external_body]
#[verifier::reject_recursive_types(T)]
pub struct ExUnboundedSender<T>(tokio::sync::mpsc::UnboundedSender<T>);

#[verifier::external_type_specification]
#[verifier::external_body]
#[verifier::reject_recursive_types(T)]
pub struct ExBroadcastSender<T>(postage::broadcast::Sender<T>);

/// Possible errors during initialization.
#[derive(Debug)]
pub enum InitError {
    /// Encountered an initialization error in the common code.
    CommonInitError(crate::backing::common::InitError),
}

/// Possible errors during normal operations.
#[derive(Debug, Clone, Copy, PartialEq, Eq, Structural)]
pub enum IpcError {
    /// The gateway is not initialized (or no longer running) - call `init` first.
    NotInitialized,
}

/// What one non-blocking look into a channel found.
pub enum ChannelPoll {
    /// A message was waiting.
    Message(Vec<u8>),
    /// No message is waiting right now.
    Empty,
    /// Every sender is gone; no message will ever come.
    Disconnected,
}

// ---------------------------------------------------------------------------
// Wire format
// ---------------------------------------------------------------------------

/// The bytes that carry `payload` with header size `header_size`.
pub open spec fn framed(payload: Seq<u8>, header_size: u64) -> Seq<u8> {
    payload + spec_u64_to_le_bytes(header_size)
}

/// Append the header size, as eight little-endian bytes, to a copy of `payload`.
pub fn frame_payload(payload: &[u8], header_size: usize) -> (frame: Vec<u8>)
    ensures
        frame@ == framed(payload@, header_size as u64),
{
    let mut frame: Vec<u8> = Vec::new();
    let n = payload.len();
    let mut i: usize = 0;
    while i < n
        invariant
            n == payload@.len(),
            i <= n,
            frame@ == payload@.subrange(0, i as int),
        decreases n - i,
    {
        frame.push(payload[i]);
        i = i + 1;
        proof {
            assert(frame@ =~= payload@.subrange(0, i as int));
        }
    }
    let trailer = u64_to_le_bytes(header_size as u64);
    let mut j: usize = 0;
    while j < 8
        invariant
            trailer@ == spec_u64_to_le_bytes(header_size as u64),
            trailer@.len() == 8,
            j <= 8,
            frame@ == payload@ + trailer@.subrange(0, j as int),
        decreases 8 - j,
    {
        frame.push(trailer[j]);
        j = j + 1;
        proof {
            assert(frame@ =~= payload@ + trailer@.subrange(0, j as int));
        }
    }
    proof {
        assert(trailer@.subrange(0, 8) =~= trailer@);
    }
    frame
}

/// Split a framed message into its payload and header size; `None` when it is too
/// short to carry a header size.
pub fn parse_frame(frame: &[u8]) -> (parsed: Option<(Vec<u8>, u64)>)
    ensures
        match parsed {
            Some((payload, header_size)) => frame@ == framed(payload@, header_size),
            None => frame@.len() < 8,
        },
{
    let n = frame.len();
    if n < 8 {
        return None;
    }
    let cut = n - 8;
    let mut payload: Vec<u8> = Vec::new();
    let mut i: usize = 0;
    while i < cut
        invariant
            n == frame@.len(),
            cut == n - 8,
            i <= cut,
            payload@ == frame@.subrange(0, i as int),
        decreases cut - i,
    {
        payload.push(frame[i]);
        i = i + 1;
        proof {
            assert(payload@ =~= frame@.subrange(0, i as int));
        }
    }
    let trailer = &frame[cut..n];
    let header_size = u64_from_le_bytes(trailer);
    proof {
        lemma_auto_spec_u64_to_from_le_bytes();
        assert(trailer@ =~= frame@.subrange(cut as int, n as int));
        assert(spec_u64_to_le_bytes(spec_u64_from_le_bytes(trailer@)) == trailer@);
        assert(frame@ =~= payload@ + trailer@);
    }
    Some((payload, header_size))
}

/// Framing then parsing gives back the payload and header size that were framed.
pub proof fn lemma_frame_then_parse(payload: Seq<u8>, header_size: u64, p2: Seq<u8>, h2: u64)
    requires
        framed(payload, header_size) == framed(p2, h2),
    ensures
        p2 == payload,
        h2 == header_size,
{
    lemma_auto_spec_u64_to_from_le_bytes();
    let f = framed(payload, header_size);
    assert(spec_u64_to_le_bytes(header_size).len() == 8);
    assert(spec_u64_to_le_bytes(h2).len() == 8);
    assert(payload =~= f.subrange(0, f.len() - 8));
    assert(p2 =~= f.subrange(0, f.len() - 8));
    assert(spec_u64_to_le_bytes(header_size) =~= f.subrange(f.len() - 8, f.len() as int));
    assert(spec_u64_to_le_bytes(h2) =~= f.subrange(f.len() - 8, f.len() as int));
    assert(spec_u64_from_le_bytes(spec_u64_to_le_bytes(header_size)) == header_size);
    assert(spec_u64_from_le_bytes(spec_u64_to_le_bytes(h2)) == h2);
}

/// Every framed message is long enough to be parsed: it carries at least the eight
/// bytes of its header size.
pub proof fn lemma_framed_len(payload: Seq<u8>, header_size: u64)
    ensures
        framed(payload, header_size).len() == payload.len() + 8,
{
    lemma_auto_spec_u64_to_from_le_bytes();
}

/// What a receiver makes of a sent message: the frame of payload `p` is long
/// enough to carry a header size, and all but its last eight bytes are `p` again.
pub proof fn lemma_frame_payload_recovered(p: Seq<u8>, header_size: u64)
    ensures
        framed(p, header_size).len() >= 8,
        framed(p, header_size).subrange(0, framed(p, header_size).len() - 8) == p,
{
    lemma_framed_len(p, header_size);
    assert(framed(p, header_size).subrange(0, framed(p, header_size).len() - 8) =~= p);
}

// ---------------------------------------------------------------------------
// Origin policy
// ---------------------------------------------------------------------------

/// ASCII lowercase of one byte; other bytes are left alone.
pub open spec fn ascii_lower(b: u8) -> u8 {
    if 65 <= b <= 90 {
        (b + 32) as u8
    } else {
        b
    }
}

/// ASCII lowercase of a byte string.
pub open spec fn lowered(s: Seq<u8>) -> Seq<u8> {
    Seq::new(s.len(), |i: int| ascii_lower(s[i]))
}

/// `prefix` is a prefix of `s`.
pub open spec fn has_prefix(s: Seq<u8>, prefix: Seq<u8>) -> bool {
    prefix.len() <= s.len() && s.subrange(0, prefix.len() as int) == prefix
}

/// The origins a connection may come from: exactly `allowed`, or `allowed`
/// followed by `:` and anything (a port).
pub open spec fn origin_matches(low: Seq<u8>, allowed: Seq<u8>) -> bool {
    low == allowed || has_prefix(low, allowed.push(58u8))
}

/// The bytes of `http://127.0.0.1`.
pub open spec fn origin_loopback() -> Seq<u8> {
    seq![104u8, 116, 116, 112, 58, 47, 47, 49, 50, 55, 46, 48, 46, 48, 46, 49]
}

/// The bytes of `http://localhost`.
pub open spec fn origin_localhost() -> Seq<u8> {
    seq![104u8, 116, 116, 112, 58, 47, 47, 108, 111, 99, 97, 108, 104, 111, 115, 116]
}

/// The bytes of `null`, the origin a browser sends for a page opened from a local file.
pub open spec fn origin_null() -> Seq<u8> {
    seq![110u8, 117, 108, 108]
}

/// An `Origin` header is allowed when, lowercased, it is one of the allowed
/// origins, with or without a port, or it is `null`.
pub open spec fn origin_allowed(origin: Seq<u8>) -> bool {
    let low = lowered(origin);
    origin_matches(low, origin_loopback()) || origin_matches(low, origin_localhost()) || low == origin_null()
}

/// The origin check ignores case: an origin is allowed exactly when its lowercase
/// form is.
pub proof fn lemma_origin_check_ignores_case(origin: Seq<u8>)
    ensures
        origin_allowed(lowered(origin)) == origin_allowed(origin),
{
    assert(lowered(lowered(origin)) =~= lowered(origin));
}

/// Pages served from the loopback address or from `localhost` may connect on every
/// port: an origin that, lowercased, is `http://127.0.0.1` or `http://localhost`,
/// alone or followed by `:` and any bytes `port`, is allowed, and so is `null`.
pub proof fn lemma_local_origins_allowed(origin: Seq<u8>, port: Seq<u8>)
    ensures
        lowered(origin) == seq![104u8, 116, 116, 112, 58, 47, 47, 49, 50, 55, 46, 48, 46, 48, 46, 49] ==> origin_allowed(
            origin,
        ),
        lowered(origin) == seq![104u8, 116, 116, 112, 58, 47, 47, 49, 50, 55, 46, 48, 46, 48, 46, 49, 58] + port
            ==> origin_allowed(origin),
        lowered(origin) == seq![104u8, 116, 116, 112, 58, 47, 47, 108, 111, 99, 97, 108, 104, 111, 115, 116]
            ==> origin_allowed(origin),
        lowered(origin) == seq![104u8, 116, 116, 112, 58, 47, 47, 108, 111, 99, 97, 108, 104, 111, 115, 116, 58] + port
            ==> origin_allowed(origin),
        lowered(origin) == seq![110u8, 117, 108, 108] ==> origin_allowed(origin),
{
    let low = lowered(origin);
    let loopback = seq![104u8, 116, 116, 112, 58, 47, 47, 49, 50, 55, 46, 48, 46, 48, 46, 49];
    let localhost = seq![104u8, 116, 116, 112, 58, 47, 47, 108, 111, 99, 97, 108, 104, 111, 115, 116];
    assert(loopback =~= origin_loopback());
    assert(localhost =~= origin_localhost());
    if low == loopback.push(58u8) + port {
        assert(low.subrange(0, 17) =~= origin_loopback().push(58u8));
    }
    if low == localhost.push(58u8) + port {
        assert(low.subrange(0, 17) =~= origin_localhost().push(58u8));
    }
    assert(seq![104u8, 116, 116, 112, 58, 47, 47, 49, 50, 55, 46, 48, 46, 48, 46, 49, 58] =~= loopback.push(58u8));
    assert(seq![104u8, 116, 116, 112, 58, 47, 47, 108, 111, 99, 97, 108, 104, 111, 115, 116, 58] =~= localhost.push(
        58u8,
    ));
    assert(seq![110u8, 117, 108, 108] =~= origin_null());
}

/// Only local pages may connect: an allowed origin is, lowercased, `null`, or starts
/// with `http://127.0.0.1` or `http://localhost`.
pub proof fn lemma_allowed_origins_are_local(origin: Seq<u8>)
    requires
        origin_allowed(origin),
    ensures
        lowered(origin) == seq![110u8, 117, 108, 108] || has_prefix(
            lowered(origin),
            seq![104u8, 116, 116, 112, 58, 47, 47, 49, 50, 55, 46, 48, 46, 48, 46, 49],
        ) || has_prefix(lowered(origin), seq![104u8, 116, 116, 112, 58, 47, 47, 108, 111, 99, 97, 108, 104, 111, 115, 116]),
{
    let low = lowered(origin);
    let loopback = seq![104u8, 116, 116, 112, 58, 47, 47, 49, 50, 55, 46, 48, 46, 48, 46, 49];
    let localhost = seq![104u8, 116, 116, 112, 58, 47, 47, 108, 111, 99, 97, 108, 104, 111, 115, 116];
    assert(loopback =~= origin_loopback());
    assert(localhost =~= origin_localhost());
    assert(seq![110u8, 117, 108, 108] =~= origin_null());
    if low == loopback {
        assert(low.subrange(0, 16) =~= loopback);
    } else if has_prefix(low, loopback.push(58u8)) {
        assert(low.subrange(0, 16) =~= low.subrange(0, 17).subrange(0, 16));
        assert(loopback.push(58u8).subrange(0, 16) =~= loopback);
    }
    if low == localhost {
        assert(low.subrange(0, 16) =~= localhost);
    } else if has_prefix(low, localhost.push(58u8)) {
        assert(low.subrange(0, 16) =~= low.subrange(0, 17).subrange(0, 16));
        assert(localhost.push(58u8).subrange(0, 16) =~= localhost);
    }
}

fn lowercase_bytes(s: &[u8]) -> (low: Vec<u8>)
    ensures
        low@ == lowered(s@),
{
    let mut low: Vec<u8> = Vec::new();
    let n = s.len();
    let mut i: usize = 0;
    while i < n
        invariant
            n == s@.len(),
            i <= n,
            low@ == lowered(s@.subrange(0, i as int)),
        decreases n - i,
    {
        let b = s[i];
        let l = if 65 <= b && b <= 90 { b + 32 } else { b };
        low.push(l);
        i = i + 1;
        proof {
            assert(low@ =~= lowered(s@.subrange(0, i as int)));
        }
    }
    proof {
        assert(s@.subrange(0, n as int) =~= s@);
    }
    low
}

fn starts_with(s: &[u8], prefix: &[u8]) -> (b: bool)
    ensures
        b == has_prefix(s@, prefix@),
{
    let m = prefix.len();
    if m > s.len() {
        return false;
    }
    let mut i: usize = 0;
    while i < m
        invariant
            m == prefix@.len(),
            m <= s@.len(),
            i <= m,
            forall|j: int| 0 <= j < i ==> s@[j] == prefix@[j],
        decreases m - i,
    {
        if s[i] != prefix[i] {
            proof {
                assert(s@.subrange(0, m as int)[i as int] != prefix@[i as int]);
            }
            return false;
        }
        i = i + 1;
    }
    proof {
        assert(s@.subrange(0, m as int) =~= prefix@);
    }
    true
}

fn matches_origin(low: &[u8], allowed: &[u8]) -> (b: bool)
    ensures
        b == origin_matches(low@, allowed@),
{
    if low.len() == allowed.len() && starts_with(low, allowed) {
        proof {
            assert(low@ =~= low@.subrange(0, allowed@.len() as int));
        }
        return true;
    }
    let mut with_colon: Vec<u8> = Vec::new();
    let n = allowed.len();
    let mut i: usize = 0;
    while i < n
        invariant
            n == allowed@.len(),
            i <= n,
            with_colon@ == allowed@.subrange(0, i as int),
        decreases n - i,
    {
        with_colon.push(allowed[i]);
        i = i + 1;
        proof {
            assert(with_colon@ =~= allowed@.subrange(0, i as int));
        }
    }
    with_colon.push(58u8);
    proof {
        assert(with_colon@ =~= allowed@.push(58u8));
        if low@ == allowed@ {
            assert(low@.subrange(0, allowed@.len() as int) =~= low@);
        }
    }
    starts_with(low, with_colon.as_slice())
}

/// Whether a websocket upgrade request with this `Origin` header may connect.
pub fn is_allowed_origin(origin: &[u8]) -> (allowed: bool)
    ensures
        allowed == origin_allowed(origin@),
{
    let low = lowercase_bytes(origin);
    let loopback: [u8; 16] = [104, 116, 116, 112, 58, 47, 47, 49, 50, 55, 46, 48, 46, 48, 46, 49];
    let localhost: [u8; 16] = [104, 116, 116, 112, 58, 47, 47, 108, 111, 99, 97, 108, 104, 111, 115, 116];
    let null: [u8; 4] = [110, 117, 108, 108];
    proof {
        assert(loopback@ =~= origin_loopback());
        assert(localhost@ =~= origin_localhost());
        assert(null@ =~= origin_null());
    }
    let is_null = low.len() == 4 && starts_with(low.as_slice(), null.as_slice());
    proof {
        if low@.len() == 4 {
            assert(low@ =~= low@.subrange(0, 4));
        }
        assert(origin_null().len() == 4);
        assert(is_null == (low@ == origin_null()));
    }
    matches_origin(low.as_slice(), loopback.as_slice()) || matches_origin(low.as_slice(), localhost.as_slice())
        || is_null
}

// ---------------------------------------------------------------------------
// Channels
// ---------------------------------------------------------------------------

/// Calls tokio's `UnboundedReceiver::try_recv` once on the receiver's channel and
/// reports which of its three outcomes came back, the message taken off the channel
/// unchanged; what came back is recorded on the receiver. Other tasks send on the
/// channel, so nothing is stated of which outcome that is.
#[verifier::external_body]
fn channel_try_recv(receiver: &mut GatewayReceiver) -> (poll: ChannelPoll)
    ensures
        final(receiver).polls@ == old(receiver).polls@.push(poll),
{
    match receiver.rx.try_recv() {
        Ok(payload) => ChannelPoll::Message(payload),
        Err(tokio::sync::mpsc::error::TryRecvError::Empty) => ChannelPoll::Empty,
        Err(tokio::sync::mpsc::error::TryRecvError::Disconnected) => ChannelPoll::Disconnected,
    }
}

/// Calls tokio's `UnboundedSender::send` on the sender's channel with `payload`, which
/// is thereby recorded as handed to the channel; returns whether the channel accepted
/// it. `send` fails only once the receiver is gone, which is not known here, so
/// nothing is stated of the result.
#[verifier::external_body]
fn channel_send(sender: &mut GatewaySender, payload: Vec<u8>) -> (accepted: bool)
    ensures
        final(sender).sent@ == old(sender).sent@.push(payload@),
{
    sender.tx.send(payload).is_ok()
}

/// Calls postage's `Sink::try_send` on the broadcast sender with `payload`, which is
/// thereby recorded as handed to the sender; returns whether the sender accepted it.
/// It is refused when the buffer is full or no subscriber exists, which depends on
/// other tasks, so nothing is stated of the result.
#[verifier::external_body]
fn broadcast_try_send(broadcast: &mut GatewayBroadcast, payload: Vec<u8>) -> (accepted: bool)
    ensures
        final(broadcast).sent() == old(broadcast).sent().push(payload@),
{
    postage::sink::Sink::try_send(&mut broadcast.tx, payload).is_ok()
}

/// The result `try_recv_copy` gives for one look into the receiving channel.
pub open spec fn try_recv_copy_result(poll: ChannelPoll) -> Result<TryRecvStreamResult, IpcError> {
    match poll {
        ChannelPoll::Message(payload) => Ok(TryRecvStreamResult::NewCompleted(payload)),
        ChannelPoll::Empty => Ok(TryRecvStreamResult::OutOfAccessible),
        ChannelPoll::Disconnected => Err(IpcError::NotInitialized),
    }
}

/// A message taken off the gateway's channel is handed back whole, byte for byte and
/// whatever its length; an empty channel is out of accessible messages, and a channel
/// without senders means the gateway is not running.
pub proof fn lemma_taken_message_handed_back(payload: Vec<u8>)
    ensures
        try_recv_copy_result(ChannelPoll::Message(payload)) matches Ok(TryRecvStreamResult::NewCompleted(q))
            && q@ == payload@ && q@.len() == payload@.len(),
        try_recv_copy_result(ChannelPoll::Empty) == Ok::<TryRecvStreamResult, IpcError>(
            TryRecvStreamResult::OutOfAccessible,
        ),
        try_recv_copy_result(ChannelPoll::Disconnected) == Err::<TryRecvStreamResult, IpcError>(
            IpcError::NotInitialized,
        ),
{
}

/// Turn one look into the receiving channel into the answer of `try_recv_copy`:
/// a waiting message is a new completed message, an empty channel is out of
/// accessible messages, and a channel without senders means the gateway is not
/// running.
pub fn recv_copy_result(poll: ChannelPoll) -> (result: Result<TryRecvStreamResult, IpcError>)
    ensures
        result == try_recv_copy_result(poll),
{
    match poll {
        ChannelPoll::Message(payload) => Ok(TryRecvStreamResult::NewCompleted(payload)),
        ChannelPoll::Empty => Ok(TryRecvStreamResult::OutOfAccessible),
        ChannelPoll::Disconnected => Err(IpcError::NotInitialized),
    }
}

/// The receiving end of the gateway: the channel on which websocket clients (and
/// this process, through [`send_copy_to_self`]) deliver framed messages, `None` until
/// `init` has run; with the record of every answer [`try_recv_copy`] has given from it.
pub struct GatewayInbox {
    rx: Option<GatewayReceiver>,
    answers: Ghost<Seq<Result<TryRecvStreamResult, IpcError>>>,
}

/// The receiving end of the gateway's channel, with the record of every look taken
/// into it.
struct GatewayReceiver {
    rx: tokio::sync::mpsc::UnboundedReceiver<Vec<u8>>,
    polls: Ghost<Seq<ChannelPoll>>,
}

impl GatewayInbox {
    /// Whether the receiving channel is there, that is, whether `init` has run.
    pub closed spec fn is_open(&self) -> bool {
        self.rx is Some
    }

    /// What the looks into the receiving channel found, oldest first, each message as
    /// it was taken off the channel (none before `init`).
    pub closed spec fn polls(&self) -> Seq<ChannelPoll> {
        match self.rx {
            Some(receiver) => receiver.polls@,
            None => Seq::empty(),
        }
    }

    /// The answers [`try_recv_copy`] has given from this inbox, oldest first.
    pub closed spec fn answers(&self) -> Seq<Result<TryRecvStreamResult, IpcError>> {
        self.answers@
    }

    /// An inbox without a channel, as before `init`.
    pub fn new() -> (inbox: Self)
        ensures
            !inbox.is_open(),
            inbox.answers() == Seq::<Result<TryRecvStreamResult, IpcError>>::empty(),
            inbox.polls() == Seq::<ChannelPoll>::empty(),
    {
        GatewayInbox { rx: None, answers: Ghost(Seq::empty()) }
    }

    /// An inbox that receives on `rx`.
    pub fn open(rx: tokio::sync::mpsc::UnboundedReceiver<Vec<u8>>) -> (inbox: Self)
        ensures
            inbox.is_open(),
            inbox.answers() == Seq::<Result<TryRecvStreamResult, IpcError>>::empty(),
            inbox.polls() == Seq::<ChannelPoll>::empty(),
    {
        GatewayInbox { rx: Some(GatewayReceiver { rx, polls: Ghost(Seq::empty()) }), answers: Ghost(Seq::empty()) }
    }
}

/// Try to receive a message that arrived through the gateway.
///
/// This function never blocks, instead attempting to get a single accessible
/// message, then returning immediately. Before `init` (no channel) the answer is
/// `NotInitialized`; otherwise the channel is looked into once and the answer is what
/// that look found (see [`try_recv_copy_result`]): a message is handed back whole.
/// Every answer is added to the inbox's record.
pub fn try_recv_copy(inbox: &mut GatewayInbox) -> (result: Result<TryRecvStreamResult, IpcError>)
    ensures
        final(inbox).answers() == old(inbox).answers().push(result),
        final(inbox).is_open() == old(inbox).is_open(),
        !old(inbox).is_open() ==> result == Err::<TryRecvStreamResult, IpcError>(IpcError::NotInitialized),
        !old(inbox).is_open() ==> final(inbox).polls() == old(inbox).polls(),
        old(inbox).is_open() ==> {
            &&& final(inbox).polls() == old(inbox).polls().push(final(inbox).polls().last())
            &&& result == try_recv_copy_result(final(inbox).polls().last())
        },
        !(result matches Ok(TryRecvStreamResult::PotentiallyAvailable)),
{
    let result = match &mut inbox.rx {
        Some(receiver) => {
            let poll = channel_try_recv(receiver);
            recv_copy_result(poll)
        },
        None => Err(IpcError::NotInitialized),
    };
    proof {
        inbox.answers@ = inbox.answers@.push(result);
    }
    result
}

/// Close the gateway. The gateway holds nothing that needs closing, so this is a no-op.
pub fn close() {
}

/// The gateway's sender to every connected websocket client, with the record of the
/// frames [`send_copy`] has handed to it.
pub struct GatewayBroadcast {
    tx: postage::broadcast::Sender<Vec<u8>>,
    sent: Ghost<Seq<Seq<u8>>>,
}

impl GatewayBroadcast {
    /// The frames handed to the broadcast sender, oldest first.
    pub closed spec fn sent(&self) -> Seq<Seq<u8>> {
        self.sent@
    }

    /// Broadcast through `tx`.
    pub fn new(tx: postage::broadcast::Sender<Vec<u8>>) -> (broadcast: Self)
        ensures
            broadcast.sent() == Seq::<Seq<u8>>::empty(),
    {
        GatewayBroadcast { tx, sent: Ghost(Seq::empty()) }
    }
}

/// Broadcast a framed message to every connected websocket client.
///
/// The frame is handed to the broadcast sender, which drops it when no client is
/// connected or a client lags a whole buffer behind.
pub fn send_copy(broadcast: &mut GatewayBroadcast, payload: Vec<u8>)
    ensures
        final(broadcast).sent() == old(broadcast).sent().push(payload@),
{
    let _ = broadcast_try_send(broadcast, payload);
}

/// The answer of `send_copy_to_self` once the receiving channel has taken the message
/// (`accepted`) or refused it because its receiver is gone: success, or a gateway that
/// is not running.
pub fn send_copy_result(accepted: bool) -> (result: Result<(), IpcError>)
    ensures
        result == if accepted {
            Ok::<(), IpcError>(())
        } else {
            Err::<(), IpcError>(IpcError::NotInitialized)
        },
{
    if accepted {
        Ok(())
    } else {
        Err(IpcError::NotInitialized)
    }
}

/// A sending end of the gateway's own receiving channel, with the record of the
/// frames handed to it.
struct GatewaySender {
    tx: tokio::sync::mpsc::UnboundedSender<Vec<u8>>,
    sent: Ghost<Seq<Seq<u8>>>,
}

/// The sending end of the gateway's own receiving channel, `None` until `init` has
/// run, with the record of the frames [`send_copy_to_self`] has handed to it.
pub struct GatewayOutbox {
    sender: Option<GatewaySender>,
}

impl GatewayOutbox {
    /// Whether the sending end is there, that is, whether `init` has run.
    pub closed spec fn is_open(&self) -> bool {
        self.sender is Some
    }

    /// The frames handed to the sending end, oldest first (none before `init`).
    pub closed spec fn sent(&self) -> Seq<Seq<u8>> {
        match self.sender {
            Some(sender) => sender.sent@,
            None => Seq::empty(),
        }
    }

    /// An outbox without a channel, as before `init`.
    pub fn new() -> (outbox: Self)
        ensures
            !outbox.is_open(),
            outbox.sent() == Seq::<Seq<u8>>::empty(),
    {
        GatewayOutbox { sender: None }
    }

    /// An outbox that sends on `tx`.
    pub fn open(tx: tokio::sync::mpsc::UnboundedSender<Vec<u8>>) -> (outbox: Self)
        ensures
            outbox.is_open(),
            outbox.sent() == Seq::<Seq<u8>>::empty(),
    {
        GatewayOutbox { sender: Some(GatewaySender { tx, sent: Ghost(Seq::empty()) }) }
    }
}

/// Deliver a framed message to this process's own receiving channel, as if a
/// websocket client had sent it. Before `init` (no channel) nothing is sent and the
/// answer is `NotInitialized`; otherwise the frame is handed to the channel, which
/// refuses it only once its receiver is gone.
pub fn send_copy_to_self(outbox: &mut GatewayOutbox, payload: Vec<u8>) -> (result: Result<(), IpcError>)
    ensures
        old(outbox).is_open() ==> final(outbox).sent() == old(outbox).sent().push(payload@),
        !old(outbox).is_open() ==> final(outbox).sent() == old(outbox).sent(),
        final(outbox).is_open() == old(outbox).is_open(),
        !old(outbox).is_open() ==> result == Err::<(), IpcError>(IpcError::NotInitialized),
        result is Ok || result == Err::<(), IpcError>(IpcError::NotInitialized),
{
    match &mut outbox.sender {
        Some(sender) => {
            let accepted = channel_send(sender, payload);
            send_copy_result(accepted)
        },
        None => Err(IpcError::NotInitialized),
    }
}

/// The kind of a frame a websocket client sent.
#[derive(Debug, Clone, Copy, PartialEq, Eq, Structural)]
pub enum ClientFrame {
    /// The client closes the connection.
    Close,
    /// A binary frame: a framed message.
    Binary,
    /// Any other frame (text, ping, pong, continuation).
    Other,
}

/// What the gateway does with a frame from a websocket client.
#[derive(Debug, Clone, Copy, PartialEq, Eq, Structural)]
pub enum ClientAction {
    /// End the connection.
    Stop,
    /// Hand the frame's payload to the receiving channel.
    Forward,
    /// Ignore the frame and read the next one.
    Skip,
}

/// Decide what the gateway does with a frame from a websocket client: a close frame
/// ends the connection, a binary frame is forwarded to the receiving channel, and
/// every other frame is skipped.
pub fn client_frame_action(frame: ClientFrame) -> (action: ClientAction)
    ensures
        action == match frame {
            ClientFrame::Close => ClientAction::Stop,
            ClientFrame::Binary => ClientAction::Forward,
            ClientFrame::Other => ClientAction::Skip,
        },
{
    match frame {
        ClientFrame::Close => ClientAction::Stop,
        ClientFrame::Binary => ClientAction::Forward,
        ClientFrame::Other => ClientAction::Skip,
    }
}

} // verus!
