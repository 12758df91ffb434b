//! The combined runtime: every backing that is built, behind one set of calls.
//!
//! This build carries the websocket gateway backing; the iceoryx2 backing keeps its
//! place among the backings (`Backing::Iox2`) but is not built, so it is never
//! queried. The state kept here is what the runtime decides with: which backing has
//! precedence for receiving, since when, and which backings are blocked in
//! `wait_stream`.
use vstd::prelude::*;
use crate::backing::common::TryRecvStreamResult;
use crate::backing::ws_gateway;
use crate::backing::wait_inbox::{WaitInbox, WaitPoll};

verus! {

/// How long, in microseconds, a backing keeps precedence for receiving.
pub const PRECEDENCE_WINDOW_US: u64 = 10_000;

/// The number of backings.
pub const BACKING_COUNT: usize = 2;

/// A backing that SkyCurrent can carry messages on.
#[derive(Clone, Copy, Debug, PartialEq, Eq, Structural)]
pub enum Backing {
    /// The iceoryx2 shared-memory backing.
    Iox2,
    /// The websocket gateway backing.
    WsGateway,
    /// Not a backing: the number of backings, and the mark of "no backing yet".
    _Count,
}

/// The number of a backing: 0 for iceoryx2, 1 for the websocket gateway, 2 for `_Count`.
pub open spec fn backing_index(b: Backing) -> nat {
    match b {
        Backing::Iox2 => 0,
        Backing::WsGateway => 1,
        Backing::_Count => 2,
    }
}

/// The backing that comes after `b` in turn.
pub open spec fn next_in_turn(b: Backing) -> Backing {
    match b {
        Backing::Iox2 => Backing::WsGateway,
        _ => Backing::Iox2,
    }
}

/// Whether this build carries the backing.
pub open spec fn is_built(b: Backing) -> bool {
    b == Backing::WsGateway
}

/// Whether the backing's own `wait_stream` blocks the thread that serves it, so that
/// the backing cannot answer receive calls until it returns. Only the iceoryx2
/// backing does; the websocket gateway never blocks.
pub open spec fn waits_in_own_thread(b: Backing) -> bool {
    b == Backing::Iox2
}

impl Backing {
    /// The backing with number `backing` (0 for iceoryx2, 1 for the websocket gateway).
    pub fn from(backing: u8) -> (b: Backing)
        requires
            backing < 2,
        ensures
            backing_index(b) == backing,
    {
        if backing == 0 {
            Backing::Iox2
        } else {
            Backing::WsGateway
        }
    }

    /// The number of the backing.
    pub fn index(&self) -> (i: usize)
        ensures
            i == backing_index(*self),
    {
        match self {
            Backing::Iox2 => 0,
            Backing::WsGateway => 1,
            Backing::_Count => 2,
        }
    }

    /// The backing that comes after this one in turn.
    pub fn next_in_turn(&self) -> (b: Backing)
        ensures
            b == next_in_turn(*self),
    {
        match self {
            Backing::Iox2 => Backing::WsGateway,
            _ => Backing::Iox2,
        }
    }

    /// Whether this build carries the backing.
    pub fn is_built(&self) -> (built: bool)
        ensures
            built == is_built(*self),
    {
        match self {
            Backing::WsGateway => true,
            _ => false,
        }
    }

    /// The name of the backing, as it is displayed.
    pub fn name(&self) -> (name: &'static str)
        ensures
            *self == Backing::Iox2 ==> name@ == "iox2"@,
            *self == Backing::WsGateway ==> name@ == "ws-gateway"@,
            *self == Backing::_Count ==> name@ == "<INVALID>"@,
    {
        match self {
            Backing::Iox2 => "iox2",
            Backing::WsGateway => "ws-gateway",
            Backing::_Count => "<INVALID>",
        }
    }
}

/// Possible errors during initialization.
#[derive(Debug)]
pub enum InitError {
    /// Some of the enabled backings require a global project directory to be set. Set
    /// one with [`set_global_project_dir`] first before calling `init`.
    MissingGlobalProjectDirectory(String),
    /// Encountered an initialization error in the common code.
    CommonInitError(crate::backing::common::InitError),
    /// Backing crashed during initialization routine.
    BackingCrashed(Backing),
    /// Failed to initialize the websocket gateway backing.
    WsGatewayInitError(ws_gateway::InitError),
}

/// Possible errors during normal operations.
#[derive(Debug, Clone)]
pub enum IpcError {
    /// IPC not initialized - call `init` first.
    NotInitialized,
    /// Some of the enabled backings require a global `should_collect` callback to be
    /// set. Set one with [`set_global_should_collect`] first.
    MissingGlobalShouldCollect(String),
    /// Backing crashed or is not started.
    BackingCrashedOrNotStarted(&'static str),
    /// IPC error encountered in the websocket gateway backing.
    WsGatewayIpcError(ws_gateway::IpcError),
}

/// Whether a common initialization error may go away on its own: only a failure
/// to bind the listener (the port may come free); a bad project directory will not.
pub open spec fn common_init_error_is_transient(e: crate::backing::common::InitError) -> bool {
    e is TcpListenerBindError
}

/// Whether an initialization error may go away on its own, so that `init` is worth
/// retrying after a pause: a backing that crashed, or a listener that could not bind.
pub open spec fn init_error_is_transient(e: InitError) -> bool {
    match e {
        InitError::MissingGlobalProjectDirectory(_) => false,
        InitError::CommonInitError(c) => common_init_error_is_transient(c),
        InitError::BackingCrashed(_) => true,
        InitError::WsGatewayInitError(ws_gateway::InitError::CommonInitError(c)) => common_init_error_is_transient(c),
    }
}

/// Whether an initialization error may go away on its own (see
/// [`init_error_is_transient`]); every other initialization error is fatal.
pub fn is_transient_init_error(e: &InitError) -> (transient: bool)
    ensures
        transient == init_error_is_transient(*e),
{
    match e {
        InitError::MissingGlobalProjectDirectory(_) => false,
        InitError::CommonInitError(c) => match c {
            crate::backing::common::InitError::TcpListenerBindError(_) => true,
            _ => false,
        },
        InitError::BackingCrashed(_) => true,
        InitError::WsGatewayInitError(ws_gateway::InitError::CommonInitError(c)) => match c {
            crate::backing::common::InitError::TcpListenerBindError(_) => true,
            _ => false,
        },
    }
}

// ---------------------------------------------------------------------------
// Global configuration
// ---------------------------------------------------------------------------

/// The settings that `init` and the receiving calls read: the project directory and
/// the `should_collect` callback.
pub struct GlobalConfig<C> {
    project_dir: Option<std::path::PathBuf>,
    should_collect: Option<C>,
}

impl<C> GlobalConfig<C> {
    /// Settings with neither a project directory nor a callback.
    pub fn new() -> (config: Self)
        ensures
            config.project_dir_spec() is None,
            config.should_collect_spec() is None,
    {
        GlobalConfig { project_dir: None, should_collect: None }
    }

    /// The project directory that is set, if any.
    pub closed spec fn project_dir_spec(&self) -> Option<std::path::PathBuf> {
        self.project_dir
    }

    /// The `should_collect` callback that is set, if any.
    pub closed spec fn should_collect_spec(&self) -> Option<C> {
        self.should_collect
    }

    /// The project directory that is set, if any.
    pub fn project_dir(&self) -> (dir: &Option<std::path::PathBuf>)
        ensures
            *dir == self.project_dir_spec(),
    {
        &self.project_dir
    }

    /// The `should_collect` callback that is set, if any.
    pub fn should_collect(&self) -> (callback: &Option<C>)
        ensures
            *callback == self.should_collect_spec(),
    {
        &self.should_collect
    }
}

/// Sets the global project directory, required for certain backings.
pub fn set_global_project_dir<C>(config: &mut GlobalConfig<C>, project_dir: std::path::PathBuf)
    ensures
        final(config).project_dir_spec() == Some(project_dir),
        final(config).should_collect_spec() == old(config).should_collect_spec(),
{
    config.project_dir = Some(project_dir);
}

/// Sets the global `should_collect` callback, required for certain backings.
pub fn set_global_should_collect<C>(config: &mut GlobalConfig<C>, should_collect: C)
    ensures
        final(config).should_collect_spec() == Some(should_collect),
        final(config).project_dir_spec() == old(config).project_dir_spec(),
{
    config.should_collect = Some(should_collect);
}

// ---------------------------------------------------------------------------
// The wait-stream flags
// ---------------------------------------------------------------------------

/// The wait-stream flags, one per backing, kept in a bitvec `BitVec`.
#[verifier::external_body]
pub struct WaitStreamLocks {
    bits: bitvec::vec::BitVec,
}

/// The bits that the `BitVec` of a `WaitStreamLocks` holds, in order.
pub uninterp spec fn bits_of(v: WaitStreamLocks) -> Seq<bool>;

/// Calls bitvec's `BitVec::repeat`: a vector of `len` bits, each equal to `bit`.
#[verifier::external_body]
fn bitvec_repeat(bit: bool, len: usize) -> (v: WaitStreamLocks)
    ensures
        bits_of(v) == Seq::new(len as nat, |i: int| bit),
{
    WaitStreamLocks { bits: bitvec::vec::BitVec::repeat(bit, len) }
}

/// Reads bit `index` of a `BitVec` through its `Index` impl, which panics out of range.
#[verifier::external_body]
fn bitvec_get(v: &WaitStreamLocks, index: usize) -> (bit: bool)
    requires
        index < bits_of(*v).len(),
    ensures
        bit == bits_of(*v)[index as int],
{
    v.bits[index]
}

/// Calls bitvec's `BitSlice::set`, which writes bit `index` and panics out of range.
#[verifier::external_body]
fn bitvec_set(v: &mut WaitStreamLocks, index: usize, value: bool)
    requires
        index < bits_of(*old(v)).len(),
    ensures
        bits_of(*final(v)) == bits_of(*old(v)).update(index as int, value),
{
    v.bits.set(index, value)
}

/// Calls bitvec's `BitSlice::fill`, which writes every bit.
#[verifier::external_body]
fn bitvec_fill(v: &mut WaitStreamLocks, value: bool)
    ensures
        bits_of(*final(v)) == Seq::new(bits_of(*old(v)).len(), |i: int| value),
{
    v.bits.fill(value)
}

// ---------------------------------------------------------------------------
// Receiving state
// ---------------------------------------------------------------------------

/// Which backing has precedence after a receive call starts at time `now_us`: the
/// first backing when none has had it yet, the next one in turn when the current one
/// has held it for longer than the window, and otherwise the current one; with the
/// time from which it holds it.
pub open spec fn precedence(current: Backing, entered_us: u64, now_us: u64) -> (Backing, u64) {
    if current == Backing::_Count {
        (Backing::Iox2, now_us)
    } else if now_us > entered_us && now_us - entered_us > PRECEDENCE_WINDOW_US {
        (next_in_turn(current), now_us)
    } else {
        (current, entered_us)
    }
}

/// The state the combined runtime receives with.
pub struct CombinedState {
    current: Backing,
    entered_us: u64,
    wait_stream_locks: WaitStreamLocks,
}

impl CombinedState {
    /// The state is well formed: it keeps one wait-stream flag per backing.
    pub closed spec fn wf(&self) -> bool {
        bits_of(self.wait_stream_locks).len() == BACKING_COUNT
    }

    /// The backing that has precedence for receiving (`_Count` when none has had it yet).
    pub closed spec fn current_spec(&self) -> Backing {
        self.current
    }

    /// Since when, in microseconds, the current backing has had precedence.
    pub closed spec fn entered_spec(&self) -> u64 {
        self.entered_us
    }

    /// Whether backing `b` is blocked in its own `wait_stream`.
    pub closed spec fn blocked(&self, b: Backing) -> bool {
        bits_of(self.wait_stream_locks)[backing_index(b) as int]
    }

    /// A state in which no backing has had precedence and none is blocked.
    pub fn new() -> (state: Self)
        ensures
            state.wf(),
            state.current_spec() == Backing::_Count,
            state.entered_spec() == 0,
            !state.blocked(Backing::Iox2),
            !state.blocked(Backing::WsGateway),
    {
        CombinedState {
            current: Backing::_Count,
            entered_us: 0,
            wait_stream_locks: bitvec_repeat(false, BACKING_COUNT),
        }
    }

    /// The backing that has precedence for receiving.
    pub fn current(&self) -> (b: Backing)
        ensures
            b == self.current_spec(),
    {
        self.current
    }

    /// Whether backing `b` is blocked in its own `wait_stream`.
    pub fn is_blocked(&self, b: Backing) -> (blocked: bool)
        requires
            self.wf(),
            b != Backing::_Count,
        ensures
            blocked == self.blocked(b),
    {
        bitvec_get(&self.wait_stream_locks, b.index())
    }

    /// Record that a backing's `wait_stream` has returned: it is no longer blocked.
    /// An error that a backing's `wait_stream` returned is handed on unchanged, and
    /// then nothing is recorded. (`_Count` names no backing; nothing is recorded for it.)
    pub fn handle_wait_stream_return(&mut self, backing: Result<Backing, IpcError>) -> (result: Result<(), IpcError>)
        requires
            old(self).wf(),
        ensures
            final(self).wf(),
            final(self).current_spec() == old(self).current_spec(),
            final(self).entered_spec() == old(self).entered_spec(),
            match backing {
                Ok(b) => {
                    &&& result is Ok
                    &&& forall|c: Backing| c != Backing::_Count ==> #[trigger] final(self).blocked(c) == if c == b {
                        false
                    } else {
                        old(self).blocked(c)
                    }
                },
                Err(e) => {
                    &&& result == Err::<(), IpcError>(e)
                    &&& forall|c: Backing| c != Backing::_Count ==> #[trigger] final(self).blocked(c) == old(self).blocked(c)
                },
            },
    {
        match backing {
            Ok(b) => {
                if b != Backing::_Count {
                    bitvec_set(&mut self.wait_stream_locks, b.index(), false);
                }
                Ok(())
            },
            Err(e) => Err(e),
        }
    }

    /// Mark the built backings whose `wait_stream` blocks their own thread, and that
    /// are not yet blocked, as blocked, and return them: these are the backings that
    /// must now be sent a `wait_stream` request.
    pub fn begin_wait_stream(&mut self) -> (to_wait: Vec<Backing>)
        requires
            old(self).wf(),
        ensures
            final(self).wf(),
            final(self).current_spec() == old(self).current_spec(),
            final(self).entered_spec() == old(self).entered_spec(),
            forall|c: Backing| c != Backing::_Count ==> #[trigger] final(self).blocked(c) == (old(self).blocked(c) || (
                is_built(c) && waits_in_own_thread(c))),
            forall|c: Backing| #[trigger] to_wait@.contains(c) <==> (c != Backing::_Count && is_built(c)
                && waits_in_own_thread(c) && !old(self).blocked(c)),
            to_wait@.no_duplicates(),
    {
        let mut to_wait: Vec<Backing> = Vec::new();
        if Backing::Iox2.is_built() && !bitvec_get(&self.wait_stream_locks, 0) {
            bitvec_set(&mut self.wait_stream_locks, 0, true);
            to_wait.push(Backing::Iox2);
        }
        proof {
            assert(to_wait@ =~= Seq::<Backing>::empty());
        }
        to_wait
    }

    /// Decide which backing has precedence as a receive call starts at `now_us`.
    pub fn begin_try_recv(&mut self, now_us: u64)
        requires
            old(self).wf(),
        ensures
            final(self).wf(),
            (final(self).current_spec(), final(self).entered_spec()) == precedence(
                old(self).current_spec(),
                old(self).entered_spec(),
                now_us,
            ),
            forall|c: Backing| #[trigger] final(self).blocked(c) == old(self).blocked(c),
    {
        if self.current == Backing::_Count {
            self.current = Backing::Iox2;
            self.entered_us = now_us;
        } else if now_us > self.entered_us && now_us - self.entered_us > PRECEDENCE_WINDOW_US {
            self.current = self.current.next_in_turn();
            self.entered_us = now_us;
        }
    }

    /// Record that backing `b` was found out of accessible messages at `now_us`:
    /// precedence passes to the backing after it.
    pub fn pass_precedence(&mut self, b: Backing, now_us: u64)
        requires
            old(self).wf(),
        ensures
            final(self).wf(),
            final(self).current_spec() == next_in_turn(b),
            final(self).entered_spec() == now_us,
            forall|c: Backing| #[trigger] final(self).blocked(c) == old(self).blocked(c),
    {
        self.current = b.next_in_turn();
        self.entered_us = now_us;
    }

    /// Forget every receiving decision: no backing has precedence and none is blocked.
    pub fn reset(&mut self, now_us: u64)
        requires
            old(self).wf(),
        ensures
            final(self).wf(),
            final(self).current_spec() == Backing::_Count,
            final(self).entered_spec() == now_us,
            forall|c: Backing| c != Backing::_Count ==> !#[trigger] final(self).blocked(c),
    {
        bitvec_fill(&mut self.wait_stream_locks, false);
        self.current = Backing::_Count;
        self.entered_us = now_us;
    }


    /// Take in one look into the wait-stream channel: a backing whose `wait_stream`
    /// returned is no longer blocked, and the drain goes on (`None`); a `wait_stream`
    /// that failed ends the drain with its error; an empty channel ends it with success.
    pub fn drain_step(&mut self, found: WaitPoll) -> (step: Option<Result<(), IpcError>>)
        requires
            old(self).wf(),
        ensures
            final(self).wf(),
            final(self).current_spec() == old(self).current_spec(),
            final(self).entered_spec() == old(self).entered_spec(),
            step == drain_step_result(found),
            forall|c: Backing| c != Backing::_Count ==> #[trigger] final(self).blocked(c) == (old(self).blocked(c)
                && found != WaitPoll::Returned(Ok::<Backing, IpcError>(c))),
    {
        match found {
            WaitPoll::Returned(returned) => match self.handle_wait_stream_return(returned) {
                Ok(()) => None,
                Err(e) => Some(Err(e)),
            },
            WaitPoll::Nothing => Some(Ok(())),
        }
    }

    /// Take in the `wait_stream` returns that are waiting in the channel when the call
    /// starts, one look at a time (see [`CombinedState::drain_step`]), so that the
    /// backings that have returned count as no longer blocked. Fails with
    /// `NotInitialized`, touching nothing, when there is no channel, that is, before
    /// `init` or after `close`, and hands on the first error that a backing's
    /// `wait_stream` returned.
    pub fn wait_stream_drain(&mut self, inbox: &mut WaitInbox) -> (result: Result<(), IpcError>)
        requires
            old(self).wf(),
        ensures
            final(self).wf(),
            final(self).current_spec() == old(self).current_spec(),
            final(self).entered_spec() == old(self).entered_spec(),
            !old(inbox).has_receiver() ==> {
                &&& result == Err::<(), IpcError>(IpcError::NotInitialized)
                &&& *final(inbox) == *old(inbox)
                &&& forall|c: Backing| #[trigger] final(self).blocked(c) == old(self).blocked(c)
            },
            old(inbox).has_receiver() ==> drained(
                *old(self),
                *final(self),
                old(inbox).polls(),
                *final(inbox),
                result,
            ),
    {
        if !inbox.is_open() {
            return Err(IpcError::NotInitialized);
        }
        let n = inbox.pending();
        let ghost start = old(inbox).polls().len();
        let ghost before = *old(self);
        let mut i: usize = 0;
        proof {
            assert(old(inbox).polls().take(start as int) =~= old(inbox).polls());
            assert(old(inbox).polls().skip(start as int) =~= Seq::<WaitPoll>::empty());
        }
        while i < n
            invariant
                self.wf(),
                before == *old(self),
                old(inbox).has_receiver(),
                start == old(inbox).polls().len(),
                inbox.has_receiver(),
                i <= n,
                self.current_spec() == before.current_spec(),
                self.entered_spec() == before.entered_spec(),
                drained_so_far(before, *self, old(inbox).polls(), inbox.polls()),
                inbox.polls().len() == start + i,
            decreases n - i,
        {
            let ghost seen = inbox.polls();
            let found = inbox.poll();
            let ghost prev = *self;
            let step = self.drain_step(found);
            proof {
                let was = seen.skip(start as int);
                let now = inbox.polls().skip(start as int);
                assert(now =~= was.push(found));
                assert(inbox.polls().take(start as int) =~= seen.take(start as int));
                assert forall|c: Backing| c != Backing::_Count implies #[trigger] self.blocked(c) == (before.blocked(c)
                    && !returned_in(now, c)) by {
                    lemma_returned_in_push(was, found, c);
                }
                assert forall|j: int| 0 <= j < now.len() - 1 implies (#[trigger] now[j] matches WaitPoll::Returned(Ok(_))) by {
                    assert(now[j] == was[j]);
                }
            }
            match step {
                Some(r) => {
                    return r;
                },
                None => {},
            }
            i = i + 1;
        }
        Ok(())
    }
}

/// What one look into the wait-stream channel does to a drain: `None` goes on, and
/// otherwise the drain ends with the result given.
pub open spec fn drain_step_result(found: WaitPoll) -> Option<Result<(), IpcError>> {
    match found {
        WaitPoll::Returned(Ok(_)) => None,
        WaitPoll::Returned(Err(e)) => Some(Err(e)),
        WaitPoll::Nothing => Some(Ok(())),
    }
}

/// Whether one of the looks `found` saw backing `c`'s `wait_stream` return.
pub open spec fn returned_in(found: Seq<WaitPoll>, c: Backing) -> bool {
    exists|i: int| 0 <= i < found.len() && #[trigger] found[i] == WaitPoll::Returned(Ok::<Backing, IpcError>(c))
}

/// A drain that started from state `before` and the record `polls_before`, and is now
/// at state `after` and record `polls_after`, has so far taken the looks after
/// `polls_before`, each of which found a returned `wait_stream`, and cleared the
/// blocked flag of each backing that returned.
pub open spec fn drained_so_far(
    before: CombinedState,
    after: CombinedState,
    polls_before: Seq<WaitPoll>,
    polls_after: Seq<WaitPoll>,
) -> bool {
    let found = polls_after.skip(polls_before.len() as int);
    &&& polls_after.len() >= polls_before.len()
    &&& polls_after.take(polls_before.len() as int) == polls_before
    &&& forall|j: int| 0 <= j < found.len() ==> (#[trigger] found[j] matches WaitPoll::Returned(Ok(_)))
    &&& forall|c: Backing| c != Backing::_Count ==> #[trigger] after.blocked(c) == (before.blocked(c) && !returned_in(
        found,
        c,
    ))
}

/// The result of a drain that took the looks `found`: the error of a failed
/// `wait_stream` when the last look found one, and otherwise success.
pub open spec fn drain_result(found: Seq<WaitPoll>) -> Result<(), IpcError> {
    if found.len() == 0 {
        Ok(())
    } else {
        match found.last() {
            WaitPoll::Returned(Err(e)) => Err(e),
            _ => Ok(()),
        }
    }
}

/// A drain from state `before` and the record `polls_before` that ended at state
/// `after`, inbox `inbox_after`, with `result`: the inbox still has its channel; the
/// looks taken, `found`, come after `polls_before` and all but the last found a
/// returned `wait_stream`; each backing that returned is no longer blocked; and the
/// result is [`drain_result`] of `found`.
pub open spec fn drained(
    before: CombinedState,
    after: CombinedState,
    polls_before: Seq<WaitPoll>,
    inbox_after: WaitInbox,
    result: Result<(), IpcError>,
) -> bool {
    let found = inbox_after.polls().skip(polls_before.len() as int);
    &&& inbox_after.has_receiver()
    &&& inbox_after.polls().len() >= polls_before.len()
    &&& inbox_after.polls().take(polls_before.len() as int) == polls_before
    &&& forall|j: int| 0 <= j < found.len() - 1 ==> (#[trigger] found[j] matches WaitPoll::Returned(Ok(_)))
    &&& forall|c: Backing| c != Backing::_Count ==> #[trigger] after.blocked(c) == (before.blocked(c) && !returned_in(
        found,
        c,
    ))
    &&& result == drain_result(found)
}

proof fn lemma_returned_in_push(found: Seq<WaitPoll>, p: WaitPoll, c: Backing)
    ensures
        returned_in(found.push(p), c) == (returned_in(found, c) || p == WaitPoll::Returned(Ok::<Backing, IpcError>(c))),
{
    let s = found.push(p);
    if returned_in(found, c) {
        let i = choose|i: int| 0 <= i < found.len() && #[trigger] found[i] == WaitPoll::Returned(Ok::<Backing, IpcError>(c));
        assert(s[i] == found[i]);
    }
    if p == WaitPoll::Returned(Ok::<Backing, IpcError>(c)) {
        assert(s[found.len() as int] == p);
    }
    if returned_in(s, c) {
        let i = choose|i: int| 0 <= i < s.len() && #[trigger] s[i] == WaitPoll::Returned(Ok::<Backing, IpcError>(c));
        if i < found.len() {
            assert(found[i] == s[i]);
        }
    }
}

// ---------------------------------------------------------------------------
// Receiving and sending
// ---------------------------------------------------------------------------

/// What becomes of a message that arrived through the websocket gateway: when it is
/// well framed, its payload (all but the last eight bytes, which carry the header
/// size) is a new completed message and the whole frame is echoed to every websocket
/// client; a frame too short to carry a header size is dropped,
/// and the caller only learns that a page was obtained.
pub open spec fn gateway_message_outcome(frame: Seq<u8>, echo: Option<Seq<u8>>, result: TryRecvStreamResult) -> bool {
    if frame.len() >= 8 {
        &&& echo == Some(frame)
        &&& match result {
            TryRecvStreamResult::NewCompleted(payload) => payload@ == frame.subrange(0, frame.len() - 8),
            _ => false,
        }
    } else {
        &&& echo is None
        &&& result is PotentiallyAvailable
    }
}

/// Decide what becomes of a message that arrived through the websocket gateway
/// (see [`gateway_message_outcome`]): returns the frame to echo to every websocket
/// client, if any, and the result of the receive call.
pub fn handle_gateway_message(frame: Vec<u8>) -> (outcome: (Option<Vec<u8>>, TryRecvStreamResult))
    ensures
        gateway_message_outcome(
            frame@,
            match outcome.0 {
                Some(e) => Some(e@),
                None => None,
            },
            outcome.1,
        ),
{
    match ws_gateway::parse_frame(frame.as_slice()) {
        Some((payload, header_size)) => {
            proof {
                ws_gateway::lemma_framed_len(payload@, header_size);
                assert(ws_gateway::framed(payload@, header_size) == frame@);
                assert(payload@ =~= frame@.subrange(0, frame@.len() - 8));
            }
            (Some(frame), TryRecvStreamResult::NewCompleted(payload))
        },
        None => (None, TryRecvStreamResult::PotentiallyAvailable),
    }
}

/// What a receive call does with the websocket gateway's answer `answer`: `r` is
/// `None` when the gateway is out of accessible messages, so that the call moves on,
/// and otherwise the call's result. A message is unframed (see
/// [`gateway_message_outcome`]); "potentially available" is handed on; an error of
/// the gateway becomes a gateway error.
pub open spec fn gateway_answer_gives(
    answer: Result<TryRecvStreamResult, ws_gateway::IpcError>,
    r: Option<Result<TryRecvStreamResult, IpcError>>,
) -> bool {
    match answer {
        Err(e) => r == Some(Err::<TryRecvStreamResult, IpcError>(IpcError::WsGatewayIpcError(e))),
        Ok(TryRecvStreamResult::NewCompleted(frame)) => if frame@.len() >= 8 {
            &&& r matches Some(Ok(TryRecvStreamResult::NewCompleted(payload)))
            &&& payload@ == frame@.subrange(0, frame@.len() - 8)
        } else {
            r == Some(Ok::<TryRecvStreamResult, IpcError>(TryRecvStreamResult::PotentiallyAvailable))
        },
        Ok(TryRecvStreamResult::PotentiallyAvailable) => r == Some(
            Ok::<TryRecvStreamResult, IpcError>(TryRecvStreamResult::PotentiallyAvailable),
        ),
        Ok(TryRecvStreamResult::OutOfAccessible) => r is None,
    }
}

/// The frames a receive call echoes to every websocket client on the gateway's
/// answer `answer`: a well-framed message as it arrived, and nothing otherwise.
pub open spec fn gateway_echo(answer: Result<TryRecvStreamResult, ws_gateway::IpcError>) -> Seq<Seq<u8>> {
    match answer {
        Ok(TryRecvStreamResult::NewCompleted(frame)) => if frame@.len() >= 8 {
            seq![frame@]
        } else {
            Seq::empty()
        },
        _ => Seq::empty(),
    }
}

/// Act on the websocket gateway's answer in a receive call (see
/// [`gateway_answer_gives`] and [`gateway_echo`]): a well-framed message is echoed
/// to every websocket client and its payload returned; when the gateway is out of
/// accessible messages, precedence passes to the backing after it at `now_us`.
pub fn gateway_step(
    state: &mut CombinedState,
    answer: Result<TryRecvStreamResult, ws_gateway::IpcError>,
    broadcast: &mut ws_gateway::GatewayBroadcast,
    now_us: u64,
) -> (r: Option<Result<TryRecvStreamResult, IpcError>>)
    requires
        old(state).wf(),
    ensures
        final(state).wf(),
        gateway_answer_gives(answer, r),
        final(broadcast).sent() == old(broadcast).sent() + gateway_echo(answer),
        forall|c: Backing| #[trigger] final(state).blocked(c) == old(state).blocked(c),
        r is None ==> final(state).current_spec() == next_in_turn(Backing::WsGateway)
            && final(state).entered_spec() == now_us,
        r is Some ==> final(state).current_spec() == old(state).current_spec()
            && final(state).entered_spec() == old(state).entered_spec(),
{
    match answer {
        Err(e) => {
            proof {
                assert(old(broadcast).sent() + gateway_echo(answer) =~= old(broadcast).sent());
            }
            Some(Err(IpcError::WsGatewayIpcError(e)))
        },
        Ok(TryRecvStreamResult::NewCompleted(frame)) => {
            let ghost f = frame@;
            let (echo, result) = handle_gateway_message(frame);
            match echo {
                Some(e) => {
                    ws_gateway::send_copy(broadcast, e);
                },
                None => {},
            }
            proof {
                if f.len() >= 8 {
                    assert(old(broadcast).sent() + gateway_echo(answer) =~= old(broadcast).sent().push(f));
                } else {
                    assert(old(broadcast).sent() + gateway_echo(answer) =~= old(broadcast).sent());
                }
            }
            Some(Ok(result))
        },
        Ok(TryRecvStreamResult::PotentiallyAvailable) => {
            proof {
                assert(old(broadcast).sent() + gateway_echo(answer) =~= old(broadcast).sent());
            }
            Some(Ok(TryRecvStreamResult::PotentiallyAvailable))
        },
        Ok(TryRecvStreamResult::OutOfAccessible) => {
            proof {
                assert(old(broadcast).sent() + gateway_echo(answer) =~= old(broadcast).sent());
            }
            state.pass_precedence(Backing::WsGateway, now_us);
            None
        },
    }
}

/// A payload sent with [`send_stream`] comes out of the gateway as itself: when its
/// frame arrives, the receive call gives back exactly the payload that was sent, and
/// the frame is echoed to the websocket clients unchanged.
pub proof fn lemma_sent_payload_is_received(
    payload: Seq<u8>,
    header_size: u64,
    frame: Vec<u8>,
    r: Option<Result<TryRecvStreamResult, IpcError>>,
)
    requires
        frame@ == ws_gateway::framed(payload, header_size),
        gateway_answer_gives(Ok(TryRecvStreamResult::NewCompleted(frame)), r),
    ensures
        r matches Some(Ok(TryRecvStreamResult::NewCompleted(received))) && received@ == payload,
        gateway_echo(Ok(TryRecvStreamResult::NewCompleted(frame))) == seq![ws_gateway::framed(payload, header_size)],
{
    ws_gateway::lemma_frame_payload_recovered(payload, header_size);
}

/// What a receive call did once it came to ask the backings in turn, starting from
/// `start` (which has had precedence since `since`): the websocket gateway, the only
/// backing built, is asked once unless it is blocked in `wait_stream` (in `after`).
/// Unasked, nothing is touched and the call is out of accessible messages. Asked, the
/// answer `a` is the last in the inbox's record, its echo goes to the websocket
/// clients, and the call returns what [`gateway_answer_gives`] says; when `a` is "out
/// of accessible", so is the call, and precedence has passed to the backing after the
/// gateway at `now_us`. In every other case precedence stays with `start`.
pub open spec fn received_in_turn(
    start: Backing,
    since: u64,
    after: CombinedState,
    inbox_before: ws_gateway::GatewayInbox,
    inbox_after: ws_gateway::GatewayInbox,
    broadcast_before: ws_gateway::GatewayBroadcast,
    broadcast_after: ws_gateway::GatewayBroadcast,
    result: Result<TryRecvStreamResult, IpcError>,
    now_us: u64,
) -> bool {
    if after.blocked(Backing::WsGateway) {
        &&& inbox_after == inbox_before
        &&& broadcast_after == broadcast_before
        &&& result == Ok::<TryRecvStreamResult, IpcError>(TryRecvStreamResult::OutOfAccessible)
        &&& after.current_spec() == start
        &&& after.entered_spec() == since
    } else {
        let a = inbox_after.answers().last();
        &&& inbox_after.answers().len() == inbox_before.answers().len() + 1
        &&& inbox_after.answers() == inbox_before.answers().push(a)
        &&& inbox_after.is_open() == inbox_before.is_open()
        &&& !inbox_before.is_open() ==> a == Err::<TryRecvStreamResult, ws_gateway::IpcError>(
            ws_gateway::IpcError::NotInitialized,
        )
        &&& !inbox_before.is_open() ==> inbox_after.polls() == inbox_before.polls()
        &&& inbox_before.is_open() ==> {
            &&& inbox_after.polls() == inbox_before.polls().push(inbox_after.polls().last())
            &&& a == ws_gateway::try_recv_copy_result(inbox_after.polls().last())
        }
        &&& broadcast_after.sent() == broadcast_before.sent() + gateway_echo(a)
        &&& if a == Ok::<TryRecvStreamResult, ws_gateway::IpcError>(TryRecvStreamResult::OutOfAccessible) {
            &&& result == Ok::<TryRecvStreamResult, IpcError>(TryRecvStreamResult::OutOfAccessible)
            &&& after.current_spec() == next_in_turn(Backing::WsGateway)
            &&& after.entered_spec() == now_us
        } else {
            &&& gateway_answer_gives(a, Some(result))
            &&& after.current_spec() == start
            &&& after.entered_spec() == since
        }
    }
}

/// Ask backing `b` for a message, if it is built and not blocked in `wait_stream`,
/// and act on its answer; `None` when it was not asked or is out of accessible
/// messages.
fn ask_backing(
    state: &mut CombinedState,
    b: Backing,
    inbox: &mut ws_gateway::GatewayInbox,
    broadcast: &mut ws_gateway::GatewayBroadcast,
    now_us: u64,
) -> (r: Option<Result<TryRecvStreamResult, IpcError>>)
    requires
        old(state).wf(),
        b != Backing::_Count,
    ensures
        final(state).wf(),
        forall|c: Backing| #[trigger] final(state).blocked(c) == old(state).blocked(c),
        if b == Backing::WsGateway && !old(state).blocked(Backing::WsGateway) {
            let a = final(inbox).answers().last();
            &&& final(inbox).answers().len() == old(inbox).answers().len() + 1
            &&& final(inbox).answers() == old(inbox).answers().push(a)
            &&& final(inbox).is_open() == old(inbox).is_open()
            &&& !old(inbox).is_open() ==> a == Err::<TryRecvStreamResult, ws_gateway::IpcError>(
                ws_gateway::IpcError::NotInitialized,
            )
            &&& !old(inbox).is_open() ==> final(inbox).polls() == old(inbox).polls()
            &&& old(inbox).is_open() ==> {
                &&& final(inbox).polls() == old(inbox).polls().push(final(inbox).polls().last())
                &&& a == ws_gateway::try_recv_copy_result(final(inbox).polls().last())
            }
            &&& !(a matches Ok(TryRecvStreamResult::PotentiallyAvailable))
            &&& gateway_answer_gives(a, r)
            &&& final(broadcast).sent() == old(broadcast).sent() + gateway_echo(a)
            &&& r is None ==> final(state).current_spec() == next_in_turn(Backing::WsGateway)
                && final(state).entered_spec() == now_us
            &&& r is Some ==> final(state).current_spec() == old(state).current_spec()
                && final(state).entered_spec() == old(state).entered_spec()
        } else {
            &&& r is None
            &&& *final(inbox) == *old(inbox)
            &&& *final(broadcast) == *old(broadcast)
            &&& final(state).current_spec() == old(state).current_spec()
            &&& final(state).entered_spec() == old(state).entered_spec()
        },
{
    if !b.is_built() || state.is_blocked(b) {
        return None;
    }
    let answer = ws_gateway::try_recv_copy(inbox);
    gateway_step(state, answer, broadcast, now_us)
}

/// Ask the backings in turn, from the one with precedence, each at most once, until
/// one answers other than "out of accessible" (see [`received_in_turn`]).
fn receive_in_turn(
    state: &mut CombinedState,
    inbox: &mut ws_gateway::GatewayInbox,
    broadcast: &mut ws_gateway::GatewayBroadcast,
    now_us: u64,
) -> (result: Result<TryRecvStreamResult, IpcError>)
    requires
        old(state).wf(),
        old(state).current_spec() != Backing::_Count,
    ensures
        final(state).wf(),
        forall|c: Backing| #[trigger] final(state).blocked(c) == old(state).blocked(c),
        received_in_turn(
            old(state).current_spec(),
            old(state).entered_spec(),
            *final(state),
            *old(inbox),
            *final(inbox),
            *old(broadcast),
            *final(broadcast),
            result,
            now_us,
        ),
{
    let first = state.current();
    let second = first.next_in_turn();
    let ghost inbox0 = *inbox;
    let ghost broadcast0 = *broadcast;
    match ask_backing(state, first, inbox, broadcast, now_us) {
        Some(r) => {
            return r;
        },
        None => {},
    }
    let ghost inbox1 = *inbox;
    let ghost broadcast1 = *broadcast;
    match ask_backing(state, second, inbox, broadcast, now_us) {
        Some(r) => {
            return r;
        },
        None => {},
    }
    proof {
        if first == Backing::WsGateway && !old(state).blocked(Backing::WsGateway) {
            assert(inbox1.answers().last() == inbox.answers().last());
            assert(broadcast.sent() == broadcast1.sent());
        }
    }
    Ok(TryRecvStreamResult::OutOfAccessible)
}

/// Try to receive a message on any built backing that is not blocked in its own
/// `wait_stream`, starting with the backing that has precedence.
///
/// This never blocks. Precedence is settled first (see [`precedence`]); then the
/// `wait_stream` returns waiting in `wait` are taken in (see
/// [`CombinedState::wait_stream_drain`]), where `wait` is `None` when another thread
/// holds that channel in `wait_stream`; a failed drain is the call's answer. Then the
/// backings are asked in turn, each at most once, and the first answer other than
/// "out of accessible" is returned; when every backing asked is out of accessible
/// messages, so is the call (see [`received_in_turn`]). This build carries only the
/// websocket gateway: `inbox` is its receiving channel and `broadcast` its sender to
/// the websocket clients.
pub fn try_recv_stream(
    state: &mut CombinedState,
    wait: Option<&mut WaitInbox>,
    inbox: &mut ws_gateway::GatewayInbox,
    broadcast: &mut ws_gateway::GatewayBroadcast,
    now_us: u64,
) -> (result: Result<TryRecvStreamResult, IpcError>)
    requires
        old(state).wf(),
    ensures
        final(state).wf(),
        ({
            let (start, since) = precedence(old(state).current_spec(), old(state).entered_spec(), now_us);
            match wait {
                None => {
                    &&& forall|c: Backing| #[trigger] final(state).blocked(c) == old(state).blocked(c)
                    &&& received_in_turn(
                        start,
                        since,
                        *final(state),
                        *old(inbox),
                        *final(inbox),
                        *old(broadcast),
                        *final(broadcast),
                        result,
                        now_us,
                    )
                },
                Some(w) => if !w.has_receiver() {
                    &&& result == Err::<TryRecvStreamResult, IpcError>(IpcError::NotInitialized)
                    &&& *final(w) == *w
                    &&& *final(inbox) == *old(inbox)
                    &&& *final(broadcast) == *old(broadcast)
                    &&& forall|c: Backing| #[trigger] final(state).blocked(c) == old(state).blocked(c)
                    &&& final(state).current_spec() == start
                    &&& final(state).entered_spec() == since
                } else {
                    let found = final(w).polls().skip(w.polls().len() as int);
                    &&& drained(*old(state), *final(state), w.polls(), *final(w), drain_result(found))
                    &&& match drain_result(found) {
                        Err(e) => {
                            &&& result == Err::<TryRecvStreamResult, IpcError>(e)
                            &&& *final(inbox) == *old(inbox)
                            &&& *final(broadcast) == *old(broadcast)
                            &&& final(state).current_spec() == start
                            &&& final(state).entered_spec() == since
                        },
                        Ok(()) => received_in_turn(
                            start,
                            since,
                            *final(state),
                            *old(inbox),
                            *final(inbox),
                            *old(broadcast),
                            *final(broadcast),
                            result,
                            now_us,
                        ),
                    }
                },
            }
        }),
{
    state.begin_try_recv(now_us);
    match wait {
        Some(w) => {
            match state.wait_stream_drain(w) {
                Ok(()) => {},
                Err(e) => {
                    return Err(e);
                },
            }
        },
        None => {},
    }
    receive_in_turn(state, inbox, broadcast, now_us)
}

/// Send an arbitrarily-sized payload.
///
/// All payloads should have a small header section so that receivers can decide if
/// they want to reconstruct the message or pass on it; `header_size` says how many
/// bytes from the head of the payload are the header. With the websocket gateway as
/// the only backing, the framed payload goes to this process's own receiving channel
/// (`outbox`), from where it is delivered here and echoed to every websocket client.
pub fn send_stream(outbox: &mut ws_gateway::GatewayOutbox, payload: &[u8], header_size: usize) -> (result: Result<(), IpcError>)
    ensures
        old(outbox).is_open() ==> final(outbox).sent() == old(outbox).sent().push(
            ws_gateway::framed(payload@, header_size as u64),
        ),
        !old(outbox).is_open() ==> final(outbox).sent() == old(outbox).sent(),
        final(outbox).is_open() == old(outbox).is_open(),
        !old(outbox).is_open() ==> result == Err::<(), IpcError>(
            IpcError::WsGatewayIpcError(ws_gateway::IpcError::NotInitialized),
        ),
        result is Ok || result == Err::<(), IpcError>(IpcError::WsGatewayIpcError(ws_gateway::IpcError::NotInitialized)),
{
    let frame = ws_gateway::frame_payload(payload, header_size);
    match ws_gateway::send_copy_to_self(outbox, frame) {
        Ok(()) => Ok(()),
        Err(e) => Err(IpcError::WsGatewayIpcError(e)),
    }
}

/// What `recv_stream` does after one receive call.
#[derive(Debug)]
pub enum RecvStep {
    /// A message was completed: return it.
    Deliver(Vec<u8>),
    /// Pages may still be waiting: yield to the scheduler and ask again.
    Yield,
    /// Nothing is accessible: wait in `wait_stream`, then ask again.
    Wait,
}

/// The step `recv_stream` takes on the answer of a receive call.
pub open spec fn recv_step_for(answer: TryRecvStreamResult) -> RecvStep {
    match answer {
        TryRecvStreamResult::NewCompleted(payload) => RecvStep::Deliver(payload),
        TryRecvStreamResult::PotentiallyAvailable => RecvStep::Yield,
        TryRecvStreamResult::OutOfAccessible => RecvStep::Wait,
    }
}

/// Decide what `recv_stream` does with the answer of a receive call: a completed
/// message is returned, "potentially available" asks again after a yield, and "out
/// of accessible" waits for a backing before asking again.
pub fn recv_stream_step(answer: TryRecvStreamResult) -> (step: RecvStep)
    ensures
        step == recv_step_for(answer),
{
    match answer {
        TryRecvStreamResult::NewCompleted(payload) => RecvStep::Deliver(payload),
        TryRecvStreamResult::PotentiallyAvailable => RecvStep::Yield,
        TryRecvStreamResult::OutOfAccessible => RecvStep::Wait,
    }
}

/// Every completed message reaches the caller of `recv_stream` unchanged, whatever
/// its length; only "potentially available" asks again at once, and only "out of
/// accessible" waits.
pub proof fn lemma_completed_message_delivered(payload: Vec<u8>)
    ensures
        recv_step_for(TryRecvStreamResult::NewCompleted(payload)) matches RecvStep::Deliver(q) && q@ == payload@,
        recv_step_for(TryRecvStreamResult::PotentiallyAvailable) is Yield,
        recv_step_for(TryRecvStreamResult::OutOfAccessible) is Wait,
{
}

/// A payload sent with [`send_stream`] is received as itself: when a receive call
/// asks the gateway and the look into its channel takes off the frame `send_stream`
/// made of payload `p` and header size `h`, the call returns exactly `p`, byte for
/// byte, and echoes that whole frame to the websocket clients. `after`, the inboxes,
/// the broadcasts and `result` are what [`try_recv_stream`] states of such a call.
pub proof fn lemma_receive_returns_sent_payload(
    start: Backing,
    since: u64,
    after: CombinedState,
    inbox_before: ws_gateway::GatewayInbox,
    inbox_after: ws_gateway::GatewayInbox,
    broadcast_before: ws_gateway::GatewayBroadcast,
    broadcast_after: ws_gateway::GatewayBroadcast,
    result: Result<TryRecvStreamResult, IpcError>,
    now_us: u64,
    p: Seq<u8>,
    h: u64,
)
    requires
        received_in_turn(
            start,
            since,
            after,
            inbox_before,
            inbox_after,
            broadcast_before,
            broadcast_after,
            result,
            now_us,
        ),
        inbox_before.is_open(),
        !after.blocked(Backing::WsGateway),
        inbox_after.polls().last() matches ws_gateway::ChannelPoll::Message(frame) && frame@ == ws_gateway::framed(p, h),
    ensures
        result matches Ok(TryRecvStreamResult::NewCompleted(q)) && q@ == p,
        broadcast_after.sent() == broadcast_before.sent().push(ws_gateway::framed(p, h)),
{
    ws_gateway::lemma_frame_payload_recovered(p, h);
    ws_gateway::lemma_framed_len(p, h);
    let frame = ws_gateway::framed(p, h);
    assert(broadcast_before.sent() + seq![frame] =~= broadcast_before.sent().push(frame));
}

} // verus!
