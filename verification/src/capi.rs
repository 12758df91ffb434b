//! The types and the bookkeeping behind the C interface of the message queue.
//!
//! The C side registers message handlers that run as tasks; each handler gets a
//! callback id, unique among the registered handlers and never 0, through which it
//! is resumed and deregistered.
#![allow(non_camel_case_types)]
use vstd::prelude::*;
use std::collections::HashMap;

verus! {

broadcast use vstd::std_specs::hash::group_hash_axioms;

/// A claimed payload handed to C.
pub struct lmq_vec_t(pub Vec<u8>);

impl From<Vec<u8>> for lmq_vec_t {
    fn from(value: Vec<u8>) -> (v: Self) {
        lmq_vec_t(value)
    }
}

impl vstd::std_specs::convert::FromSpecImpl<Vec<u8>> for lmq_vec_t {
    open spec fn obeys_from_spec() -> bool {
        true
    }

    open spec fn from_spec(v: Vec<u8>) -> Self {
        lmq_vec_t(v)
    }
}

/// What a message handler asks for after it has been handed a message.
#[derive(Clone, Copy, Debug, PartialEq, Eq, Structural)]
pub enum lmq_action_t {
    /// Go on: hand the handler the next message.
    LMQ_ACTION_CONTINUE,
    /// Wait for the handler to be resumed.
    LMQ_ACTION_PAUSE,
    /// Deregister the handler.
    LMQ_ACTION_DEREGISTER,
}

/// The C value of an action.
pub open spec fn action_code(a: lmq_action_t) -> int {
    match a {
        lmq_action_t::LMQ_ACTION_CONTINUE => 0,
        lmq_action_t::LMQ_ACTION_PAUSE => 1,
        lmq_action_t::LMQ_ACTION_DEREGISTER => -1,
    }
}

impl lmq_action_t {
    /// The C value of the action: 0 to continue, 1 to pause, -1 to deregister.
    pub fn to_c_int(&self) -> (code: i32)
        ensures
            code == action_code(*self),
    {
        match self {
            lmq_action_t::LMQ_ACTION_CONTINUE => 0,
            lmq_action_t::LMQ_ACTION_PAUSE => 1,
            lmq_action_t::LMQ_ACTION_DEREGISTER => -1,
        }
    }

    /// The action with C value `code`, if any.
    pub fn from_c_int(code: i32) -> (action: Option<lmq_action_t>)
        ensures
            match action {
                Some(a) => action_code(a) == code,
                None => code != 0 && code != 1 && code != -1,
            },
    {
        if code == 0 {
            Some(lmq_action_t::LMQ_ACTION_CONTINUE)
        } else if code == 1 {
            Some(lmq_action_t::LMQ_ACTION_PAUSE)
        } else if code == -1 {
            Some(lmq_action_t::LMQ_ACTION_DEREGISTER)
        } else {
            None
        }
    }
}

/// How a resumed handler fetches its next message.
#[derive(Clone, Copy, Debug, PartialEq, Eq, Structural)]
pub enum lmq_resume_mode_t {
    /// Wait until a message arrives.
    LMQ_RESUME_WAIT,
    /// Try once without waiting; the handler is handed no message when none is there.
    LMQ_RESUME_TRY,
}

impl lmq_resume_mode_t {
    /// The resume mode with C value `value`: 0 waits, 1 tries.
    pub fn from(value: i32) -> (mode: lmq_resume_mode_t)
        requires
            0 <= value <= 1,
        ensures
            value == 0 ==> mode == lmq_resume_mode_t::LMQ_RESUME_WAIT,
            value == 1 ==> mode == lmq_resume_mode_t::LMQ_RESUME_TRY,
    {
        if value == 0 {
            lmq_resume_mode_t::LMQ_RESUME_WAIT
        } else {
            lmq_resume_mode_t::LMQ_RESUME_TRY
        }
    }
}

/// Where a registered message handler stands.
#[derive(Clone, Copy, Debug, PartialEq, Eq, Structural)]
pub enum HandlerPhase {
    /// Waiting for a resume signal (or for being deregistered).
    Paused,
    /// Fetching the next message in the given mode, then calling back.
    Fetching(lmq_resume_mode_t),
    /// The handler task has ended.
    Finished,
}

/// Where a handler starts: paused when asked to, else fetching by waiting.
pub fn handler_start(start_paused: bool) -> (phase: HandlerPhase)
    ensures
        phase == if start_paused {
            HandlerPhase::Paused
        } else {
            HandlerPhase::Fetching(lmq_resume_mode_t::LMQ_RESUME_WAIT)
        },
{
    if start_paused {
        HandlerPhase::Paused
    } else {
        HandlerPhase::Fetching(lmq_resume_mode_t::LMQ_RESUME_WAIT)
    }
}

/// What a paused handler does with what its resume channel gave: resume in the mode
/// sent, or, when the channel is closed (the handler was deregistered), end.
pub fn handler_after_signal(signal: Option<lmq_resume_mode_t>) -> (phase: HandlerPhase)
    ensures
        phase == match signal {
            Some(mode) => HandlerPhase::Fetching(mode),
            None => HandlerPhase::Finished,
        },
{
    match signal {
        Some(mode) => HandlerPhase::Fetching(mode),
        None => HandlerPhase::Finished,
    }
}

/// What a handler does after its callback answered `action`, having fetched in
/// `mode`: fetch again in the same mode, pause, or end; the flag says whether the
/// handler must also be removed from the registry.
pub fn handler_after_callback(mode: lmq_resume_mode_t, action: lmq_action_t) -> (next: (HandlerPhase, bool))
    ensures
        next == match action {
            lmq_action_t::LMQ_ACTION_CONTINUE => (HandlerPhase::Fetching(mode), false),
            lmq_action_t::LMQ_ACTION_PAUSE => (HandlerPhase::Paused, false),
            lmq_action_t::LMQ_ACTION_DEREGISTER => (HandlerPhase::Finished, true),
        },
{
    match action {
        lmq_action_t::LMQ_ACTION_CONTINUE => (HandlerPhase::Fetching(mode), false),
        lmq_action_t::LMQ_ACTION_PAUSE => (HandlerPhase::Paused, false),
        lmq_action_t::LMQ_ACTION_DEREGISTER => (HandlerPhase::Finished, true),
    }
}

/// The C answer to a resume request: 0 when the resume signal reached the handler,
/// -1 when no handler is registered under the id or it no longer runs.
pub fn resume_answer(registered: bool, signal_delivered: bool) -> (code: i32)
    ensures
        code == if registered && signal_delivered { 0i32 } else { -1i32 },
{
    if registered && signal_delivered {
        0
    } else {
        -1
    }
}

/// Calls `rand::random::<u64>()`: a random number from the thread's generator,
/// of which nothing is stated.
#[verifier::external_body]
fn random_u64() -> (r: u64) {
    rand::random::<u64>()
}

/// The number of random ids drawn before `fresh_callback_id` falls back to probing
/// the ids in order.
pub const RANDOM_ID_ATTEMPTS: u32 = 64;

/// The registered message handlers, by callback id.
pub struct HandlerRegistry<H> {
    tasks: HashMap<u64, H>,
}

/// `id` can name a new handler: it is not 0 and no handler has it.
pub open spec fn is_fresh_id<H>(handlers: Map<u64, H>, id: u64) -> bool {
    id != 0 && !handlers.contains_key(id)
}

/// Every id but 0 names a handler.
pub open spec fn registry_full<H>(handlers: Map<u64, H>) -> bool {
    forall|k: u64| k != 0 ==> handlers.contains_key(k)
}

impl<H> HandlerRegistry<H> {
    /// The handlers, by callback id.
    pub closed spec fn view(&self) -> Map<u64, H> {
        self.tasks@
    }

    /// A registry without handlers.
    pub fn new() -> (registry: Self)
        ensures
            registry.view() == Map::<u64, H>::empty(),
    {
        HandlerRegistry { tasks: HashMap::new() }
    }

    /// Whether no handler is registered.
    pub fn is_empty(&self) -> (empty: bool)
        ensures
            empty == (self.view().dom() == Set::<u64>::empty()),
    {
        proof {
            vstd::std_specs::hash::axiom_hashmap_view_finite_dom(self.tasks);
            if self.tasks@.len() == 0 {
                assert(self.tasks@.dom() =~= Set::<u64>::empty());
            } else {
                if self.tasks@.dom() == Set::<u64>::empty() {
                    assert(self.tasks@.dom().len() == 0);
                }
            }
        }
        self.tasks.is_empty()
    }

    /// Whether a handler is registered under `id`.
    pub fn contains(&self, id: u64) -> (found: bool)
        ensures
            found == self.view().contains_key(id),
    {
        self.tasks.contains_key(&id)
    }

    /// The handler registered under `id`, if any.
    pub fn get(&self, id: u64) -> (handler: Option<&H>)
        ensures
            match handler {
                Some(h) => self.view().contains_key(id) && *h == self.view()[id],
                None => !self.view().contains_key(id),
            },
    {
        self.tasks.get(&id)
    }

    /// A callback id that no handler has and that is not 0; `None` only when every
    /// other id is taken.
    ///
    /// Ids are drawn at random; should a few draws all be taken, the ids are probed
    /// in order from 1.
    pub fn fresh_callback_id(&self) -> (id: Option<u64>)
        ensures
            match id {
                Some(i) => is_fresh_id(self.view(), i),
                None => registry_full(self.view()),
            },
    {
        let mut attempts: u32 = 0;
        while attempts < RANDOM_ID_ATTEMPTS
            decreases RANDOM_ID_ATTEMPTS - attempts,
        {
            let candidate = random_u64();
            if candidate != 0 && !self.tasks.contains_key(&candidate) {
                return Some(candidate);
            }
            attempts = attempts + 1;
        }
        let mut candidate: u64 = 1;
        loop
            invariant
                1 <= candidate,
                forall|k: u64| 1 <= k < candidate ==> self.tasks@.contains_key(k),
            decreases u64::MAX - candidate,
        {
            if !self.tasks.contains_key(&candidate) {
                return Some(candidate);
            }
            if candidate == u64::MAX {
                return None;
            }
            candidate = candidate + 1;
        }
    }

    /// Register `handler` under a fresh callback id and return that id; `None`, with
    /// the registry unchanged, only when every id but 0 is already taken.
    pub fn register(&mut self, handler: H) -> (id: Option<u64>)
        ensures
            match id {
                Some(i) => {
                    &&& is_fresh_id(old(self).view(), i)
                    &&& final(self).view() == old(self).view().insert(i, handler)
                },
                None => {
                    &&& registry_full(old(self).view())
                    &&& final(self).view() == old(self).view()
                },
            },
    {
        match self.fresh_callback_id() {
            Some(i) => {
                self.tasks.insert(i, handler);
                Some(i)
            },
            None => None,
        }
    }

    /// Register `handler` under `callback_id`, an id obtained from
    /// [`HandlerRegistry::fresh_callback_id`] while no other handler was registered.
    pub fn insert_handler(&mut self, callback_id: u64, handler: H)
        requires
            is_fresh_id(old(self).view(), callback_id),
        ensures
            final(self).view() == old(self).view().insert(callback_id, handler),
    {
        self.tasks.insert(callback_id, handler);
    }

    /// Remove the handler registered under `callback_id` and return it; `None`, with
    /// the registry unchanged, when there is none.
    pub fn deregister_handler(&mut self, callback_id: u64) -> (handler: Option<H>)
        ensures
            final(self).view() == old(self).view().remove(callback_id),
            match handler {
                Some(h) => old(self).view().contains_key(callback_id) && h == old(self).view()[callback_id],
                None => !old(self).view().contains_key(callback_id),
            },
    {
        self.tasks.remove(&callback_id)
    }
}

/// Registering gives a handler an id that no other handler has, and deregistering
/// that id removes exactly that handler again: a register followed by a deregister
/// leaves the registry as it was.
pub proof fn lemma_register_then_deregister<H>(handlers: Map<u64, H>, id: u64, handler: H)
    requires
        is_fresh_id(handlers, id),
    ensures
        handlers.insert(id, handler).remove(id) == handlers,
        handlers.insert(id, handler).contains_key(id),
        handlers.insert(id, handler)[id] == handler,
{
    assert(handlers.insert(id, handler).remove(id) =~= handlers);
}

} // verus!
