use skycurrent::capi::{lmq_action_t, lmq_resume_mode_t, lmq_vec_t, HandlerRegistry};

#[test]
fn action_codes() {
    assert_eq!(lmq_action_t::LMQ_ACTION_CONTINUE.to_c_int(), 0);
    assert_eq!(lmq_action_t::LMQ_ACTION_PAUSE.to_c_int(), 1);
    assert_eq!(lmq_action_t::LMQ_ACTION_DEREGISTER.to_c_int(), -1);
    assert_eq!(lmq_action_t::from_c_int(1), Some(lmq_action_t::LMQ_ACTION_PAUSE));
    assert_eq!(lmq_action_t::from_c_int(-1), Some(lmq_action_t::LMQ_ACTION_DEREGISTER));
    assert_eq!(lmq_action_t::from_c_int(2), None);
}

#[test]
fn resume_modes() {
    assert_eq!(lmq_resume_mode_t::from(0), lmq_resume_mode_t::LMQ_RESUME_WAIT);
    assert_eq!(lmq_resume_mode_t::from(1), lmq_resume_mode_t::LMQ_RESUME_TRY);
}

#[test]
fn vec_wrapper() {
    let v: lmq_vec_t = vec![1u8, 2].into();
    assert_eq!(v.0, vec![1, 2]);
}

#[test]
fn registry_gives_unique_nonzero_ids() {
    let mut registry: HandlerRegistry<&'static str> = HandlerRegistry::new();
    assert!(registry.is_empty());
    let a = registry.register("a").expect("room for a handler");
    let b = registry.register("b").expect("room for a handler");
    assert_ne!(a, 0);
    assert_ne!(b, 0);
    assert_ne!(a, b);
    assert!(registry.contains(a));
    assert_eq!(registry.get(b), Some(&"b"));
    assert!(!registry.is_empty());
    let fresh = registry.fresh_callback_id().unwrap();
    assert!(fresh != 0 && fresh != a && fresh != b);
}

#[test]
fn deregister_removes_exactly_one() {
    let mut registry: HandlerRegistry<u32> = HandlerRegistry::new();
    let a = registry.register(10).unwrap();
    let b = registry.register(20).unwrap();
    assert_eq!(registry.deregister_handler(a), Some(10));
    assert_eq!(registry.deregister_handler(a), None);
    assert!(!registry.contains(a));
    assert_eq!(registry.get(b), Some(&20));
    assert_eq!(registry.deregister_handler(b), Some(20));
    assert!(registry.is_empty());
    assert_eq!(registry.deregister_handler(0), None);
}

use skycurrent::capi::{handler_after_callback, handler_after_signal, handler_start, resume_answer, HandlerPhase};

#[test]
fn handler_phases() {
    assert_eq!(handler_start(true), HandlerPhase::Paused);
    assert_eq!(handler_start(false), HandlerPhase::Fetching(lmq_resume_mode_t::LMQ_RESUME_WAIT));
    assert_eq!(
        handler_after_signal(Some(lmq_resume_mode_t::LMQ_RESUME_TRY)),
        HandlerPhase::Fetching(lmq_resume_mode_t::LMQ_RESUME_TRY)
    );
    assert_eq!(handler_after_signal(None), HandlerPhase::Finished);
    assert_eq!(
        handler_after_callback(lmq_resume_mode_t::LMQ_RESUME_TRY, lmq_action_t::LMQ_ACTION_CONTINUE),
        (HandlerPhase::Fetching(lmq_resume_mode_t::LMQ_RESUME_TRY), false)
    );
    assert_eq!(
        handler_after_callback(lmq_resume_mode_t::LMQ_RESUME_WAIT, lmq_action_t::LMQ_ACTION_PAUSE),
        (HandlerPhase::Paused, false)
    );
    assert_eq!(
        handler_after_callback(lmq_resume_mode_t::LMQ_RESUME_WAIT, lmq_action_t::LMQ_ACTION_DEREGISTER),
        (HandlerPhase::Finished, true)
    );
}

#[test]
fn resume_answers() {
    assert_eq!(resume_answer(true, true), 0);
    assert_eq!(resume_answer(true, false), -1);
    assert_eq!(resume_answer(false, false), -1);
}

#[test]
fn insert_handler_under_fresh_id() {
    let mut registry: HandlerRegistry<char> = HandlerRegistry::new();
    let id = registry.fresh_callback_id().unwrap();
    registry.insert_handler(id, 'x');
    assert_eq!(registry.get(id), Some(&'x'));
    assert_eq!(registry.deregister_handler(id), Some('x'));
    assert!(registry.is_empty());
}
