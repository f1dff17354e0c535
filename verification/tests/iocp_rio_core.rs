//! Request contexts and results of registered I/O.
use veloq_driver::iocp::rio::contexts::{RequestContexts, RioCompletionKind};
use veloq_driver::iocp::rio::control::rio_result_to_event_res;
use veloq_driver::iocp::rio::keys::ActorKey;
use veloq_driver::iocp::rio::lifecycle::RIO_REAPER_DRAIN_TIMEOUT;

#[test]
fn op_ctx_roundtrip_decode_and_free() {
    let mut contexts = RequestContexts::new();
    let ptr = contexts.encode_req_ctx(11, 17);
    let decoded = contexts.decode_req_ctx(ptr as u64);
    assert!(matches!(
        decoded,
        Some(RioCompletionKind::Op {
            user_data: 11,
            generation: 17,
            ..
        })
    ));
    contexts.free_op_req_ctx(ptr as u64);
    assert!(contexts.decode_req_ctx(ptr as u64).is_none());
}

#[test]
fn pool_ctx_decode_valid() {
    let mut contexts = RequestContexts::new();
    let token = 7_u32;
    let actor_key = ActorKey::default();
    let raw = contexts.encode_pool_req_ctx(actor_key, token) as u64;
    let decoded = contexts.decode_req_ctx(raw);
    match decoded {
        Some(RioCompletionKind::Pool {
            actor_key: k,
            generation,
        }) => {
            assert_eq!(k, actor_key);
            assert_eq!(generation, token);
        }
        _ => panic!("pool context should decode"),
    }
}

#[test]
fn rio_result_translation_behaviour() {
    assert_eq!(rio_result_to_event_res(&Ok(5)), 5);
    assert_eq!(
        rio_result_to_event_res(&Ok((i32::MAX as usize) + 10)),
        i32::MAX
    );
    assert_eq!(rio_result_to_event_res(&Err(Some(10022))), -10022);
}

#[test]
fn free_pool_tagged_context_is_noop() {
    let mut contexts = RequestContexts::new();
    let tagged = 1_u64;
    contexts.free_op_req_ctx(tagged);
    let pool = contexts.encode_pool_req_ctx(ActorKey::default(), 3);
    contexts.free_op_req_ctx(pool);
    assert!(contexts.decode_req_ctx(pool).is_some());
}

#[test]
fn timeout_constant_is_positive() {
    assert!(
        std::time::Duration::from_nanos(RIO_REAPER_DRAIN_TIMEOUT)
            > std::time::Duration::from_secs(0)
    );
}

#[test]
fn contexts_of_both_kinds_do_not_mix() {
    let mut contexts = RequestContexts::new();
    let op = contexts.encode_req_ctx(1, 2);
    let pool = contexts.encode_pool_req_ctx(ActorKey::default(), 9);
    assert_eq!(op % 2, 0);
    assert_eq!(pool % 2, 1);
    assert!(contexts.decode_req_ctx(op + 1).is_none());
    assert!(contexts.decode_req_ctx(0).is_none());
    contexts.free_op_req_ctx(op);
    assert!(contexts.decode_req_ctx(pool).is_some());
    let again = contexts.encode_req_ctx(5, 6);
    assert_eq!(again, op);
}
