use triton_bridge::error::{ErrorCode, ErrorKind, InferError, TritonError};
use triton_bridge::inference_request::{
    release_callback, response_callback, Delivery, InferRequest, RequestDataHolder, RequestState,
    REQUEST_RELEASE_ALL, RESPONSE_COMPLETE_FINAL,
};
use triton_bridge::inference_response::{InferResponse, MemoryType};
use triton_bridge::proto::ModelInferRequest;
use triton_bridge::response_allocator::{
    Allocation, BufferLayout, Release, ResponseAllocator, BUFFER_ALIGNMENT,
};
use triton_bridge::server::Server;

fn server() -> Server {
    Server::new(10, ResponseAllocator::new(20))
}

fn holder() -> Box<RequestDataHolder> {
    let wire = ModelInferRequest {
        model_name: "m".to_string(),
        model_version: "1".to_string(),
        id: "held".to_string(),
        inputs: vec![],
        outputs: vec![],
        raw_input_contents: vec![vec![1, 2, 3]],
    };
    Box::new(RequestDataHolder::new(Box::new(wire), vec![vec![4, 5]]))
}

fn answer(id: &str) -> InferResponse {
    InferResponse::new(None, "m".to_string(), 1, id.to_string(), vec![])
}

#[test]
fn handles_are_kept() {
    let bridge = server();
    assert_eq!(bridge.response_allocator.raw_pointer(), 20);
    assert_eq!(bridge._server, 10);
    assert_eq!(bridge.raw_pointer(), 10);
}

#[test]
fn no_bytes_need_no_memory() {
    let allocator = ResponseAllocator::new(0);
    assert_eq!(allocator.plan_allocation(0), Allocation::Empty);
    assert_eq!(allocator.plan_release(0), Release::Nothing);
}

#[test]
fn buffers_are_aligned_to_eight() {
    assert_eq!(BUFFER_ALIGNMENT, 8);
    let allocator = ResponseAllocator::new(0);
    for size in [1usize, 7, 8, 9, 4096, 1 << 30] {
        let layout = BufferLayout { size, align: 8 };
        assert_eq!(allocator.plan_allocation(size), Allocation::Block(layout));
        assert_eq!(allocator.plan_release(size), Release::Block(layout));
        assert!(std::alloc::Layout::from_size_align(size, 8).is_ok());
    }
}

#[test]
fn sizes_that_cannot_be_laid_out_are_refused() {
    let allocator = ResponseAllocator::new(0);
    let largest = isize::MAX as usize - 7;
    assert_eq!(
        allocator.plan_allocation(largest),
        Allocation::Block(BufferLayout { size: largest, align: 8 })
    );
    assert!(std::alloc::Layout::from_size_align(largest, 8).is_ok());
    for size in [largest + 1, isize::MAX as usize, usize::MAX] {
        assert_eq!(allocator.plan_allocation(size), Allocation::Unsupported);
        assert_eq!(allocator.plan_release(size), Release::Unsupported);
        assert!(std::alloc::Layout::from_size_align(size, 8).is_err());
    }
}

#[test]
fn buffers_live_in_cpu_memory() {
    assert_eq!(ResponseAllocator::new(0).memory_location(), (MemoryType::Cpu, 0));
}

#[test]
fn the_allocator_reports_its_failures_to_the_engine() {
    let error = ResponseAllocator::layout_error();
    assert_eq!(error.code(), ErrorCode::Internal);
    assert_eq!(error.msg(), "allocator failed to create layout");
    assert_eq!(error.code_string(), "Internal");
    let error = ResponseAllocator::allocation_error();
    assert_eq!(error.code(), ErrorCode::Internal);
    assert_eq!(error.msg(), "allocator failed");
}

#[test]
fn a_full_release_drops_what_was_retained() {
    assert!(release_callback(holder(), REQUEST_RELEASE_ALL).is_none());
    assert!(release_callback(holder(), 1).is_none());
    assert!(release_callback(holder(), 3).is_none());
    assert!(release_callback(holder(), u32::MAX).is_none());
}

#[test]
fn a_partial_release_keeps_what_was_retained() {
    for flags in [0u32, 2, 4, 0xffff_fffe] {
        let kept = release_callback(holder(), flags).unwrap();
        assert_eq!(kept._request.id, "held");
        assert_eq!(kept._request.raw_input_contents, vec![vec![1u8, 2, 3]]);
        assert_eq!(kept._bytes, vec![vec![4u8, 5]]);
    }
}

#[test]
fn an_accepted_request_is_submitted() {
    let mut built = InferRequest::new("m", 1, false);
    built.set_release_callback(holder()).unwrap();
    assert!(server().infer_async(&mut built, Ok(())).is_ok());
    assert_eq!(built.state, RequestState::Submitted);
    assert!(built.retained.is_some());
    assert!(!built.delete());
    assert_eq!(built.state, RequestState::Submitted);
    assert!(built.retained.is_some());
}

#[test]
fn a_refused_request_is_destroyed() {
    let mut built = InferRequest::new("m", 1, false);
    built.set_release_callback(holder()).unwrap();
    let (sender, mut receiver) = tokio::sync::mpsc::channel(1);
    built.set_response_callback(&ResponseAllocator::new(5), sender).unwrap();
    let refusal = TritonError::new(ErrorCode::Unavailable, "engine is shutting down".to_string());
    let error = server().infer_async(&mut built, Err(refusal)).unwrap_err();
    assert_eq!(error.kind, ErrorKind::EngineRejected);
    assert_eq!(error.msg, "engine is shutting down");
    assert_eq!(built.state, RequestState::Deleted);
    assert!(built.retained.is_none());
    assert!(built.sender.is_none());
    assert_eq!(
        receiver.try_recv().err(),
        Some(tokio::sync::mpsc::error::TryRecvError::Disconnected)
    );
    assert!(!built.delete());
    assert_eq!(built.state, RequestState::Deleted);
}

#[test]
fn a_request_is_deleted_once() {
    let mut built = InferRequest::new("m", 1, false);
    built.set_release_callback(holder()).unwrap();
    assert!(built.delete());
    assert_eq!(built.state, RequestState::Deleted);
    assert!(built.retained.is_none());
    assert!(!built.delete());
    assert!(server().infer_async(&mut built, Ok(())).is_ok());
    assert_eq!(built.state, RequestState::Deleted);
}

#[test]
fn a_response_goes_through_the_channel() {
    let (sender, mut receiver) = tokio::sync::mpsc::channel(1);
    let delivery = response_callback(sender, Some(answer("through")), RESPONSE_COMPLETE_FINAL);
    assert_eq!(delivery, Delivery::Delivered);
    assert_eq!(receiver.try_recv().unwrap().id, "through");
    assert_eq!(
        receiver.try_recv().err(),
        Some(tokio::sync::mpsc::error::TryRecvError::Disconnected)
    );
}

#[test]
fn a_notification_without_a_response_closes_the_channel() {
    let (sender, mut receiver) = tokio::sync::mpsc::channel::<InferResponse>(1);
    assert_eq!(response_callback(sender, None, 0), Delivery::NoResponse);
    assert_eq!(
        receiver.try_recv().err(),
        Some(tokio::sync::mpsc::error::TryRecvError::Disconnected)
    );
    let error = server().complete(receiver.try_recv().ok(), false).unwrap_err();
    assert_eq!(error.kind, ErrorKind::ReceiveFailed);
}

#[test]
fn a_response_that_nobody_awaits_is_dropped() {
    let (sender, receiver) = tokio::sync::mpsc::channel(1);
    drop(receiver);
    assert_eq!(response_callback(sender, Some(answer("late")), 1), Delivery::Dropped);
    let (sender, mut receiver) = tokio::sync::mpsc::channel(1);
    sender.try_send(answer("first")).unwrap();
    assert_eq!(response_callback(sender, Some(answer("second")), 1), Delivery::Dropped);
    assert_eq!(receiver.try_recv().unwrap().id, "first");
}

#[test]
fn a_refusal_to_create_the_request_is_told_by_its_code() {
    let kinds = [
        (ErrorCode::NotFound, ErrorKind::ModelNotFound),
        (ErrorCode::Unavailable, ErrorKind::ModelNotFound),
        (ErrorCode::InvalidArg, ErrorKind::InvalidVersion),
        (ErrorCode::Internal, ErrorKind::EngineRejected),
        (ErrorCode::Unknown, ErrorKind::EngineRejected),
        (ErrorCode::Unsupported, ErrorKind::EngineRejected),
        (ErrorCode::AlreadyExists, ErrorKind::EngineRejected),
    ];
    for (code, kind) in kinds {
        let failure = server().creation_failed(&TritonError::new(code, "refused".to_string()));
        assert_eq!(failure.kind, kind);
        assert_eq!(failure.msg, "refused");
    }
}

#[test]
fn errors_keep_their_messages() {
    let error = TritonError::new(ErrorCode::NotFound, "no such model".to_string());
    assert_eq!(error.msg(), "no such model");
    assert_eq!(error.code(), ErrorCode::NotFound);
    assert_eq!(error.code_string(), "Not found");
    let failure = InferError::rejected(&error);
    assert_eq!(failure.kind, ErrorKind::EngineRejected);
    assert_eq!(failure.to_string(), "no such model");
    let failure = InferError::new(ErrorKind::ReceiveFailed, "receive error".to_string());
    assert_eq!(failure.kind, ErrorKind::ReceiveFailed);
    assert_eq!(failure.msg, "receive error");
}

#[test]
fn error_codes_are_read_from_their_numbers() {
    let names = [
        (0, ErrorCode::Unknown, "Unknown"),
        (1, ErrorCode::Internal, "Internal"),
        (2, ErrorCode::NotFound, "Not found"),
        (3, ErrorCode::InvalidArg, "Invalid argument"),
        (4, ErrorCode::Unavailable, "Unavailable"),
        (5, ErrorCode::Unsupported, "Unsupported"),
        (6, ErrorCode::AlreadyExists, "Already exists"),
        (7, ErrorCode::Unknown, "Unknown"),
    ];
    for (number, code, name) in names {
        assert_eq!(ErrorCode::from_number(number), code);
        assert_eq!(ErrorCode::from_number(code.number()), code);
        assert_eq!(TritonError::new(code, String::new()).code_string(), name);
    }
}

#[test]
fn a_refused_creation_destroys_the_request() {
    let kinds = [
        (ErrorCode::NotFound, ErrorKind::ModelNotFound),
        (ErrorCode::Unavailable, ErrorKind::ModelNotFound),
        (ErrorCode::InvalidArg, ErrorKind::InvalidVersion),
        (ErrorCode::Internal, ErrorKind::EngineRejected),
    ];
    for (code, kind) in kinds {
        let mut built = InferRequest::new("nowhere", 3, false);
        built.set_release_callback(holder()).unwrap();
        let (sender, mut receiver) = tokio::sync::mpsc::channel(1);
        built.set_response_callback(&ResponseAllocator::new(5), sender).unwrap();
        let refusal = TritonError::new(code, "unknown model 'nowhere'".to_string());
        let error = server().creation_answered(&mut built, Err(refusal)).unwrap_err();
        assert_eq!(error.kind, kind);
        assert_eq!(error.msg, "unknown model 'nowhere'");
        assert_eq!(built.state, RequestState::Deleted);
        assert!(built.retained.is_none());
        assert!(built.sender.is_none());
        assert_eq!(
            receiver.try_recv().err(),
            Some(tokio::sync::mpsc::error::TryRecvError::Disconnected)
        );
    }
}

#[test]
fn an_accepted_creation_changes_nothing() {
    let mut built = InferRequest::new("m", 3, true);
    built.set_id("kept").unwrap();
    built.set_release_callback(holder()).unwrap();
    assert!(server().creation_answered(&mut built, Ok(())).is_ok());
    assert_eq!(built.state, RequestState::Built);
    assert_eq!(built.id(), "kept");
    assert!(built.retained.is_some());
}

#[test]
fn a_refused_step_destroys_the_request() {
    let mut built = InferRequest::new("m", 1, false);
    built.set_release_callback(holder()).unwrap();
    let (sender, mut receiver) = tokio::sync::mpsc::channel(1);
    built.set_response_callback(&ResponseAllocator::new(5), sender).unwrap();
    assert!(server().step_answered(&mut built, Ok(())).is_ok());
    assert_eq!(built.state, RequestState::Built);
    assert!(built.retained.is_some());
    assert!(built.sender.is_some());
    let refusal = TritonError::new(ErrorCode::InvalidArg, "input 'A' already exists".to_string());
    let error = server().step_answered(&mut built, Err(refusal)).unwrap_err();
    assert_eq!(error.kind, ErrorKind::EngineRejected);
    assert_eq!(error.msg, "input 'A' already exists");
    assert_eq!(built.state, RequestState::Deleted);
    assert!(built.retained.is_none());
    assert!(built.sender.is_none());
    assert_eq!(
        receiver.try_recv().err(),
        Some(tokio::sync::mpsc::error::TryRecvError::Disconnected)
    );
    let again = TritonError::new(ErrorCode::Internal, "later".to_string());
    let error = server().step_answered(&mut built, Err(again)).unwrap_err();
    assert_eq!(error.kind, ErrorKind::EngineRejected);
    assert_eq!(error.msg, "later");
    assert_eq!(built.state, RequestState::Deleted);
}

#[test]
fn a_refused_step_after_submission_leaves_the_request_to_the_engine() {
    let mut built = InferRequest::new("m", 1, false);
    built.set_release_callback(holder()).unwrap();
    server().infer_async(&mut built, Ok(())).unwrap();
    let refusal = TritonError::new(ErrorCode::Internal, "too late".to_string());
    let error = server().step_answered(&mut built, Err(refusal)).unwrap_err();
    assert_eq!(error.kind, ErrorKind::EngineRejected);
    assert_eq!(built.state, RequestState::Submitted);
    assert!(built.retained.is_some());
}
