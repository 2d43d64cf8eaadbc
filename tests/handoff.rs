use sklookup_proxy::control::{classify_request, send_fs, stream_init, stream_shutdown, SCM_MAX_FD};
use sklookup_proxy::{read_handoff, Ancillary, ControlRequest, ControlSocketError, HandoffRegistry};

#[test]
fn frames_are_byte_exact() {
    assert_eq!(stream_init(), b"INIT".to_vec());
    assert_eq!(send_fs(), b"SEND_FS".to_vec());
    assert_eq!(stream_shutdown(), b"SHUTDOWN".to_vec());
}

#[test]
fn hot_upgrade_moves_five_connections() {
    let mut registry = HandoffRegistry::new();
    for fd in [11, 12, 13, 14, 15] {
        registry.register(fd);
    }
    assert_eq!(classify_request(b"INIT"), ControlRequest::Init);
    let batch = registry.take_for_handoff();
    assert_eq!(registry.len(), 0);
    let adopted = read_handoff(b"SEND_FS", Ancillary::Rights(batch)).unwrap().unwrap();
    assert_eq!(adopted, vec![11, 12, 13, 14, 15]);
    assert_eq!(classify_request(&stream_shutdown()), ControlRequest::Shutdown);
}

#[test]
fn handoff_truncates_to_scm_limit() {
    let mut registry = HandoffRegistry::new();
    for fd in 0..300 {
        registry.register(fd);
    }
    let batch = registry.take_for_handoff();
    assert_eq!(batch.len(), SCM_MAX_FD);
    assert_eq!(batch, (0..253).collect::<Vec<i32>>());
    assert_eq!(registry.len(), 0);
}

#[test]
fn released_connection_is_not_handed_off() {
    let mut registry = HandoffRegistry::new();
    registry.register(4);
    registry.register(9);
    registry.register(4);
    assert!(registry.release(4));
    assert!(!registry.release(77));
    assert_eq!(registry.take_for_handoff(), vec![9, 4]);
}

#[test]
fn wrong_payload_is_invalid_data() {
    let r = read_handoff(b"SEND_FX", Ancillary::Rights(vec![3]));
    assert_eq!(r, Err(ControlSocketError::InvalidData));
    let r = read_handoff(b"SEND", Ancillary::Missing);
    assert_eq!(r, Err(ControlSocketError::InvalidData));
}

#[test]
fn malformed_ancillary_is_invalid_fds() {
    let r = read_handoff(b"SEND_FS", Ancillary::Malformed);
    assert_eq!(r, Err(ControlSocketError::InvalidFds));
}

#[test]
fn missing_ancillary_adopts_nothing() {
    assert_eq!(read_handoff(b"SEND_FS", Ancillary::Missing), Ok(None));
}

#[test]
fn unknown_request_is_ignored() {
    assert_eq!(classify_request(b"HELLO"), ControlRequest::Unknown);
    assert_eq!(classify_request(b""), ControlRequest::Unknown);
}

#[test]
fn error_messages() {
    assert_eq!(
        ControlSocketError::InvalidData.message(),
        "The previous control server send back invalid data."
    );
    assert_eq!(
        ControlSocketError::InvalidFds.message(),
        "The previous control server did not send back valid file descriptors."
    );
}
