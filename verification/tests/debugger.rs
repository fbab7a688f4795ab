use aythya::{DebuggerCmdStr, Polled, SameBoy};

#[test]
fn a_command_ends_with_a_zero_byte() {
    assert_eq!(DebuggerCmdStr::new("next").into_raw(), Some(b"next\0".to_vec()));
}

#[test]
fn an_empty_command_is_not_the_sentinel() {
    assert_eq!(DebuggerCmdStr::new("").into_raw(), Some(vec![0]));
    assert_eq!(DebuggerCmdStr::new_null().into_raw(), None);
}

#[test]
fn a_command_keeps_its_bytes() {
    let raw = DebuggerCmdStr::new("print é").into_raw();
    let mut expected = "print é".as_bytes().to_vec();
    expected.push(0);
    assert_eq!(raw, Some(expected));
}

#[test]
fn the_engine_does_not_wait_when_nothing_is_queued() {
    let mut host = SameBoy::new(1, 1);
    assert_eq!(host.async_input_callback(Polled::Empty), None);
}

#[test]
fn the_engine_gets_nothing_from_a_closed_queue() {
    let mut host = SameBoy::new(1, 1);
    assert_eq!(host.async_input_callback(Polled::Closed), None);
    assert_eq!(host.sync_input_callback(None), None);
}

#[test]
fn the_engine_gets_the_request_that_is_queued() {
    let mut host = SameBoy::new(1, 1);
    assert_eq!(
        host.async_input_callback(Polled::Request(DebuggerCmdStr::new("bt"))),
        Some(b"bt\0".to_vec())
    );
    assert_eq!(
        host.sync_input_callback(Some(DebuggerCmdStr::new("c"))),
        Some(b"c\0".to_vec())
    );
}

#[test]
fn the_sentinel_resumes_the_engine() {
    let mut host = SameBoy::new(1, 1);
    assert_eq!(host.sync_input_callback(Some(DebuggerCmdStr::new_null())), None);
    assert_eq!(
        host.async_input_callback(Polled::Request(DebuggerCmdStr::new_null())),
        None
    );
}

#[test]
fn an_empty_request_is_told_from_no_request() {
    let mut host = SameBoy::new(1, 1);
    assert_eq!(
        host.async_input_callback(Polled::Request(DebuggerCmdStr::new(""))),
        Some(vec![0])
    );
    assert_eq!(host.async_input_callback(Polled::Empty), None);
}
