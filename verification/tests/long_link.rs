use bytes::BytesMut;
use im_transport::buffer::AutoBuffer;
use im_transport::codec::long_link::{Codec, DefaultCodec, IDENTIFY_CHECKER_TASK_ID};
use im_transport::net::transport::long_link::{
    EventSource, Frame, LongLink, LongLinkAction, LongLinkEvent, LongLinkRequest,
    LongLinkResponse, MAX_READ_SIZE, REQUEST_QUEUE_SIZE, RESPONSE_QUEUE_SIZE,
    SHUTDOWN_QUEUE_SIZE,
};

fn frame_bytes(version: u32, cmd_id: u32, task_id: u32, payload: &[u8]) -> Vec<u8> {
    let codec = DefaultCodec::new(version);
    let mut out = AutoBuffer::default();
    codec.encode(
        cmd_id,
        task_id,
        &AutoBuffer::new_from(payload),
        &AutoBuffer::default(),
        &mut out,
    );
    out.as_slice(0).to_vec()
}

fn received(bytes: &[u8]) -> LongLinkEvent {
    LongLinkEvent::Received(BytesMut::from(bytes))
}

fn identify(payload: &[u8], cmd_id: u32) -> LongLinkEvent {
    LongLinkEvent::Request(LongLinkRequest::Checkidentify((AutoBuffer::new_from(payload), cmd_id)))
}

fn live_link() -> LongLink<DefaultCodec> {
    let mut link = LongLink::new(DefaultCodec::new(100));
    link.step(LongLinkEvent::Start);
    link.step(LongLinkEvent::ConnectDone);
    link
}

fn connected_link() -> LongLink<DefaultCodec> {
    let mut link = live_link();
    link.step(LongLinkEvent::Request(LongLinkRequest::NoCheckidentify));
    link
}

fn is_report(action: &LongLinkAction, response: LongLinkResponse) -> bool {
    matches!(action, LongLinkAction::Report(r) if *r == response)
}

fn sent(action: &LongLinkAction) -> Vec<u8> {
    match action {
        LongLinkAction::Send(bytes) => bytes.as_slice(0).to_vec(),
        other => panic!("not a send: {:?}", other),
    }
}

fn frame_of(action: &LongLinkAction) -> (bool, u32, u32, Vec<u8>) {
    match action {
        LongLinkAction::Identify(Frame { cmd_id, task_id, body }) => {
            (true, *cmd_id, *task_id, body.as_slice(0).to_vec())
        }
        LongLinkAction::Deliver(Frame { cmd_id, task_id, body }) => {
            (false, *cmd_id, *task_id, body.as_slice(0).to_vec())
        }
        other => panic!("not a frame: {:?}", other),
    }
}

fn every_event() -> Vec<LongLinkEvent> {
    vec![
        LongLinkEvent::Start,
        LongLinkEvent::ConnectDone,
        LongLinkEvent::ConnectFailed,
        LongLinkEvent::Shutdown,
        identify(&[1], 1),
        LongLinkEvent::Request(LongLinkRequest::NoCheckidentify),
        received(&frame_bytes(100, 1, 2, &[3])),
        received(&[]),
        LongLinkEvent::ReadFailed,
        LongLinkEvent::Writable,
        LongLinkEvent::Written,
        LongLinkEvent::WriteFailed,
    ]
}

#[test]
fn read_room_is_64_kib() {
    assert_eq!(MAX_READ_SIZE, 65536);
}

#[test]
fn queue_sizes_of_the_loop() {
    assert_eq!(REQUEST_QUEUE_SIZE, 100);
    assert_eq!(RESPONSE_QUEUE_SIZE, 100);
    assert_eq!(SHUTDOWN_QUEUE_SIZE, 1);
}

#[test]
fn read_buffer_is_empty_with_room_for_a_read() {
    let link = connected_link();
    let buffer = link.read_buffer();
    assert_eq!(buffer.len(), 0);
    assert!(buffer.capacity() >= MAX_READ_SIZE);
}

#[test]
fn filled_read_buffer_is_decoded() {
    let mut link = connected_link();
    let mut buffer = link.read_buffer();
    buffer.extend_from_slice(&frame_bytes(100, 5, 6, &[7, 8]));
    buffer.extend_from_slice(&frame_bytes(100, 9, 10, &[11])[..3]);
    let actions = link.step(LongLinkEvent::Received(buffer));
    assert_eq!(actions.len(), 1);
    assert_eq!(frame_of(&actions[0]), (false, 5, 6, vec![7, 8]));
    let mut buffer = link.read_buffer();
    assert_eq!(buffer.len(), 0);
    buffer.extend_from_slice(&frame_bytes(100, 9, 10, &[11])[3..]);
    let actions = link.step(LongLinkEvent::Received(buffer));
    assert_eq!(actions.len(), 1);
    assert_eq!(frame_of(&actions[0]), (false, 9, 10, vec![11]));
}

#[test]
fn loop_waits_on_nothing_before_the_connect_and_after_the_end() {
    let mut link = LongLink::new(DefaultCodec::new(100));
    assert_eq!(link.wait_order(), vec![]);
    link.step(LongLinkEvent::Start);
    assert_eq!(link.wait_order(), vec![]);
    link.step(LongLinkEvent::ConnectDone);
    assert_eq!(link.wait_order().len(), 3);
    link.step(LongLinkEvent::Shutdown);
    assert_eq!(link.wait_order(), vec![]);

    let mut failed = LongLink::new(DefaultCodec::new(100));
    failed.step(LongLinkEvent::Start);
    failed.step(LongLinkEvent::ConnectFailed);
    assert_eq!(failed.wait_order(), vec![]);
}

#[test]
fn shutdown_is_looked_at_before_every_other_source() {
    let mut link = live_link();
    assert_eq!(
        link.wait_order(),
        vec![EventSource::Shutdown, EventSource::Request, EventSource::Readable]
    );
    link.step(identify(&[1], 1));
    assert_eq!(
        link.wait_order(),
        vec![
            EventSource::Shutdown,
            EventSource::Request,
            EventSource::Readable,
            EventSource::Writable
        ]
    );
    link.step(LongLinkEvent::Writable);
    assert_eq!(
        link.wait_order(),
        vec![EventSource::Shutdown, EventSource::Request, EventSource::Readable]
    );
    link.step(LongLinkEvent::Written);
    link.step(LongLinkEvent::Request(LongLinkRequest::NoCheckidentify));
    assert_eq!(
        link.wait_order(),
        vec![EventSource::Shutdown, EventSource::Request, EventSource::Readable]
    );
}

#[test]
fn new_engine_is_idle() {
    let link = LongLink::new(DefaultCodec::new(100));
    assert_eq!(link.state(), LongLinkResponse::Idle);
    assert!(!link.wants_write());
}

#[test]
fn start_reports_connecting_and_asks_for_the_connect() {
    let mut link = LongLink::new(DefaultCodec::new(100));
    let actions = link.step(LongLinkEvent::Start);
    assert_eq!(actions.len(), 2);
    assert!(is_report(&actions[0], LongLinkResponse::Connecting));
    assert!(matches!(actions[1], LongLinkAction::Connect));
    assert_eq!(link.state(), LongLinkResponse::Connecting);
    assert_eq!(link.step(LongLinkEvent::Start).len(), 0);
    assert_eq!(link.state(), LongLinkResponse::Connecting);
}

#[test]
fn connect_reports_checkidentify() {
    let mut link = LongLink::new(DefaultCodec::new(100));
    link.step(LongLinkEvent::Start);
    let actions = link.step(LongLinkEvent::ConnectDone);
    assert_eq!(actions.len(), 1);
    assert!(is_report(&actions[0], LongLinkResponse::Checkidentify));
    assert_eq!(link.state(), LongLinkResponse::Checkidentify);
    assert_eq!(link.step(LongLinkEvent::ConnectDone).len(), 0);
    assert_eq!(link.step(LongLinkEvent::ConnectFailed).len(), 0);
    assert_eq!(link.state(), LongLinkResponse::Checkidentify);
}

#[test]
fn connect_failure_is_reported_once_and_the_loop_never_starts() {
    let mut link = LongLink::new(DefaultCodec::new(100));
    link.step(LongLinkEvent::Start);
    let actions = link.step(LongLinkEvent::ConnectFailed);
    assert_eq!(actions.len(), 2);
    assert!(is_report(&actions[0], LongLinkResponse::ConnectFail));
    assert!(matches!(actions[1], LongLinkAction::Stop));
    assert_eq!(link.state(), LongLinkResponse::ConnectFail);
    for event in every_event() {
        assert_eq!(link.step(event).len(), 0);
        assert_eq!(link.state(), LongLinkResponse::ConnectFail);
        assert!(!link.wants_write());
    }
}

#[test]
fn shutdown_after_connected_is_reported_once_and_ends_the_loop() {
    let mut link = connected_link();
    assert_eq!(link.state(), LongLinkResponse::Connected);
    link.step(identify(&[1, 2], 3));
    let actions = link.step(LongLinkEvent::Shutdown);
    assert_eq!(actions.len(), 2);
    assert!(is_report(&actions[0], LongLinkResponse::Disconnected));
    assert!(matches!(actions[1], LongLinkAction::Stop));
    assert_eq!(link.state(), LongLinkResponse::Disconnected);
    for event in every_event() {
        assert_eq!(link.step(event).len(), 0);
        assert_eq!(link.state(), LongLinkResponse::Disconnected);
        assert!(!link.wants_write());
    }
}

#[test]
fn shutdown_ends_a_link_in_every_state_before_the_end() {
    let mut idle = LongLink::new(DefaultCodec::new(100));
    let actions = idle.step(LongLinkEvent::Shutdown);
    assert_eq!(actions.len(), 2);
    assert!(is_report(&actions[0], LongLinkResponse::Disconnected));
    assert_eq!(idle.state(), LongLinkResponse::Disconnected);

    let mut connecting = LongLink::new(DefaultCodec::new(100));
    connecting.step(LongLinkEvent::Start);
    let actions = connecting.step(LongLinkEvent::Shutdown);
    assert_eq!(actions.len(), 2);
    assert_eq!(connecting.state(), LongLinkResponse::Disconnected);
    assert_eq!(connecting.step(LongLinkEvent::ConnectDone).len(), 0);

    let mut checking = live_link();
    let actions = checking.step(LongLinkEvent::Shutdown);
    assert_eq!(actions.len(), 2);
    assert!(matches!(actions[1], LongLinkAction::Stop));
    assert_eq!(checking.state(), LongLinkResponse::Disconnected);
}

#[test]
fn events_of_the_loop_do_not_count_before_the_connect() {
    let mut link = LongLink::new(DefaultCodec::new(100));
    for event in [
        identify(&[1], 1),
        LongLinkEvent::Request(LongLinkRequest::NoCheckidentify),
        received(&frame_bytes(100, 1, 2, &[3])),
        LongLinkEvent::ReadFailed,
        LongLinkEvent::Writable,
        LongLinkEvent::Written,
        LongLinkEvent::WriteFailed,
        LongLinkEvent::ConnectDone,
        LongLinkEvent::ConnectFailed,
    ] {
        assert_eq!(link.step(event).len(), 0);
        assert_eq!(link.state(), LongLinkResponse::Idle);
    }
    link.step(LongLinkEvent::Start);
    link.step(identify(&[1], 1));
    link.step(LongLinkEvent::ConnectDone);
    assert!(!link.wants_write());
    assert_eq!(link.step(LongLinkEvent::Writable).len(), 0);
}

#[test]
fn identify_payload_is_framed_under_the_identify_task_id() {
    let mut link = live_link();
    assert_eq!(link.step(identify(&[1, 2, 3, 4], 1)).len(), 0);
    assert!(link.wants_write());
    let actions = link.step(LongLinkEvent::Writable);
    assert_eq!(actions.len(), 1);
    assert_eq!(
        sent(&actions[0]),
        vec![0, 0, 0, 100, 0, 0, 0, 1, 0xFF, 0xFF, 0xFF, 0xFE, 0, 4, 1, 2, 3, 4]
    );
    assert_eq!(
        sent(&actions[0]),
        frame_bytes(100, 1, IDENTIFY_CHECKER_TASK_ID, &[1, 2, 3, 4])
    );
}

#[test]
fn queue_entry_leaves_only_after_its_write_succeeded() {
    let mut link = live_link();
    link.step(identify(&[1], 10));
    let first = link.step(LongLinkEvent::Writable);
    assert_eq!(first.len(), 1);
    assert!(!link.wants_write());
    assert_eq!(link.step(LongLinkEvent::Writable).len(), 0);
    assert_eq!(link.step(LongLinkEvent::Written).len(), 0);
    assert!(!link.wants_write());
    assert_eq!(link.step(LongLinkEvent::Writable).len(), 0);
    assert_eq!(link.state(), LongLinkResponse::Checkidentify);
}

#[test]
fn identify_payloads_go_out_in_the_order_they_were_queued() {
    let mut link = live_link();
    link.step(identify(&[1], 10));
    link.step(identify(&[2, 2], 20));
    link.step(identify(&[3, 3, 3], 30));
    let mut out: Vec<Vec<u8>> = Vec::new();
    while link.wants_write() {
        let actions = link.step(LongLinkEvent::Writable);
        assert_eq!(actions.len(), 1);
        out.push(sent(&actions[0]));
        link.step(LongLinkEvent::Written);
    }
    assert_eq!(
        out,
        vec![
            frame_bytes(100, 10, IDENTIFY_CHECKER_TASK_ID, &[1]),
            frame_bytes(100, 20, IDENTIFY_CHECKER_TASK_ID, &[2, 2]),
            frame_bytes(100, 30, IDENTIFY_CHECKER_TASK_ID, &[3, 3, 3]),
        ]
    );
}

#[test]
fn written_without_a_write_under_way_removes_nothing() {
    let mut link = live_link();
    link.step(identify(&[1], 10));
    assert_eq!(link.step(LongLinkEvent::Written).len(), 0);
    assert!(link.wants_write());
    let actions = link.step(LongLinkEvent::Writable);
    assert_eq!(sent(&actions[0]), frame_bytes(100, 10, IDENTIFY_CHECKER_TASK_ID, &[1]));
}

#[test]
fn failed_write_ends_the_link() {
    let mut link = live_link();
    link.step(identify(&[1], 10));
    link.step(LongLinkEvent::Writable);
    let actions = link.step(LongLinkEvent::WriteFailed);
    assert_eq!(actions.len(), 2);
    assert!(is_report(&actions[0], LongLinkResponse::Disconnected));
    assert!(matches!(actions[1], LongLinkAction::Stop));
    assert_eq!(link.state(), LongLinkResponse::Disconnected);
    assert_eq!(link.step(LongLinkEvent::Writable).len(), 0);
}

#[test]
fn accepted_identity_connects_and_empties_the_queue() {
    let mut link = live_link();
    link.step(identify(&[1], 10));
    link.step(identify(&[2], 20));
    link.step(LongLinkEvent::Writable);
    let actions = link.step(LongLinkEvent::Request(LongLinkRequest::NoCheckidentify));
    assert_eq!(actions.len(), 1);
    assert!(is_report(&actions[0], LongLinkResponse::Connected));
    assert_eq!(link.state(), LongLinkResponse::Connected);
    assert!(!link.wants_write());
    assert_eq!(link.step(LongLinkEvent::Written).len(), 0);
    assert_eq!(link.step(LongLinkEvent::Writable).len(), 0);
    link.step(identify(&[3], 30));
    let actions = link.step(LongLinkEvent::Writable);
    assert_eq!(sent(&actions[0]), frame_bytes(100, 30, IDENTIFY_CHECKER_TASK_ID, &[3]));
}

#[test]
fn frame_during_the_identify_exchange_goes_for_a_verdict() {
    let mut link = live_link();
    let actions =
        link.step(received(&frame_bytes(100, 1, IDENTIFY_CHECKER_TASK_ID, &[9])));
    assert_eq!(actions.len(), 1);
    assert_eq!(frame_of(&actions[0]), (true, 1, IDENTIFY_CHECKER_TASK_ID, vec![9]));
    assert_eq!(link.state(), LongLinkResponse::Checkidentify);
}

#[test]
fn frame_on_the_connected_link_is_delivered() {
    let mut link = connected_link();
    let actions = link.step(received(&frame_bytes(100, 5, 6, &[7, 8])));
    assert_eq!(actions.len(), 1);
    assert_eq!(frame_of(&actions[0]), (false, 5, 6, vec![7, 8]));
    assert_eq!(link.state(), LongLinkResponse::Connected);
}

#[test]
fn frames_of_one_read_come_out_in_wire_order() {
    let mut link = connected_link();
    let mut bytes = frame_bytes(100, 1, 11, &[1]);
    bytes.extend_from_slice(&frame_bytes(100, 2, 22, &[]));
    bytes.extend_from_slice(&frame_bytes(100, 3, 33, &[3, 3, 3]));
    bytes.extend_from_slice(&frame_bytes(100, 4, 44, &[4])[..10]);
    let actions = link.step(received(&bytes));
    assert_eq!(actions.len(), 3);
    assert_eq!(frame_of(&actions[0]), (false, 1, 11, vec![1]));
    assert_eq!(frame_of(&actions[1]), (false, 2, 22, vec![]));
    assert_eq!(frame_of(&actions[2]), (false, 3, 33, vec![3, 3, 3]));
    let actions = link.step(received(&frame_bytes(100, 4, 44, &[4])[10..]));
    assert_eq!(actions.len(), 1);
    assert_eq!(frame_of(&actions[0]), (false, 4, 44, vec![4]));
}

#[test]
fn frame_split_over_many_reads_comes_out_once_it_is_whole() {
    let mut link = connected_link();
    let bytes = frame_bytes(100, 77, 88, &[1, 2, 3, 4, 5]);
    for k in 0..bytes.len() - 1 {
        let actions = link.step(received(&[bytes[k]]));
        assert_eq!(actions.len(), 0);
        assert_eq!(link.state(), LongLinkResponse::Connected);
    }
    let actions = link.step(received(&[bytes[bytes.len() - 1]]));
    assert_eq!(actions.len(), 1);
    assert_eq!(frame_of(&actions[0]), (false, 77, 88, vec![1, 2, 3, 4, 5]));
    let again = link.step(received(&bytes));
    assert_eq!(again.len(), 1);
    assert_eq!(frame_of(&again[0]), (false, 77, 88, vec![1, 2, 3, 4, 5]));
}

#[test]
fn frame_of_another_version_ends_the_link_behind_the_frames_before_it() {
    let mut link = connected_link();
    let mut bytes = frame_bytes(100, 1, 11, &[1]);
    bytes.extend_from_slice(&frame_bytes(101, 2, 22, &[2]));
    bytes.extend_from_slice(&frame_bytes(100, 3, 33, &[3]));
    let actions = link.step(received(&bytes));
    assert_eq!(actions.len(), 3);
    assert_eq!(frame_of(&actions[0]), (false, 1, 11, vec![1]));
    assert!(is_report(&actions[1], LongLinkResponse::Disconnected));
    assert!(matches!(actions[2], LongLinkAction::Stop));
    assert_eq!(link.state(), LongLinkResponse::Disconnected);
    assert_eq!(link.step(received(&frame_bytes(100, 3, 33, &[3]))).len(), 0);
}

#[test]
fn bad_version_fails_as_soon_as_the_header_is_there() {
    let mut link = live_link();
    let bytes = frame_bytes(7, 1, 2, &[1, 2, 3]);
    assert_eq!(link.step(received(&bytes[..13])).len(), 0);
    let actions = link.step(received(&bytes[13..14]));
    assert_eq!(actions.len(), 2);
    assert!(is_report(&actions[0], LongLinkResponse::Disconnected));
    assert_eq!(link.state(), LongLinkResponse::Disconnected);
}

#[test]
fn read_of_no_bytes_ends_the_link() {
    let mut link = connected_link();
    let bytes = frame_bytes(100, 1, 2, &[3, 4]);
    assert_eq!(link.step(received(&bytes[..15])).len(), 0);
    let actions = link.step(received(&[]));
    assert_eq!(actions.len(), 2);
    assert!(is_report(&actions[0], LongLinkResponse::Disconnected));
    assert!(matches!(actions[1], LongLinkAction::Stop));
    assert_eq!(link.state(), LongLinkResponse::Disconnected);
    assert_eq!(link.step(received(&bytes[15..])).len(), 0);

    let mut fresh = live_link();
    let buffer = fresh.read_buffer();
    let actions = fresh.step(LongLinkEvent::Received(buffer));
    assert_eq!(actions.len(), 2);
    assert!(is_report(&actions[0], LongLinkResponse::Disconnected));
    assert_eq!(fresh.state(), LongLinkResponse::Disconnected);
}

#[test]
fn failed_read_ends_the_link() {
    let mut link = live_link();
    let actions = link.step(LongLinkEvent::ReadFailed);
    assert_eq!(actions.len(), 2);
    assert!(is_report(&actions[0], LongLinkResponse::Disconnected));
    assert!(matches!(actions[1], LongLinkAction::Stop));
    assert_eq!(link.state(), LongLinkResponse::Disconnected);
}

#[test]
fn bytes_behind_a_frame_wait_for_the_rest_of_theirs() {
    let mut link = connected_link();
    let mut bytes = frame_bytes(100, 1, 11, &[1]);
    bytes.extend_from_slice(&frame_bytes(100, 2, 22, &[2, 2]));
    let actions = link.step(received(&bytes[..20]));
    assert_eq!(actions.len(), 1);
    assert_eq!(frame_of(&actions[0]), (false, 1, 11, vec![1]));
    let actions = link.step(received(&bytes[20..]));
    assert_eq!(actions.len(), 1);
    assert_eq!(frame_of(&actions[0]), (false, 2, 22, vec![2, 2]));
}

#[test]
fn large_payload_passes_through_the_engine() {
    let mut link = connected_link();
    let mut payload = Vec::with_capacity(65535);
    for i in 0..65535usize {
        payload.push((i % 241) as u8);
    }
    let bytes = frame_bytes(100, 9, 9, &payload);
    let actions = link.step(received(&bytes[..40000]));
    assert_eq!(actions.len(), 0);
    let actions = link.step(received(&bytes[40000..]));
    assert_eq!(actions.len(), 1);
    assert_eq!(frame_of(&actions[0]), (false, 9, 9, payload));
}
