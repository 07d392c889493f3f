use wl_mouse::consts::{REPORT_SIZE, RESPONSE_OK, RESPONSE_SLEEPING};
use wl_mouse::report::build_get_battery;
use wl_mouse::transport::{frame_report, probe_step, recv_step, unframe_response, ProbeStep, RecvStep};

fn report(bytes: &[(usize, u8)]) -> [u8; REPORT_SIZE] {
    let mut r = [0u8; REPORT_SIZE];
    for &(i, b) in bytes {
        r[i] = b;
    }
    r
}

#[test]
fn framing_prefixes_report_id() {
    let req = build_get_battery();
    let frame = frame_report(&req);
    assert_eq!(frame.len(), REPORT_SIZE + 1);
    assert_eq!(frame[0], 0);
    assert_eq!(&frame[1..], &req[..]);
}

#[test]
fn frame_round_trip_on_values() {
    let req = report(&[(2, 2), (5, 0x83), (63, 9)]);
    assert_eq!(unframe_response(&frame_report(&req)), req);
}

#[test]
fn accepted_response() {
    let resp = report(&[(1, RESPONSE_OK), (5, 0x83)]);
    assert_eq!(recv_step(0, &resp, 0, 0x83), RecvStep::Accept);
    let resp = report(&[(0, RESPONSE_OK), (5, 0x83)]);
    assert_eq!(recv_step(3, &resp, 1, 0x83), RecvStep::Accept);
}

#[test]
fn sleeping_mouse_is_retried() {
    let resp = report(&[(1, RESPONSE_SLEEPING)]);
    assert_eq!(recv_step(0, &resp, 0, 0x83), RecvStep::Retry { announce: true, pause_ms: 500 });
    assert_eq!(recv_step(1, &resp, 0, 0x83), RecvStep::Retry { announce: false, pause_ms: 500 });
    let echo_other = report(&[(1, RESPONSE_OK), (5, 0x81)]);
    assert_eq!(recv_step(0, &echo_other, 0, 0x83), RecvStep::Retry { announce: true, pause_ms: 500 });
}

#[test]
fn silent_mouse_is_retried_then_given_up() {
    let resp = report(&[]);
    assert_eq!(recv_step(0, &resp, 0, 0x83), RecvStep::Retry { announce: false, pause_ms: 50 });
    assert_eq!(recv_step(8, &resp, 0, 0x83), RecvStep::Retry { announce: false, pause_ms: 50 });
    assert_eq!(recv_step(9, &resp, 0, 0x83), RecvStep::GiveUp { announce: false, pause_ms: 0 });
    let asleep = report(&[(0, RESPONSE_SLEEPING)]);
    assert_eq!(recv_step(9, &asleep, 1, 0x83), RecvStep::GiveUp { announce: false, pause_ms: 500 });
}

#[test]
fn probing_the_hid_index() {
    assert_eq!(probe_step(0, &report(&[(0, RESPONSE_OK)])), ProbeStep::Found(1));
    assert_eq!(probe_step(0, &report(&[(1, RESPONSE_OK)])), ProbeStep::Found(0));
    assert_eq!(
        probe_step(0, &report(&[(1, RESPONSE_SLEEPING)])),
        ProbeStep::Retry { announce: true, pause_ms: 500 }
    );
    assert_eq!(probe_step(4, &report(&[])), ProbeStep::Retry { announce: false, pause_ms: 0 });
    assert_eq!(probe_step(9, &report(&[])), ProbeStep::GiveUp { announce: false, pause_ms: 0 });
}
