//! The decisions of the feature-report exchange: how a request goes on the
//! wire, and what to do with each response. The caller sends, waits, reads and
//! loops for at most `MAX_RETRIES` attempts, doing what each step says.

use vstd::prelude::*;

use crate::consts::{MAX_RETRIES, REPORT_ID, REPORT_SIZE, RESPONSE_OK, RESPONSE_SLEEPING};

verus! {

/// A request as sent: the report id, then the report.
pub fn frame_report(data: &[u8; REPORT_SIZE]) -> (frame: Vec<u8>)
    ensures
        frame@ == seq![REPORT_ID] + data@,
{
    let mut frame: Vec<u8> = Vec::new();
    frame.push(REPORT_ID);
    let mut i: usize = 0;
    while i < REPORT_SIZE
        invariant
            i <= REPORT_SIZE,
            frame@ == seq![REPORT_ID] + data@.subrange(0, i as int),
        decreases REPORT_SIZE - i,
    {
        frame.push(data[i]);
        i = i + 1;
        assert(frame@ =~= seq![REPORT_ID] + data@.subrange(0, i as int));
    }
    assert(data@.subrange(0, REPORT_SIZE as int) =~= data@);
    frame
}

/// The report of a response read into a buffer that starts with the report id.
pub fn unframe_response(buf: &[u8]) -> (resp: [u8; REPORT_SIZE])
    requires
        buf@.len() == REPORT_SIZE + 1,
    ensures
        resp@ == buf@.subrange(1, REPORT_SIZE + 1),
{
    let mut resp = [0u8; REPORT_SIZE];
    let mut i: usize = 0;
    while i < REPORT_SIZE
        invariant
            i <= REPORT_SIZE,
            buf@.len() == REPORT_SIZE + 1,
            forall|j: int| 0 <= j < i ==> #[trigger] resp@[j] == buf@[j + 1],
        decreases REPORT_SIZE - i,
    {
        resp[i] = buf[i + 1];
        i = i + 1;
    }
    assert(resp@ =~= buf@.subrange(1, REPORT_SIZE + 1));
    resp
}

/// What to do after reading a response.
#[derive(Debug, Clone, Copy, PartialEq, Eq)]
pub enum RecvStep {
    /// The response answers the request: use it.
    Accept,
    /// Wait `pause_ms` milliseconds and try again; when `announce` is set, tell
    /// the user that the mouse is asleep.
    Retry { announce: bool, pause_ms: u16 },
    /// Wait `pause_ms` milliseconds and give up: no response came.
    GiveUp { announce: bool, pause_ms: u16 },
}

/// The status byte of a response: byte 1 for hid index 0, byte 0 for hid index 1.
pub open spec fn status_byte(resp: Seq<u8>, hid_index: u8) -> u8 {
    resp[1 - hid_index]
}

/// A response that says the mouse is asleep: the sleeping status, or an OK
/// status that answers some other command.
pub open spec fn is_asleep_response(resp: Seq<u8>, hid_index: u8, cmd_byte: u8) -> bool {
    status_byte(resp, hid_index) == RESPONSE_SLEEPING || (status_byte(resp, hid_index) == RESPONSE_OK
        && resp[5] != cmd_byte)
}

/// The step after reading the response to attempt `attempt` (from 0) of a
/// request whose command byte is `cmd_byte`.
pub open spec fn recv_step_of(attempt: u8, resp: Seq<u8>, hid_index: u8, cmd_byte: u8) -> RecvStep {
    if status_byte(resp, hid_index) == RESPONSE_OK && resp[5] == cmd_byte {
        RecvStep::Accept
    } else {
        let asleep = is_asleep_response(resp, hid_index, cmd_byte);
        let announce = asleep && attempt == 0;
        if attempt + 1 < MAX_RETRIES {
            RecvStep::Retry { announce, pause_ms: if asleep { 500 } else { 50 } }
        } else {
            RecvStep::GiveUp { announce, pause_ms: if asleep { 500 } else { 0 } }
        }
    }
}

/// Decides what to do with the response to attempt `attempt` of a request.
pub fn recv_step(attempt: u8, resp: &[u8; REPORT_SIZE], hid_index: u8, cmd_byte: u8) -> (step: RecvStep)
    requires
        attempt < MAX_RETRIES,
        hid_index <= 1,
    ensures
        step == recv_step_of(attempt, resp@, hid_index, cmd_byte),
{
    let status = resp[(1 - hid_index) as usize];
    if status == RESPONSE_OK && resp[5] == cmd_byte {
        return RecvStep::Accept;
    }
    let asleep = status == RESPONSE_SLEEPING || (status == RESPONSE_OK && resp[5] != cmd_byte);
    let announce = asleep && attempt == 0;
    if attempt + 1 < MAX_RETRIES {
        RecvStep::Retry { announce, pause_ms: if asleep { 500 } else { 50 } }
    } else {
        RecvStep::GiveUp { announce, pause_ms: if asleep { 500 } else { 0 } }
    }
}

/// What to do after reading the response to a probe for the hid index.
#[derive(Debug, Clone, Copy, PartialEq, Eq)]
pub enum ProbeStep {
    /// The device answered: this is its hid index.
    Found(u8),
    /// Wait `pause_ms` milliseconds and probe again; when `announce` is set,
    /// tell the user that the mouse is asleep.
    Retry { announce: bool, pause_ms: u16 },
    /// Wait `pause_ms` milliseconds and give up: no response came.
    GiveUp { announce: bool, pause_ms: u16 },
}

/// The step after reading the response to probe `attempt` (from 0): an OK
/// status at byte 0 means hid index 1, at byte 1 hid index 0.
pub open spec fn probe_step_of(attempt: u8, resp: Seq<u8>) -> ProbeStep {
    if resp[0] == RESPONSE_OK {
        ProbeStep::Found(1)
    } else if resp[1] == RESPONSE_OK {
        ProbeStep::Found(0)
    } else {
        let asleep = resp[0] == RESPONSE_SLEEPING || resp[1] == RESPONSE_SLEEPING;
        let announce = asleep && attempt == 0;
        let pause_ms: u16 = if asleep { 500 } else { 0 };
        if attempt + 1 < MAX_RETRIES {
            ProbeStep::Retry { announce, pause_ms }
        } else {
            ProbeStep::GiveUp { announce, pause_ms }
        }
    }
}

/// Decides what to do with the response to probe `attempt` for the hid index.
pub fn probe_step(attempt: u8, resp: &[u8; REPORT_SIZE]) -> (step: ProbeStep)
    requires
        attempt < MAX_RETRIES,
    ensures
        step == probe_step_of(attempt, resp@),
{
    if resp[0] == RESPONSE_OK {
        return ProbeStep::Found(1);
    } else if resp[1] == RESPONSE_OK {
        return ProbeStep::Found(0);
    }
    let asleep = resp[0] == RESPONSE_SLEEPING || resp[1] == RESPONSE_SLEEPING;
    let announce = asleep && attempt == 0;
    let pause_ms: u16 = if asleep { 500 } else { 0 };
    if attempt + 1 < MAX_RETRIES {
        ProbeStep::Retry { announce, pause_ms }
    } else {
        ProbeStep::GiveUp { announce, pause_ms }
    }
}

} // verus!
