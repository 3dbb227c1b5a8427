use cands_cyphal::correlator::{judge, read_results, read_status, PendingRequest, RxData, Verdict};
use cands_cyphal::frame::{Frame, Props, TransferKind};

fn props(port_id: u16) -> Props {
    Props {
        priority: 4,
        transfer_kind: TransferKind::Message,
        transfer_id: 0,
        port_id,
        source_node_id: 1,
        destination_node_id: 255,
    }
}

fn frame(bytes: &[u8]) -> Frame {
    Frame { xid: 1, payload: bytes.to_vec(), payload_size: bytes.len(), props: props(0x87) }
}

fn result(data: u8) -> RxData {
    RxData { data, props: props(0x87) }
}

#[test]
fn results_are_first_bytes_in_order() {
    assert_eq!(read_results(&vec![]), vec![]);
    assert_eq!(
        read_results(&vec![frame(&[5, 6]), frame(&[]), frame(&[7])]),
        vec![result(5), result(7)]
    );
}

#[test]
fn status_is_the_newest_first_byte() {
    assert_eq!(read_status(&vec![]), 0xFF);
    assert_eq!(read_status(&vec![frame(&[])]), 0xFF);
    assert_eq!(read_status(&vec![frame(&[1]), frame(&[2, 9]), frame(&[])]), 2);
}

#[test]
fn response_wins_over_the_deadline() {
    assert_eq!(judge(&vec![result(0)], 0, 10, 100), Verdict::Accepted);
    assert_eq!(judge(&vec![result(0), result(0)], 0, 500, 100), Verdict::Accepted);
    assert_eq!(judge(&vec![result(7)], 7, 100, 100), Verdict::Accepted);
}

#[test]
fn without_a_matching_response_the_deadline_decides() {
    assert_eq!(judge(&vec![], 0, 99, 100), Verdict::Pending);
    assert_eq!(judge(&vec![], 0, 100, 100), Verdict::TimedOut);
    assert_eq!(judge(&vec![result(1), result(2)], 0, 10, 100), Verdict::Pending);
    assert_eq!(judge(&vec![result(1)], 0, 101, 100), Verdict::TimedOut);
}

#[test]
fn one_accepted_result_among_others_is_enough() {
    assert_eq!(judge(&vec![result(0), result(1)], 0, 10, 100), Verdict::Accepted);
    assert_eq!(judge(&vec![result(1), result(0)], 0, 10, 100), Verdict::Accepted);
    assert_eq!(judge(&vec![result(1), result(0), result(2)], 0, 100, 100), Verdict::Accepted);
    assert_eq!(judge(&vec![result(3), result(4), result(5)], 5, 7, 8), Verdict::Accepted);
}

#[test]
fn new_request_is_pending() {
    let pending = PendingRequest::new(4, 250);
    assert_eq!(pending, PendingRequest { channel: 4, deadline: 250, verdict: Verdict::Pending });
    assert_eq!(pending.outcome(), None);
}
