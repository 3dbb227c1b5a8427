use cands_cyphal::assembler::IntegrityError;
use cands_cyphal::correlator::{PendingRequest, RequestError, RxData, Verdict};
use cands_cyphal::frame::{FrameRole, Packet, Props, TransferKind, TxPacket};
use cands_cyphal::interface::{CANInterface, Config, LoadError};
use cands_cyphal::session::EncodeError;

fn config() -> Config {
    Config {
        node_id: 127,
        message_subject: 0x488,
        command_service: 0x80,
        set_value_service: 0x81,
        get_value_service: 0x82,
        result_port: 0x87,
        accepted_code: 0,
    }
}

fn raw(fragments: &[TxPacket]) -> Vec<u8> {
    let mut out = Vec::new();
    for f in fragments {
        out.extend_from_slice(&f.xid.to_le_bytes());
        let dlc = cands_transport::cyphal::CAN_DLEN_TO_DLC[f.payload_size] as u32;
        out.extend_from_slice(&(dlc << 16).to_le_bytes());
        out.extend_from_slice(&f.payload);
    }
    out
}

fn single(port_id: u16, bytes: &[u8]) -> Packet {
    Packet {
        xid: 1,
        payload: bytes.to_vec(),
        payload_size: bytes.len(),
        props: Props {
            priority: 4,
            transfer_kind: TransferKind::Message,
            transfer_id: 0,
            port_id,
            source_node_id: 3,
            destination_node_id: 255,
        },
        role: FrameRole::Single,
    }
}

#[test]
fn new_interface_is_empty_and_seeded() {
    let can = CANInterface::new(config(), 1000 * 32 + 5);
    assert_eq!(can.session.transfer_id(), 5);
    assert_eq!(can.config, config());
    assert!(can.assembler.complete().is_empty());
    assert!(can.assembler.incomplete().is_empty());
}

#[test]
fn init_resets_queues_and_seeds_again() {
    let mut can = CANInterface::new(config(), 5);
    can.ingest(&vec![single(1, &[1])]).unwrap();
    can.init(17);
    assert_eq!(can.session.transfer_id(), 17);
    assert!(can.assembler.complete().is_empty());
}

#[test]
fn rolling_identifier_after_forty_calls() {
    let mut can = CANInterface::new(config(), 5);
    for _ in 0..40 {
        can.next_transfer_id();
    }
    assert_eq!(can.session.transfer_id(), 13);
}

#[test]
fn message_in_one_fragment() {
    let mut can = CANInterface::new(config(), 5);
    let out = can.build_message(0x488, &[1, 2, 3]).unwrap();
    assert_eq!(out.len(), 1);
    assert_eq!(out[0].xid, (4 << 26) | ((0x488 | 0x2000 | 0x4000) << 8) | 127);
    assert_eq!(out[0].payload_size, 4);
    assert_eq!(out[0].payload.len(), 64);
    assert_eq!(&out[0].payload[..4], &[1, 2, 3, 0x80 | 0x40 | 0x20 | 5]);
    assert_eq!(can.session.transfer_id(), 6);
}

#[test]
fn request_and_response_identifiers() {
    let mut can = CANInterface::new(config(), 31);
    let request = can.build_request(0x81, 3, &[9]).unwrap();
    let service = 127 | (3 << 7) | (0x81 << 14) | (1 << 25) | (4 << 26);
    assert_eq!(request[0].xid, service | (1 << 24));
    assert_eq!(request[0].payload[1], 0xE0 | 31);
    let response = can.build_response(0x81, 3, &[9]).unwrap();
    assert_eq!(response[0].xid, service);
    assert_eq!(response[0].payload[1], 0xE0);
    assert_eq!(can.session.transfer_id(), 1);
}

#[test]
fn get_value_request_names_the_key() {
    let mut can = CANInterface::new(config(), 2);
    let out = can.build_get_value(9, "gain").unwrap();
    assert_eq!(out.len(), 1);
    assert_eq!(out[0].xid, 127 | (9 << 7) | (0x82 << 14) | (1 << 24) | (1 << 25) | (4 << 26));
    assert_eq!(&out[0].payload[..6], &[4, b'g', b'a', b'i', b'n', 0xE0 | 2]);
    assert_eq!(can.session.transfer_id(), 3);
}

#[test]
fn rejected_identifiers_give_an_encode_error() {
    let mut can = CANInterface::new(config(), 5);
    assert_eq!(can.build_message(8192, &[1]), Err(EncodeError {}));
    assert_eq!(can.build_request(0x81, 128, &[1]), Err(EncodeError {}));
    assert_eq!(can.build_response(512, 1, &[1]), Err(EncodeError {}));
    assert_eq!(can.session.transfer_id(), 8);
}

#[test]
fn single_fragment_comes_back_through_the_decoder() {
    let mut tx = CANInterface::new(config(), 5);
    let mut rx = CANInterface::new(config(), 0);
    let out = tx.build_message(0x488, &[10, 20, 30]).unwrap();
    assert_eq!(rx.load_frames_from_buffer(&raw(&out)), Ok(()));
    let frames = rx.assembler.complete();
    assert_eq!(frames.len(), 1);
    assert_eq!(frames[0].xid, out[0].xid);
    assert_eq!(frames[0].payload_size, 3);
    assert_eq!(&frames[0].payload[..3], &[10, 20, 30]);
    assert_eq!(
        frames[0].props,
        Props {
            priority: 4,
            transfer_kind: TransferKind::Message,
            transfer_id: 5,
            port_id: 0x488,
            source_node_id: 127,
            destination_node_id: 255,
        }
    );
    assert!(rx.assembler.incomplete().is_empty());
}

#[test]
fn long_message_comes_back_whole() {
    let mut tx = CANInterface::new(config(), 5);
    let mut rx = CANInterface::new(config(), 0);
    let payload: Vec<u8> = (0..150u32).map(|i| (i * 7 + 1) as u8).collect();
    let out = tx.build_request(0x81, 4, &payload).unwrap();
    assert_eq!(out.len(), 3);
    assert_eq!(rx.load_frames_from_buffer(&raw(&out)), Ok(()));
    let frames = rx.assembler.complete();
    assert_eq!(frames.len(), 1);
    let mut expected = payload.clone();
    expected.extend_from_slice(&[0; 5]);
    assert_eq!(frames[0].payload, expected);
    assert_eq!(frames[0].payload_size, 155);
    assert_eq!(frames[0].props.port_id, 0x81);
    assert_eq!(frames[0].props.transfer_kind, TransferKind::Request);
    assert_eq!(frames[0].props.source_node_id, 127);
    assert_eq!(frames[0].props.destination_node_id, 4);
    assert!(rx.assembler.incomplete().is_empty());
}

#[test]
fn fragments_split_over_two_batches() {
    let mut tx = CANInterface::new(config(), 5);
    let mut rx = CANInterface::new(config(), 0);
    let payload: Vec<u8> = (0..100u8).collect();
    let out = tx.build_response(0x80, 4, &payload).unwrap();
    assert_eq!(out.len(), 2);
    assert_eq!(rx.load_frames_from_buffer(&raw(&out[..1])), Ok(()));
    assert!(rx.assembler.complete().is_empty());
    assert_eq!(rx.assembler.incomplete().len(), 1);
    assert_eq!(rx.assembler.incomplete()[0].payload, payload[..63].to_vec());
    assert_eq!(rx.load_frames_from_buffer(&raw(&out[1..])), Ok(()));
    assert_eq!(rx.assembler.complete().len(), 1);
    assert_eq!(&rx.assembler.complete()[0].payload[..100], &payload[..]);
    assert_eq!(rx.assembler.complete()[0].payload_size, 108);
    assert!(rx.assembler.incomplete().is_empty());
}

#[test]
fn corrupted_fragment_gives_an_integrity_error() {
    let mut tx = CANInterface::new(config(), 5);
    let mut rx = CANInterface::new(config(), 0);
    let payload: Vec<u8> = (0..100u8).collect();
    let out = tx.build_message(0x488, &payload).unwrap();
    let mut bytes = raw(&out);
    bytes[8 + 10] ^= 0xFF;
    assert_eq!(
        rx.load_frames_from_buffer(&bytes),
        Err(LoadError::Integrity(IntegrityError { identifier: out[0].xid, port_id: 0x488 }))
    );
    assert!(rx.assembler.complete().is_empty());
    assert!(rx.assembler.incomplete().is_empty());
}

#[test]
fn batch_of_wrong_length_gives_a_decode_error() {
    let mut can = CANInterface::new(config(), 5);
    can.ingest(&vec![single(1, &[1])]).unwrap();
    assert_eq!(can.load_frames_from_buffer(&[0u8; 71]), Err(LoadError::Decode));
    assert_eq!(can.load_frames_from_buffer(&[0u8; 73]), Err(LoadError::Decode));
    assert_eq!(can.assembler.complete().len(), 1);
}

#[test]
fn fragment_without_tail_byte_gives_a_decode_error() {
    let mut tx = CANInterface::new(config(), 5);
    let mut rx = CANInterface::new(config(), 0);
    let out = tx.build_message(0x488, &[1, 2, 3]).unwrap();
    let mut bytes = raw(&out);
    bytes.extend_from_slice(&[0u8; 72]);
    assert_eq!(rx.load_frames_from_buffer(&bytes), Err(LoadError::Decode));
    assert!(rx.assembler.complete().is_empty());
}

#[test]
fn empty_batch_changes_nothing() {
    let mut can = CANInterface::new(config(), 5);
    assert_eq!(can.load_frames_from_buffer(&[]), Ok(()));
    assert!(can.assembler.complete().is_empty());
}

#[test]
fn results_are_taken_from_the_result_port() {
    let mut can = CANInterface::new(config(), 5);
    let batch = vec![single(0x87, &[0, 9]), single(0x80, &[7]), single(0x87, &[]), single(0x87, &[2])];
    can.ingest(&batch).unwrap();
    let found = can.get_result().unwrap();
    assert_eq!(
        found,
        vec![RxData { data: 0, props: batch[0].props }, RxData { data: 2, props: batch[3].props }]
    );
    assert_eq!(can.assembler.complete().len(), 1);
    assert_eq!(can.assembler.complete()[0].props.port_id, 0x80);
    assert_eq!(can.get_result(), None);
}

#[test]
fn general_status_is_the_newest_first_byte() {
    let mut can = CANInterface::new(config(), 5);
    assert_eq!(can.get_digitalservo_general_status(), 0xFF);
    can.ingest(&vec![single(0x87, &[3]), single(0x80, &[7]), single(0x87, &[4, 1]), single(0x87, &[])]).unwrap();
    assert_eq!(can.get_digitalservo_general_status(), 4);
    assert_eq!(can.assembler.complete().len(), 1);
    assert_eq!(can.get_digitalservo_general_status(), 0xFF);
}

#[test]
fn key_value_frames_are_read_in_order_and_stay() {
    let mut can = CANInterface::new(config(), 5);
    can.ingest(&vec![single(0x488, &[1]), single(0x87, &[2]), single(0x81, &[3]), single(0x80, &[4])]).unwrap();
    let before = can.assembler.complete().clone();
    let frames = can.key_value_frames();
    assert_eq!(frames, vec![before[0].clone(), before[2].clone(), before[3].clone()]);
    assert_eq!(can.assembler.complete(), &before);
    assert_eq!(can.key_value_frames(), frames);
}

#[test]
fn key_value_frames_leave_when_dropped() {
    let mut can = CANInterface::new(config(), 5);
    can.ingest(&vec![single(0x488, &[1]), single(0x87, &[2]), single(0x81, &[3]), single(0x80, &[4])]).unwrap();
    can.ingest(&vec![Packet { role: FrameRole::Start, ..single(0x80, &[9]) }]).unwrap();
    can.drop_key_value();
    assert_eq!(can.assembler.complete().len(), 1);
    assert_eq!(can.assembler.complete()[0].payload, vec![2]);
    assert_eq!(can.assembler.incomplete().len(), 1);
    assert!(can.key_value_frames().is_empty());
    can.drop_key_value();
    assert_eq!(can.assembler.complete().len(), 1);
}

#[test]
fn accepted_response_before_the_deadline_is_success() {
    let mut can = CANInterface::new(config(), 5);
    let mut pending = PendingRequest::new(3, 100);
    assert_eq!(can.poll_request(&mut pending, 5), Verdict::Pending);
    assert_eq!(pending.outcome(), None);
    can.ingest(&vec![single(0x87, &[0])]).unwrap();
    assert_eq!(can.poll_request(&mut pending, 10), Verdict::Accepted);
    assert_eq!(pending.outcome(), Some(Ok(())));
    assert!(can.assembler.complete().is_empty());
}

#[test]
fn no_response_times_out_at_the_deadline() {
    let mut can = CANInterface::new(config(), 5);
    let mut pending = PendingRequest::new(3, 100);
    assert_eq!(can.poll_request(&mut pending, 99), Verdict::Pending);
    assert_eq!(can.poll_request(&mut pending, 100), Verdict::TimedOut);
    assert_eq!(pending.outcome(), Some(Err(RequestError::Timeout)));
}

#[test]
fn refused_results_are_removed_and_do_not_settle() {
    let mut can = CANInterface::new(config(), 5);
    let mut pending = PendingRequest::new(3, 100);
    can.ingest(&vec![single(0x87, &[1]), single(0x80, &[0]), single(0x87, &[2])]).unwrap();
    assert_eq!(can.poll_request(&mut pending, 10), Verdict::Pending);
    assert_eq!(can.assembler.complete().len(), 1);
    assert_eq!(can.assembler.complete()[0].props.port_id, 0x80);
    can.ingest(&vec![single(0x87, &[1])]).unwrap();
    assert_eq!(can.poll_request(&mut pending, 150), Verdict::TimedOut);
    assert!(can.assembler.complete().iter().all(|f| f.props.port_id != 0x87));
}

#[test]
fn accepted_result_after_a_refused_one_is_success() {
    let mut can = CANInterface::new(config(), 5);
    let mut pending = PendingRequest::new(3, 100);
    can.ingest(&vec![single(0x87, &[1]), single(0x80, &[0]), single(0x87, &[0])]).unwrap();
    assert_eq!(can.poll_request(&mut pending, 10), Verdict::Accepted);
    assert_eq!(pending.outcome(), Some(Ok(())));
    assert_eq!(can.assembler.complete().len(), 1);
    assert_eq!(can.assembler.complete()[0].props.port_id, 0x80);
    assert_eq!(can.poll_request(&mut pending, 100), Verdict::Accepted);
}

#[test]
fn accepted_code_on_another_port_does_not_settle() {
    let mut can = CANInterface::new(config(), 5);
    let mut pending = PendingRequest::new(3, 100);
    can.ingest(&vec![single(0x80, &[0]), single(0x87, &[])]).unwrap();
    assert_eq!(can.poll_request(&mut pending, 10), Verdict::Pending);
    assert_eq!(can.assembler.complete().len(), 1);
}

#[test]
fn response_at_the_deadline_still_wins() {
    let mut can = CANInterface::new(config(), 5);
    let mut pending = PendingRequest::new(3, 100);
    can.ingest(&vec![single(0x87, &[0])]).unwrap();
    assert_eq!(can.poll_request(&mut pending, 100), Verdict::Accepted);
}

#[test]
fn settled_request_stays_settled() {
    let mut can = CANInterface::new(config(), 5);
    let mut pending = PendingRequest::new(3, 100);
    assert_eq!(can.poll_request(&mut pending, 100), Verdict::TimedOut);
    can.ingest(&vec![single(0x87, &[0])]).unwrap();
    assert_eq!(can.poll_request(&mut pending, 101), Verdict::TimedOut);
    assert_eq!(can.assembler.complete().len(), 1);
}

#[test]
fn fragments_stay_within_the_transfer_unit() {
    let mut can = CANInterface::new(config(), 5);
    for len in [0usize, 1, 7, 62, 63, 64, 100, 126, 200] {
        let payload = vec![0x5Au8; len];
        let out = can.build_message(0x488, &payload).unwrap();
        assert!(!out.is_empty());
        for fragment in &out {
            assert_eq!(fragment.payload.len(), 64);
            assert!(1 <= fragment.payload_size && fragment.payload_size <= 64);
        }
    }
}

#[test]
fn decodable_batch_gives_one_packet_for_each_fragment() {
    let mut tx = CANInterface::new(config(), 5);
    let payload: Vec<u8> = (0..150u8).collect();
    let out = tx.build_message(0x488, &payload).unwrap();
    let packets = cands_cyphal::codec::decode(127, &raw(&out)).unwrap();
    assert_eq!(packets.len(), out.len());
    for packet in &packets {
        assert_eq!(packet.payload.len(), 64);
        assert!(packet.payload_size < 64);
    }
    assert_eq!(packets[0].payload_size, 63);
}
