use aligned_array::Aligned;
use rust_can_bindings::cansocket::{BinaryModel, CanFrame};
use rust_can_bindings::isotp::{link_frame, FrameType, IsoTPFrame, IsoTPSocket};
use rust_can_bindings::segment::{
    decode, decode_payload, separation_pause, FlowControlFrame, FlowControlType, FrameTypeValue,
    Segment,
};

#[test]
fn can_frame_new_is_empty() {
    let frame = CanFrame::new(0x143, 2);
    assert_eq!(frame.can_id, 0x143);
    assert_eq!(frame.can_dlc, 2);
    assert_eq!(*frame.data, [0u8; 8]);
}

#[test]
fn can_frame_with_data_pads_with_zeros() {
    let frame = CanFrame::new(0x700, 3).with_data(vec![9, 8, 7]);
    assert_eq!(frame.can_id, 0x700);
    assert_eq!(frame.can_dlc, 3);
    assert_eq!(*frame.data, [9, 8, 7, 0, 0, 0, 0, 0]);
    assert_eq!(frame.payload_bytes(), vec![9, 8, 7]);
}

#[test]
fn can_frame_payload_of_full_frame() {
    let frame = CanFrame::new(1, 8).with_data(vec![1, 2, 3, 4, 5, 6, 7, 8]);
    assert_eq!(frame.payload_bytes(), vec![1, 2, 3, 4, 5, 6, 7, 8]);
    let odd = CanFrame { can_id: 1, can_dlc: 200, data: Aligned([1, 2, 3, 4, 5, 6, 7, 8]) };
    assert_eq!(odd.payload_bytes(), vec![1, 2, 3, 4, 5, 6, 7, 8]);
    let empty = CanFrame::new(1, 0);
    assert_eq!(empty.payload_bytes(), Vec::<u8>::new());
}

#[test]
fn binary_model_parses_any_text() {
    let model = BinaryModel::parse("Hello World").unwrap();
    assert_eq!(model.text().as_str(), "Hello World");
    assert_eq!(model.bytes().as_slice(), "Hello World".as_bytes());
    let parsed: BinaryModel = "Hello World".parse().unwrap();
    assert_eq!(parsed.bytes(), model.bytes());
    assert_eq!(*model.convert_to_frame_data(), [b'H', b'e', b'l', b'l', b'o', b' ', b'W', b'o']);
}

#[test]
fn binary_model_convert_to_array_pads() {
    assert_eq!(*BinaryModel::convert_to_array(vec![]), [0u8; 8]);
    assert_eq!(*BinaryModel::convert_to_array(vec![5, 6]), [5, 6, 0, 0, 0, 0, 0, 0]);
    assert_eq!(
        *BinaryModel::convert_to_array(vec![1, 2, 3, 4, 5, 6, 7, 8]),
        [1, 2, 3, 4, 5, 6, 7, 8]
    );
}

#[test]
fn wire_codes() {
    assert_eq!(FrameTypeValue::SINGLE.code(), 0);
    assert_eq!(FrameTypeValue::FIRST.code(), 1);
    assert_eq!(FrameTypeValue::CONSECUTIVE.code(), 2);
    assert_eq!(FrameTypeValue::FLOW.code(), 3);
    assert_eq!(FlowControlType::CONTINUE.code(), 0);
    assert_eq!(FlowControlType::WAIT.code(), 1);
    assert_eq!(FlowControlType::ABORT.code(), 2);
    assert_eq!(FlowControlType::from_u8(0), Some(FlowControlType::CONTINUE));
    assert_eq!(FlowControlType::from_u8(1), Some(FlowControlType::WAIT));
    assert_eq!(FlowControlType::from_u8(2), Some(FlowControlType::ABORT));
    assert_eq!(FlowControlType::from_u8(3), None);
    assert_eq!(FlowControlType::from_u8(15), None);
}

#[test]
fn separation_time_codes() {
    let socket = IsoTPSocket::new(0x700, 0x600);
    assert_eq!(socket.calc_sleep_dur(0x64), 100_000);
    assert_eq!(socket.calc_sleep_dur(0xF5), 500);
    assert_eq!(socket.calc_sleep_dur(0xFA), 0);
    assert_eq!(separation_pause(0), 0);
    assert_eq!(separation_pause(1), 1_000);
    assert_eq!(separation_pause(127), 127_000);
    assert_eq!(separation_pause(128), 0);
    assert_eq!(separation_pause(0xF0), 0);
    assert_eq!(separation_pause(0xF1), 100);
    assert_eq!(separation_pause(0xF9), 900);
    assert_eq!(separation_pause(0xFF), 0);
}

#[test]
fn single_segment_bytes() {
    let message = IsoTPFrame::new(vec![0xAA, 0xBB, 0xCC]);
    assert_eq!(message.size, 3);
    assert_eq!(message.idx, 0);
    assert_eq!(message.create_sf(), vec![0x03, 0xAA, 0xBB, 0xCC]);
    assert_eq!(IsoTPFrame::new(vec![]).create_sf(), vec![0x00]);
    assert_eq!(
        IsoTPFrame::new(vec![1, 2, 3, 4, 5, 6, 7]).create_sf(),
        vec![0x07, 1, 2, 3, 4, 5, 6, 7]
    );
}

#[test]
fn first_segment_bytes() {
    let mut message = IsoTPFrame::new((0u8..20).collect());
    assert_eq!(message.create_ff(), vec![0x10, 0x14, 0, 1, 2, 3, 4]);
    assert_eq!(message.data, (5u8..20).collect::<Vec<u8>>());
    assert_eq!(message.size, 20);
    assert_eq!(message.idx, 0);

    let mut longest = IsoTPFrame::new(vec![7u8; 4095]);
    assert_eq!(longest.create_ff(), vec![0x1F, 0xFF, 7, 7, 7, 7, 7]);
    assert_eq!(longest.data.len(), 4090);

    let mut mid = IsoTPFrame::new(vec![1u8; 0x123]);
    assert_eq!(mid.create_ff(), vec![0x11, 0x23, 1, 1, 1, 1, 1]);
}

#[test]
fn consecutive_segment_bytes() {
    let mut message = IsoTPFrame { data: (5u8..20).collect(), size: 20, idx: 0 };
    assert_eq!(message.create_cf(), vec![0x20, 5, 6, 7, 8, 9, 10]);
    assert_eq!(message.idx, 1);
    assert_eq!(message.create_cf(), vec![0x21, 11, 12, 13, 14, 15, 16]);
    assert_eq!(message.create_cf(), vec![0x22, 17, 18, 19]);
    assert_eq!(message.idx, 3);
    assert!(message.data.is_empty());
    assert_eq!(message.size, 20);
}

#[test]
fn consecutive_number_wraps_after_fifteen() {
    let mut message = IsoTPFrame { data: vec![1u8; 12], size: 200, idx: 15 };
    assert_eq!(message.create_cf(), vec![0x2F, 1, 1, 1, 1, 1, 1]);
    assert_eq!(message.idx, 0);
    assert_eq!(message.create_cf(), vec![0x20, 1, 1, 1, 1, 1, 1]);
    assert_eq!(message.idx, 1);
}

#[test]
fn flow_control_bytes() {
    let grant = FlowControlFrame::new(0, 0, 20);
    assert_eq!(grant.frame_type, FrameTypeValue::FLOW);
    assert_eq!(grant.transfer_allowed, Some(FlowControlType::CONTINUE));
    assert_eq!(grant.encode(), Some(vec![0x30, 0, 20]));
    assert_eq!(FlowControlFrame::new(1, 4, 0xF2).encode(), Some(vec![0x31, 4, 0xF2]));
    assert_eq!(FlowControlFrame::new(2, 0, 0).encode(), Some(vec![0x32, 0, 0]));
    let unknown = FlowControlFrame::new(7, 1, 2);
    assert_eq!(unknown.transfer_allowed, None);
    assert_eq!(unknown.block_size, 1);
    assert_eq!(unknown.seperation_time, 2);
    assert_eq!(unknown.encode(), None);
    let message = IsoTPFrame::from_flow_control(grant);
    assert_eq!(message.data, vec![0x30, 0, 20]);
    assert_eq!(message.size, 3);
}

#[test]
fn decode_single() {
    match decode_payload(&vec![0x03, 1, 2, 3]) {
        Some(Segment::Single(sf)) => {
            assert_eq!(sf.size, 3);
            assert_eq!(sf.data, vec![1, 2, 3]);
        }
        other => panic!("unexpected {:?}", other),
    }
    match decode_payload(&vec![0x02, 1, 2, 0, 0, 0, 0, 0]) {
        Some(Segment::Single(sf)) => assert_eq!(sf.data, vec![1, 2]),
        other => panic!("unexpected {:?}", other),
    }
    match decode_payload(&vec![0x00]) {
        Some(Segment::Single(sf)) => assert!(sf.data.is_empty()),
        other => panic!("unexpected {:?}", other),
    }
}

#[test]
fn decode_first_reads_twelve_bit_length() {
    match decode_payload(&vec![0x1F, 0xFF, 1, 2, 3, 4, 5]) {
        Some(Segment::First(ff)) => {
            assert_eq!(ff.size, 4095);
            assert_eq!(ff.data, vec![1, 2, 3, 4, 5]);
        }
        other => panic!("unexpected {:?}", other),
    }
    match decode_payload(&vec![0x10, 0x14, 1, 2, 3, 4, 5, 0]) {
        Some(Segment::First(ff)) => {
            assert_eq!(ff.size, 20);
            assert_eq!(ff.data, vec![1, 2, 3, 4, 5]);
        }
        other => panic!("unexpected {:?}", other),
    }
    match decode_payload(&vec![0x12, 0x01, 1, 2, 3, 4, 5]) {
        Some(Segment::First(ff)) => assert_eq!(ff.size, 513),
        other => panic!("unexpected {:?}", other),
    }
}

#[test]
fn decode_consecutive() {
    match decode_payload(&vec![0x2A, 1, 2, 3]) {
        Some(Segment::Consecutive(cf)) => {
            assert_eq!(cf.idx, 10);
            assert_eq!(cf.data, vec![1, 2, 3]);
        }
        other => panic!("unexpected {:?}", other),
    }
    match decode_payload(&vec![0x20, 1, 2, 3, 4, 5, 6, 7]) {
        Some(Segment::Consecutive(cf)) => {
            assert_eq!(cf.idx, 0);
            assert_eq!(cf.data, vec![1, 2, 3, 4, 5, 6]);
        }
        other => panic!("unexpected {:?}", other),
    }
    match decode_payload(&vec![0x21]) {
        Some(Segment::Consecutive(cf)) => assert!(cf.data.is_empty()),
        other => panic!("unexpected {:?}", other),
    }
}

#[test]
fn decode_flow_control_keeps_unknown_status() {
    match decode_payload(&vec![0x30, 2, 0x64]) {
        Some(Segment::FlowControl(fc)) => {
            assert_eq!(fc.transfer_allowed, Some(FlowControlType::CONTINUE));
            assert_eq!(fc.block_size, 2);
            assert_eq!(fc.seperation_time, 0x64);
        }
        other => panic!("unexpected {:?}", other),
    }
    match decode_payload(&vec![0x32, 0, 0]) {
        Some(Segment::FlowControl(fc)) => {
            assert_eq!(fc.transfer_allowed, Some(FlowControlType::ABORT))
        }
        other => panic!("unexpected {:?}", other),
    }
    match decode_payload(&vec![0x35, 9, 8]) {
        Some(Segment::FlowControl(fc)) => {
            assert_eq!(fc.transfer_allowed, None);
            assert_eq!(fc.block_size, 9);
            assert_eq!(fc.seperation_time, 8);
        }
        other => panic!("unexpected {:?}", other),
    }
}

#[test]
fn decode_refuses_malformed_payloads() {
    assert!(decode_payload(&vec![]).is_none());
    assert!(decode_payload(&vec![0x40, 1, 2]).is_none());
    assert!(decode_payload(&vec![0xF0]).is_none());
    assert!(decode_payload(&vec![0x08, 1, 2, 3, 4, 5, 6, 7]).is_none());
    assert!(decode_payload(&vec![0x03, 1, 2]).is_none());
    assert!(decode_payload(&vec![0x10, 0x14, 1, 2, 3, 4]).is_none());
    assert!(decode_payload(&vec![0x30, 0]).is_none());
}

#[test]
fn decode_goes_by_the_length_indicator() {
    let frame = CanFrame { can_id: 5, can_dlc: 4, data: Aligned([0x22, 1, 2, 3, 9, 9, 9, 9]) };
    match decode(&frame) {
        Some(Segment::Consecutive(cf)) => {
            assert_eq!(cf.idx, 2);
            assert_eq!(cf.data, vec![1, 2, 3]);
        }
        other => panic!("unexpected {:?}", other),
    }
    assert!(decode(&CanFrame::new(5, 0)).is_none());
}

#[test]
fn link_frame_carries_bytes() {
    let frame = link_frame(0x700, vec![0x30, 0, 20]);
    assert_eq!(frame, CanFrame { can_id: 0x700, can_dlc: 3, data: Aligned([0x30, 0, 20, 0, 0, 0, 0, 0]) });
}

#[test]
fn frame_type_into_can() {
    let (frame, rest) = FrameType::SingleFrame(IsoTPFrame::new(vec![1, 2])).into_can(0x700);
    assert_eq!(frame, CanFrame { can_id: 0x700, can_dlc: 3, data: Aligned([0x02, 1, 2, 0, 0, 0, 0, 0]) });
    assert_eq!(rest.data, vec![1, 2]);

    let (frame, rest) = FrameType::FirstFrame(IsoTPFrame::new((0u8..9).collect())).into_can(0x701);
    assert_eq!(frame, CanFrame { can_id: 0x701, can_dlc: 7, data: Aligned([0x10, 9, 0, 1, 2, 3, 4, 0]) });
    assert_eq!(rest.data, vec![5, 6, 7, 8]);
    assert_eq!(rest.idx, 0);

    let (frame, rest) = FrameType::ConsecutiveFrame(rest).into_can(0x701);
    assert_eq!(frame, CanFrame { can_id: 0x701, can_dlc: 5, data: Aligned([0x20, 5, 6, 7, 8, 0, 0, 0]) });
    assert!(rest.data.is_empty());
    assert_eq!(rest.idx, 1);
    assert_eq!(rest.size, 9);

    let grant = IsoTPFrame::from_flow_control(FlowControlFrame::new(0, 0, 20));
    let (frame, rest) = FrameType::FlowControlFrame(grant).into_can(0x702);
    assert_eq!(frame, CanFrame { can_id: 0x702, can_dlc: 3, data: Aligned([0x30, 0, 20, 0, 0, 0, 0, 0]) });
    assert_eq!(rest.data, vec![0x30, 0, 20]);
}

#[test]
fn message_from_can_frame() {
    let frame = CanFrame::new(3, 4).with_data(vec![1, 2, 3, 4]);
    let message = IsoTPFrame::from_can(&frame);
    assert_eq!(message.data, vec![1, 2, 3, 4]);
    assert_eq!(message.size, 4);
    assert_eq!(message.idx, 0);
}
