//! The frame codec and the flow-control policy: how each kind of transport
//! segment is laid out in the bytes of a link frame, and what a wire-encoded
//! separation time means.

use vstd::prelude::*;
use crate::cansocket::CanFrame;

verus! {

/// The kind of a segment, carried in the high nibble of its first byte.
#[derive(Clone, Copy, Debug, PartialEq, Eq, Structural)]
pub enum FrameTypeValue {
    SINGLE,
    FIRST,
    CONSECUTIVE,
    FLOW,
}

impl FrameTypeValue {
    /// The wire code of the kind.
    pub open spec fn spec_code(self) -> u8 {
        match self {
            FrameTypeValue::SINGLE => 0,
            FrameTypeValue::FIRST => 1,
            FrameTypeValue::CONSECUTIVE => 2,
            FrameTypeValue::FLOW => 3,
        }
    }

    #[verifier::when_used_as_spec(spec_code)]
    pub fn code(self) -> (code: u8)
        ensures
            code == self.spec_code(),
    {
        match self {
            FrameTypeValue::SINGLE => 0,
            FrameTypeValue::FIRST => 1,
            FrameTypeValue::CONSECUTIVE => 2,
            FrameTypeValue::FLOW => 3,
        }
    }
}

/// What a flow-control segment tells the sender to do.
#[derive(Clone, Copy, Debug, PartialEq, Eq, Structural)]
pub enum FlowControlType {
    CONTINUE,
    WAIT,
    ABORT,
}

impl FlowControlType {
    /// The wire code of the status.
    pub open spec fn spec_code(self) -> u8 {
        match self {
            FlowControlType::CONTINUE => 0,
            FlowControlType::WAIT => 1,
            FlowControlType::ABORT => 2,
        }
    }

    /// The status that a wire code stands for, if any.
    pub open spec fn spec_from_u8(code: u8) -> Option<FlowControlType> {
        if code == 0 {
            Some(FlowControlType::CONTINUE)
        } else if code == 1 {
            Some(FlowControlType::WAIT)
        } else if code == 2 {
            Some(FlowControlType::ABORT)
        } else {
            None
        }
    }

    #[verifier::when_used_as_spec(spec_code)]
    pub fn code(self) -> (code: u8)
        ensures
            code == self.spec_code(),
    {
        match self {
            FlowControlType::CONTINUE => 0,
            FlowControlType::WAIT => 1,
            FlowControlType::ABORT => 2,
        }
    }

    /// Decodes a status code; codes other than 0, 1 and 2 have no meaning.
    #[verifier::when_used_as_spec(spec_from_u8)]
    pub fn from_u8(code: u8) -> (status: Option<FlowControlType>)
        ensures
            status == Self::spec_from_u8(code),
    {
        match code {
            0 => Some(FlowControlType::CONTINUE),
            1 => Some(FlowControlType::WAIT),
            2 => Some(FlowControlType::ABORT),
            _ => None,
        }
    }
}

/// A whole message of at most seven bytes.
#[derive(Debug)]
pub struct SingleFrame {
    pub size: u8,
    pub data: Vec<u8>,
}

/// The start of a longer message: its declared length and first five bytes.
#[derive(Debug)]
pub struct FirstFrame {
    pub size: u16,
    pub data: Vec<u8>,
}

/// A further piece of a longer message, numbered modulo 16.
#[derive(Debug)]
pub struct ConsecutiveFrame {
    pub idx: u8,
    pub data: Vec<u8>,
}

/// The receiver's grant: a status, a block size (0 for no limit) and a
/// separation-time code.
#[derive(Clone, Copy, Debug)]
pub struct FlowControlFrame {
    pub frame_type: FrameTypeValue,
    pub transfer_allowed: Option<FlowControlType>,
    pub block_size: u8,
    pub seperation_time: u8,
}

/// A decoded transport segment.
#[derive(Debug)]
pub enum Segment {
    Single(SingleFrame),
    First(FirstFrame),
    Consecutive(ConsecutiveFrame),
    FlowControl(FlowControlFrame),
}

/// The mathematical content of a segment.
pub ghost enum SegmentView {
    Single { length: u8, data: Seq<u8> },
    First { total: u16, data: Seq<u8> },
    Consecutive { idx: u8, data: Seq<u8> },
    FlowControl { transfer_allowed: Option<FlowControlType>, block_size: u8, seperation_time: u8 },
}

impl View for Segment {
    type V = SegmentView;

    open spec fn view(&self) -> SegmentView {
        match self {
            Segment::Single(f) => SegmentView::Single { length: f.size, data: f.data@ },
            Segment::First(f) => SegmentView::First { total: f.size, data: f.data@ },
            Segment::Consecutive(f) => SegmentView::Consecutive { idx: f.idx, data: f.data@ },
            Segment::FlowControl(f) => SegmentView::FlowControl {
                transfer_allowed: f.transfer_allowed,
                block_size: f.block_size,
                seperation_time: f.seperation_time,
            },
        }
    }
}

impl SegmentView {
    /// The field constraints of each kind: a Single segment holds as many
    /// bytes as it says, at most seven; a First segment holds five bytes and
    /// declares at most 4095; a Consecutive segment holds at most six bytes
    /// under a 4-bit number; a FlowControl segment has a known status.
    pub open spec fn valid(self) -> bool {
        match self {
            SegmentView::Single { length, data } => length <= 7 && data.len() == length,
            SegmentView::First { total, data } => total <= 4095 && data.len() == 5,
            SegmentView::Consecutive { idx, data } => idx <= 15 && data.len() <= 6,
            SegmentView::FlowControl { transfer_allowed, .. } => transfer_allowed is Some,
        }
    }

    /// The bytes of a valid segment on the wire.
    pub open spec fn encoding(self) -> Seq<u8> {
        match self {
            SegmentView::Single { length, data } => single_bytes(data),
            SegmentView::First { total, data } => first_bytes(total as nat, data),
            SegmentView::Consecutive { idx, data } => consecutive_bytes(idx as nat, data),
            SegmentView::FlowControl { transfer_allowed, block_size, seperation_time } =>
                flow_control_bytes(transfer_allowed->Some_0, block_size, seperation_time),
        }
    }
}

/// Wire bytes of a Single segment: the length in the low nibble of byte 0,
/// then the data.
pub open spec fn single_bytes(data: Seq<u8>) -> Seq<u8> {
    seq![data.len() as u8] + data
}

/// Wire bytes of a First segment: tag 1 over the high four bits of the
/// declared length, the low eight bits, then the first data bytes.
pub open spec fn first_bytes(size: nat, head: Seq<u8>) -> Seq<u8> {
    seq![(16 + size / 256) as u8, (size % 256) as u8] + head
}

/// Wire bytes of a Consecutive segment: tag 2 over the sequence number
/// modulo 16, then the data.
pub open spec fn consecutive_bytes(idx: nat, data: Seq<u8>) -> Seq<u8> {
    seq![(32 + idx % 16) as u8] + data
}

/// Wire bytes of a FlowControl segment: tag 3 over the status code, the
/// block size, the separation-time code.
pub open spec fn flow_control_bytes(status: FlowControlType, block_size: u8, seperation_time: u8) -> Seq<u8> {
    seq![(48 + status.spec_code()) as u8, block_size, seperation_time]
}

/// The segment that a frame payload holds, selected by the high nibble of
/// byte 0. No segment is read from an empty payload, from an unknown tag,
/// from a Single segment whose length exceeds seven or the bytes present,
/// from a First segment without its five data bytes, or from a FlowControl
/// segment shorter than three bytes. An unknown flow-control status is kept
/// as `None`.
pub open spec fn decode_spec(payload: Seq<u8>) -> Option<SegmentView> {
    if payload.len() == 0 {
        None
    } else {
        let tag = payload[0] / 16;
        let low = (payload[0] % 16) as u8;
        if tag == 0 {
            if low <= 7 && 1 + low <= payload.len() {
                Some(SegmentView::Single { length: low, data: payload.subrange(1, 1 + low) })
            } else {
                None
            }
        } else if tag == 1 {
            if payload.len() >= 7 {
                Some(SegmentView::First { total: (low * 256 + payload[1]) as u16, data: payload.subrange(2, 7) })
            } else {
                None
            }
        } else if tag == 2 {
            Some(SegmentView::Consecutive {
                idx: low,
                data: payload.subrange(1, if payload.len() < 7 { payload.len() as int } else { 7 }),
            })
        } else if tag == 3 {
            if payload.len() >= 3 {
                Some(SegmentView::FlowControl {
                    transfer_allowed: FlowControlType::spec_from_u8(low),
                    block_size: payload[1],
                    seperation_time: payload[2],
                })
            } else {
                None
            }
        } else {
            None
        }
    }
}

/// The view of a decoding result.
pub open spec fn decoded_view(segment: Option<Segment>) -> Option<SegmentView> {
    match segment {
        Some(s) => Some(s@),
        None => None,
    }
}

/// The pause, in microseconds, that a separation-time code asks for: codes
/// 0 to 127 are milliseconds, 0xF1 to 0xF9 are 100 to 900 microseconds, and
/// every other code asks for none.
pub open spec fn separation_micros(code: u8) -> nat {
    if code <= 127 {
        (code * 1000) as nat
    } else if 0xF1 <= code <= 0xF9 {
        ((code - 0xF0) * 100) as nat
    } else {
        0
    }
}

/// The pause before a Consecutive segment, in microseconds.
pub fn separation_pause(code: u8) -> (micros: u64)
    ensures
        micros == separation_micros(code),
{
    if code <= 127 {
        code as u64 * 1000
    } else if 0xF1 <= code && code <= 0xF9 {
        (code - 0xF0) as u64 * 100
    } else {
        0
    }
}

/// The bytes of `src` from `from` up to `to`.
pub fn copy_range(src: &Vec<u8>, from: usize, to: usize) -> (part: Vec<u8>)
    requires
        from <= to <= src.len(),
    ensures
        part@ == src@.subrange(from as int, to as int),
{
    let mut part: Vec<u8> = Vec::new();
    let mut i: usize = from;
    while i < to
        invariant
            from <= i <= to <= src.len(),
            part@ == src@.subrange(from as int, i as int),
        decreases to - i,
    {
        part.push(src[i]);
        assert(part@ =~= src@.subrange(from as int, i + 1));
        i += 1;
    }
    part
}

impl FlowControlFrame {
    /// A flow-control segment from its three wire fields; a status code
    /// other than 0, 1 and 2 leaves the status unknown.
    pub fn new(transfer_allowed: u8, block_size: u8, seperation_time: u8) -> (frame: Self)
        ensures
            frame.frame_type == FrameTypeValue::FLOW,
            frame.transfer_allowed == FlowControlType::spec_from_u8(transfer_allowed),
            frame.block_size == block_size,
            frame.seperation_time == seperation_time,
    {
        Self {
            frame_type: FrameTypeValue::FLOW,
            transfer_allowed: FlowControlType::from_u8(transfer_allowed),
            block_size,
            seperation_time,
        }
    }

    /// The three wire bytes of the segment, or nothing where the status is
    /// unknown.
    pub fn encode(&self) -> (bytes: Option<Vec<u8>>)
        ensures
            self.transfer_allowed is None <==> bytes is None,
            bytes is Some ==> bytes->Some_0@ == flow_control_bytes(
                self.transfer_allowed->Some_0,
                self.block_size,
                self.seperation_time,
            ),
    {
        match self.transfer_allowed {
            None => None,
            Some(status) => {
                let mut fc_data: Vec<u8> = Vec::new();
                fc_data.push(0x30u8 + status.code());
                fc_data.push(self.block_size);
                fc_data.push(self.seperation_time);
                assert(fc_data@ =~= flow_control_bytes(status, self.block_size, self.seperation_time));
                Some(fc_data)
            },
        }
    }
}

/// Decodes the bytes that a link frame carries.
pub fn decode_payload(payload: &Vec<u8>) -> (segment: Option<Segment>)
    ensures
        decoded_view(segment) == decode_spec(payload@),
        segment matches Some(Segment::FlowControl(fc)) ==> fc.frame_type == FrameTypeValue::FLOW,
{
    if payload.len() == 0 {
        return None;
    }
    let b0: u8 = payload[0];
    let tag: u8 = b0 >> 4;
    let low: u8 = b0 & 0x0F;
    assert(b0 >> 4 == b0 / 16) by (bit_vector);
    assert(b0 & 0x0F == b0 % 16) by (bit_vector);
    if tag == 0 {
        if low <= 7 && 1 + low as usize <= payload.len() {
            let data = copy_range(payload, 1, 1 + low as usize);
            Some(Segment::Single(SingleFrame { size: low, data }))
        } else {
            None
        }
    } else if tag == 1 {
        if payload.len() >= 7 {
            let b1: u8 = payload[1];
            let size: u16 = ((low as u16) << 8) | (b1 as u16);
            assert((((low as u16) << 8) | (b1 as u16)) == low as u16 * 256 + b1 as u16) by (bit_vector)
                requires
                    low < 16,
            ;
            let data = copy_range(payload, 2, 7);
            Some(Segment::First(FirstFrame { size, data }))
        } else {
            None
        }
    } else if tag == 2 {
        let end: usize = if payload.len() < 7 { payload.len() } else { 7 };
        let data = copy_range(payload, 1, end);
        Some(Segment::Consecutive(ConsecutiveFrame { idx: low, data }))
    } else if tag == 3 {
        if payload.len() >= 3 {
            Some(Segment::FlowControl(FlowControlFrame::new(low, payload[1], payload[2])))
        } else {
            None
        }
    } else {
        None
    }
}

/// Decodes the segment that a link frame carries.
pub fn decode(frame: &CanFrame) -> (segment: Option<Segment>)
    ensures
        decoded_view(segment) == decode_spec(frame.payload()),
        segment matches Some(Segment::FlowControl(fc)) ==> fc.frame_type == FrameTypeValue::FLOW,
{
    let payload = frame.payload_bytes();
    decode_payload(&payload)
}

/// Encoding then decoding gives the segment back: every valid segment is
/// read from its own wire bytes, unchanged.
pub proof fn lemma_decode_encoding(segment: SegmentView)
    requires
        segment.valid(),
    ensures
        decode_spec(segment.encoding()) == Some(segment),
{
    let bytes = segment.encoding();
    match segment {
        SegmentView::Single { length, data } => {
            assert(bytes.subrange(1, 1 + length) =~= data);
        },
        SegmentView::First { total, data } => {
            let s = total as nat;
            assert(bytes[0] == (16 + s / 256) as u8);
            assert(bytes[1] == (s % 256) as u8);
            assert(s / 256 <= 15);
            assert(bytes.subrange(2, 7) =~= data);
        },
        SegmentView::Consecutive { idx, data } => {
            assert(bytes.len() == 1 + data.len());
            assert(bytes.subrange(1, bytes.len() as int) =~= data);
        },
        SegmentView::FlowControl { transfer_allowed, block_size, seperation_time } => {
            assert(bytes[0] == (48 + transfer_allowed->Some_0.spec_code()) as u8);
        },
    }
}

/// A message of at most seven bytes, encoded as a Single segment, decodes
/// to a Single segment that holds exactly those bytes.
pub proof fn lemma_single_round_trip(message: Seq<u8>)
    requires
        message.len() <= 7,
    ensures
        decode_spec(single_bytes(message)) == Some(
            SegmentView::Single { length: message.len() as u8, data: message },
        ),
{
    lemma_decode_encoding(SegmentView::Single { length: message.len() as u8, data: message });
}

} // verus!
