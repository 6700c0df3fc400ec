//! The transport session and the logical message that it segments.

use vstd::prelude::*;
use crate::cansocket::{aligned_bytes, padded, CanFrame};
use crate::segment::{
    consecutive_bytes, first_bytes, flow_control_bytes, separation_micros, separation_pause,
    single_bytes, FlowControlFrame,
};
use crate::transfer::{Reassembler, Transmitter};

verus! {

/// A logical message in transit: the bytes not yet sent (or those received
/// so far), the declared total size, and the next sequence number.
#[derive(Debug)]
pub struct IsoTPFrame {
    pub data: Vec<u8>,
    pub size: usize,
    pub idx: u8,
}

/// `frame` is addressed to `can_id` and carries exactly `bytes`, zero-padded.
pub open spec fn carries(frame: CanFrame, can_id: u32, bytes: Seq<u8>) -> bool {
    &&& bytes.len() <= 8
    &&& frame.can_id == can_id
    &&& frame.can_dlc == bytes.len()
    &&& aligned_bytes(frame.data) == padded(bytes)
}

/// A frame that carries `bytes` is well formed and `bytes` is its payload.
pub proof fn lemma_carries_payload(frame: CanFrame, can_id: u32, bytes: Seq<u8>)
    requires
        carries(frame, can_id, bytes),
    ensures
        frame.well_formed(),
        frame.payload() == bytes,
{
    assert(frame.payload() =~= bytes);
}

/// The link frame for `bytes`, addressed to `can_id`.
pub fn link_frame(can_id: u32, bytes: Vec<u8>) -> (frame: CanFrame)
    requires
        bytes.len() <= 8,
    ensures
        carries(frame, can_id, bytes@),
        frame.well_formed(),
        frame.payload() == bytes@,
{
    let dlc: u8 = bytes.len() as u8;
    let frame = CanFrame::new(can_id, dlc).with_data(bytes);
    proof {
        lemma_carries_payload(frame, can_id, bytes@);
    }
    frame
}

/// The number of bytes that the next Consecutive segment takes from `rest`.
pub open spec fn next_chunk_len(rest: Seq<u8>) -> int {
    if rest.len() <= 6 {
        rest.len() as int
    } else {
        6
    }
}

impl IsoTPFrame {
    /// A fresh message: all of `data` unsent, numbered from 0.
    pub fn new(data: Vec<u8>) -> (frame: Self)
        ensures
            frame.data@ == data@,
            frame.size == data@.len(),
            frame.idx == 0,
    {
        let size = data.len();
        Self { data, size, idx: 0 }
    }

    /// The wire bytes of a flow-control segment as a message of three bytes.
    pub fn from_flow_control(value: FlowControlFrame) -> (frame: Self)
        requires
            value.transfer_allowed is Some,
        ensures
            frame.data@ == flow_control_bytes(
                value.transfer_allowed->Some_0,
                value.block_size,
                value.seperation_time,
            ),
            frame.size == 3,
            frame.idx == 0,
    {
        IsoTPFrame::new(value.encode().unwrap())
    }

    /// The bytes that a link frame carries, as a message.
    pub fn from_can(value: &CanFrame) -> (frame: Self)
        ensures
            frame.data@ == value.payload(),
            frame.size == value.payload().len(),
            frame.idx == 0,
    {
        IsoTPFrame::new(value.payload_bytes())
    }

    /// The Single segment that holds the whole message.
    pub fn create_sf(&self) -> (bytes: Vec<u8>)
        requires
            self.data@.len() <= 7,
        ensures
            bytes@ == single_bytes(self.data@),
    {
        let mut sf_data: Vec<u8> = Vec::new();
        sf_data.push(self.data.len() as u8);
        let mut i: usize = 0;
        while i < self.data.len()
            invariant
                i <= self.data@.len() <= 7,
                sf_data@ == seq![self.data@.len() as u8] + self.data@.take(i as int),
            decreases self.data@.len() - i,
        {
            sf_data.push(self.data[i]);
            assert(sf_data@ =~= seq![self.data@.len() as u8] + self.data@.take(i + 1));
            i += 1;
        }
        assert(self.data@.take(self.data@.len() as int) =~= self.data@);
        sf_data
    }

    /// The First segment: the declared size and the first five bytes, which
    /// leave the unsent data.
    pub fn create_ff(&mut self) -> (bytes: Vec<u8>)
        requires
            old(self).size <= 4095,
            old(self).data@.len() >= 5,
        ensures
            bytes@ == first_bytes(old(self).size as nat, old(self).data@.take(5)),
            final(self).data@ == old(self).data@.skip(5),
            final(self).size == old(self).size,
            final(self).idx == old(self).idx,
    {
        let mut sf_data: Vec<u8> = Vec::new();
        sf_data.push(0x10u8 + (self.size / 256) as u8);
        sf_data.push((self.size % 256) as u8);
        let mut rest = self.data.split_off(5);
        std::mem::swap(&mut self.data, &mut rest);
        sf_data.append(&mut rest);
        assert(sf_data@ =~= first_bytes(old(self).size as nat, old(self).data@.take(5)));
        assert(self.data@ =~= old(self).data@.skip(5));
        sf_data
    }

    /// The next Consecutive segment: the sequence number modulo 16 and up
    /// to six bytes, which leave the unsent data; the number then advances
    /// by one modulo 16.
    pub fn create_cf(&mut self) -> (bytes: Vec<u8>)
        ensures
            bytes@ == consecutive_bytes(
                old(self).idx as nat,
                old(self).data@.take(next_chunk_len(old(self).data@)),
            ),
            final(self).data@ == old(self).data@.skip(next_chunk_len(old(self).data@)),
            final(self).size == old(self).size,
            final(self).idx == (old(self).idx + 1) % 16,
    {
        let mut sf_data: Vec<u8> = Vec::new();
        sf_data.push(0x20u8 + self.idx % 16);
        self.idx = (self.idx % 16 + 1) % 16;
        let mut drainsize: usize = 6;
        if self.data.len() <= 6 {
            drainsize = self.data.len();
        }
        let mut rest = self.data.split_off(drainsize);
        std::mem::swap(&mut self.data, &mut rest);
        sf_data.append(&mut rest);
        assert(sf_data@ =~= consecutive_bytes(
            old(self).idx as nat,
            old(self).data@.take(next_chunk_len(old(self).data@)),
        ));
        assert(self.data@ =~= old(self).data@.skip(next_chunk_len(old(self).data@)));
        sf_data
    }
}

/// A message together with the kind of segment to cut from it next.
#[derive(Debug)]
pub enum FrameType {
    SingleFrame(IsoTPFrame),
    FirstFrame(IsoTPFrame),
    ConsecutiveFrame(IsoTPFrame),
    FlowControlFrame(IsoTPFrame),
}

impl FrameType {
    /// The message inside.
    pub open spec fn message(self) -> IsoTPFrame {
        match self {
            FrameType::SingleFrame(m) => m,
            FrameType::FirstFrame(m) => m,
            FrameType::ConsecutiveFrame(m) => m,
            FrameType::FlowControlFrame(m) => m,
        }
    }

    /// The segment fits a link frame: a Single segment holds at most seven
    /// bytes, a First segment declares at most 4095 and has five bytes to
    /// take, and ready-made flow-control bytes are at most eight.
    pub open spec fn encodable(self) -> bool {
        match self {
            FrameType::SingleFrame(m) => m.data@.len() <= 7,
            FrameType::FirstFrame(m) => m.size <= 4095 && m.data@.len() >= 5,
            FrameType::ConsecutiveFrame(m) => true,
            FrameType::FlowControlFrame(m) => m.data@.len() <= 8,
        }
    }

    /// The wire bytes of the segment.
    pub open spec fn wire_bytes(self) -> Seq<u8> {
        match self {
            FrameType::SingleFrame(m) => single_bytes(m.data@),
            FrameType::FirstFrame(m) => first_bytes(m.size as nat, m.data@.take(5)),
            FrameType::ConsecutiveFrame(m) => consecutive_bytes(
                m.idx as nat,
                m.data@.take(next_chunk_len(m.data@)),
            ),
            FrameType::FlowControlFrame(m) => m.data@,
        }
    }

    /// The data still unsent once the segment is cut.
    pub open spec fn unsent(self) -> Seq<u8> {
        match self {
            FrameType::SingleFrame(m) => m.data@,
            FrameType::FirstFrame(m) => m.data@.skip(5),
            FrameType::ConsecutiveFrame(m) => m.data@.skip(next_chunk_len(m.data@)),
            FrameType::FlowControlFrame(m) => m.data@,
        }
    }

    /// Cuts the segment from the message: the link frame that carries it to
    /// `destination_id`, and the message as it stands afterwards. Only a
    /// Consecutive segment advances the sequence number.
    pub fn into_can(self, destination_id: u32) -> (out: (CanFrame, IsoTPFrame))
        requires
            self.encodable(),
        ensures
            carries(out.0, destination_id, self.wire_bytes()),
            out.1.data@ == self.unsent(),
            out.1.size == self.message().size,
            out.1.idx == if self is ConsecutiveFrame {
                (self.message().idx + 1) % 16
            } else {
                self.message().idx as int
            },
    {
        match self {
            FrameType::SingleFrame(frame) => {
                let data = frame.create_sf();
                (link_frame(destination_id, data), frame)
            },
            FrameType::FirstFrame(frame) => {
                let mut frame = frame;
                let data = frame.create_ff();
                (link_frame(destination_id, data), frame)
            },
            FrameType::ConsecutiveFrame(frame) => {
                let mut frame = frame;
                let data = frame.create_cf();
                (link_frame(destination_id, data), frame)
            },
            FrameType::FlowControlFrame(frame) => {
                let data = copy_all(&frame.data);
                (link_frame(destination_id, data), frame)
            },
        }
    }
}

/// A copy of `src`.
pub fn copy_all(src: &Vec<u8>) -> (all: Vec<u8>)
    ensures
        all@ == src@,
{
    let all = crate::segment::copy_range(src, 0, src.len());
    assert(src@.subrange(0, src@.len() as int) =~= src@);
    all
}

/// A value that the upper layer hands down as bytes.
pub trait Sendable {
    /// The bytes that stand for the value.
    spec fn wire_bytes(&self) -> Seq<u8>;

    fn convert(&self) -> (bytes: Vec<u8>)
        ensures
            bytes@ == self.wire_bytes(),
    ;
}

/// A value that the upper layer reads from a reassembled message.
pub trait Receivable: Sized {
    /// The messages from which a value can be read.
    spec fn readable(f: IsoTPFrame) -> bool;

    /// `value` is what the message holds.
    spec fn reads(f: IsoTPFrame, value: Self) -> bool;

    fn convert(f: IsoTPFrame) -> (value: Option<Self>)
        ensures
            value is Some <==> Self::readable(f),
            value is Some ==> Self::reads(f, value->Some_0),
    ;
}

/// One end of a transport session: the identifier that outgoing frames are
/// addressed to and the identifier of this end.
#[derive(Clone, Copy, Debug)]
pub struct IsoTPSocket {
    pub destination_id: u32,
    pub source_id: u32,
}

impl IsoTPSocket {
    /// A session end that sends to `destination_id` as `source_id`.
    pub fn new(destination_id: u32, source_id: u32) -> (socket: Self)
        ensures
            socket.destination_id == destination_id,
            socket.source_id == source_id,
    {
        Self { destination_id, source_id }
    }

    /// Begins sending `frame`: the transmitter for its bytes, with nothing
    /// sent yet.
    pub fn send<T: Sendable>(&self, frame: T) -> (transmitter: Transmitter)
        ensures
            transmitter.starts(self.destination_id, frame.wire_bytes()),
    {
        Transmitter::new(self.destination_id, frame.convert())
    }

    /// Reads a value from a reassembled message, where it holds one.
    pub fn receive<T: Receivable>(&self, message: IsoTPFrame) -> (value: Option<T>)
        ensures
            value is Some <==> T::readable(message),
            value is Some ==> T::reads(message, value->Some_0),
    {
        T::convert(message)
    }

    /// Begins receiving one message: the reassembler, with nothing read yet.
    pub fn receive_as_isotp(&self) -> (reassembler: Reassembler)
        ensures
            reassembler.starts(self.destination_id),
    {
        Reassembler::new(self.destination_id)
    }

    /// The pause that a separation-time code asks for, in microseconds.
    pub fn calc_sleep_dur(&self, time: u8) -> (micros: u64)
        ensures
            micros == separation_micros(time),
    {
        separation_pause(time)
    }
}

} // verus!
