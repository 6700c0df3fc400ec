//! The two state machines of a transfer. Neither touches the bus: each step
//! names the next thing for the owner of the bus to do, and the owner
//! reports what it read or that the bus failed.

use vstd::prelude::*;
use crate::cansocket::CanFrame;
use crate::isotp::{carries, link_frame, next_chunk_len, IsoTPFrame};
use crate::segment::{
    consecutive_bytes, decode, decode_spec, first_bytes, flow_control_bytes, separation_micros,
    separation_pause, single_bytes, FlowControlFrame, FlowControlType, Segment, SegmentView,
};

verus! {

/// Block size granted to the peer when receiving: no limit.
pub const GRANTED_BLOCK_SIZE: u8 = 0;

/// Separation-time code granted to the peer when receiving.
pub const GRANTED_SEPARATION_TIME: u8 = 20;

/// Why a transfer was given up.
#[derive(Clone, Copy, Debug, PartialEq, Eq, Structural)]
pub enum TransferError {
    /// The message is longer than 4095 bytes.
    TooLong,
    /// A read or a write on the bus failed.
    Channel,
    /// The segment that the protocol expects did not arrive.
    Desync,
}

/// Where a send stands.
#[derive(Clone, Copy, Debug, PartialEq, Eq, Structural)]
pub enum SendState {
    Idle,
    SingleSent,
    AwaitingFlowControl,
    SendingConsecutive { block_size: u8, seperation_time: u8, sent: u8 },
    Complete,
    Aborted,
    Failed(TransferError),
}

/// What the owner of the bus does next for a send.
#[derive(Clone, Debug, PartialEq, Eq)]
pub enum SendAction {
    /// Pause, then write the frame.
    Transmit { pause_micros: u64, frame: CanFrame },
    /// Read one frame and hand it to `on_flow_control`.
    AwaitFlowControl,
    /// Nothing: the transfer is over.
    Finished,
}

/// The send state machine: the message with its unsent bytes, and the state.
#[derive(Debug)]
pub struct Transmitter {
    pub destination_id: u32,
    pub message: IsoTPFrame,
    pub state: SendState,
}

/// `action` writes `bytes` to `can_id` after a pause of `pause` microseconds.
pub open spec fn transmits(action: SendAction, can_id: u32, pause: nat, bytes: Seq<u8>) -> bool {
    match action {
        SendAction::Transmit { pause_micros, frame } => pause_micros == pause && carries(
            frame,
            can_id,
            bytes,
        ),
        _ => false,
    }
}

/// The state that a flow-control frame leads to: a grant starts a block,
/// Wait keeps waiting, Abort ends the transfer, and anything that is not a
/// flow-control segment with a known status fails it.
pub open spec fn granted_state(payload: Seq<u8>) -> SendState {
    match decode_spec(payload) {
        Some(SegmentView::FlowControl { transfer_allowed: Some(status), block_size, seperation_time }) =>
            match status {
                FlowControlType::CONTINUE => SendState::SendingConsecutive {
                    block_size,
                    seperation_time,
                    sent: 0,
                },
                FlowControlType::WAIT => SendState::AwaitingFlowControl,
                FlowControlType::ABORT => SendState::Aborted,
            },
        _ => SendState::Failed(TransferError::Desync),
    }
}

impl Transmitter {
    /// Nothing is sent yet of `bytes`, which go to `destination_id`.
    pub open spec fn starts(&self, destination_id: u32, bytes: Seq<u8>) -> bool {
        &&& self.destination_id == destination_id
        &&& self.message.data@ == bytes
        &&& self.message.size == bytes.len()
        &&& self.message.idx == 0
        &&& self.state == SendState::Idle
    }

    /// One step of the machine from `self` to `post`, asking for `action`.
    ///
    /// From Idle, a message of at most seven bytes goes out as one Single
    /// segment; one of 8 to 4095 bytes starts with its First segment and then
    /// waits for flow control; a longer one fails with nothing sent. While
    /// sending, an exhausted message completes the transfer, a used-up block
    /// goes back to waiting, and otherwise the next Consecutive segment goes
    /// out after the separation pause. A finished transfer stays as it is.
    pub open spec fn steps_to(self, post: Transmitter, action: SendAction) -> bool {
        let data = self.message.data@;
        let to = self.destination_id;
        &&& post.destination_id == to
        &&& match self.state {
            SendState::Idle => if data.len() <= 7 {
                &&& transmits(action, to, 0, single_bytes(data))
                &&& post.state == SendState::SingleSent
                &&& post.message.data@ == data
                &&& post.message.size == data.len()
                &&& post.message.idx == 0
            } else if data.len() <= 4095 {
                &&& transmits(action, to, 0, first_bytes(data.len(), data.take(5)))
                &&& post.state == SendState::AwaitingFlowControl
                &&& post.message.data@ == data.skip(5)
                &&& post.message.size == data.len()
                &&& post.message.idx == 0
            } else {
                &&& action == SendAction::Finished
                &&& post.state == SendState::Failed(TransferError::TooLong)
                &&& post.message == self.message
            },
            SendState::AwaitingFlowControl => {
                &&& action == SendAction::AwaitFlowControl
                &&& post.state == self.state
                &&& post.message == self.message
            },
            SendState::SendingConsecutive { block_size, seperation_time, sent } => if data.len() == 0 {
                &&& action == SendAction::Finished
                &&& post.state == SendState::Complete
                &&& post.message == self.message
            } else if block_size != 0 && sent >= block_size {
                &&& action == SendAction::AwaitFlowControl
                &&& post.state == SendState::AwaitingFlowControl
                &&& post.message == self.message
            } else {
                &&& transmits(
                    action,
                    to,
                    separation_micros(seperation_time),
                    consecutive_bytes(self.message.idx as nat, data.take(next_chunk_len(data))),
                )
                &&& post.state == SendState::SendingConsecutive {
                    block_size,
                    seperation_time,
                    sent: if block_size == 0 { 0u8 } else { (sent + 1) as u8 },
                }
                &&& post.message.data@ == data.skip(next_chunk_len(data))
                &&& post.message.size == self.message.size
                &&& post.message.idx == (self.message.idx + 1) % 16
            },
            _ => {
                &&& action == SendAction::Finished
                &&& post.state == self.state
                &&& post.message == self.message
            },
        }
    }

    /// The machine after the frame with `payload` was read for it: while it
    /// waits or sends, the frame decides the state; otherwise it is ignored.
    /// The message is never touched.
    pub open spec fn flow_controlled(self, payload: Seq<u8>, post: Transmitter) -> bool {
        &&& post.destination_id == self.destination_id
        &&& post.message == self.message
        &&& post.state == if self.state is AwaitingFlowControl || self.state is SendingConsecutive {
            granted_state(payload)
        } else {
            self.state
        }
    }

    /// A transmitter for `message`, with nothing sent yet.
    pub fn new(destination_id: u32, message: Vec<u8>) -> (transmitter: Self)
        ensures
            transmitter.starts(destination_id, message@),
    {
        Transmitter { destination_id, message: IsoTPFrame::new(message), state: SendState::Idle }
    }

    /// Advances the machine and says what to do next.
    pub fn step(&mut self) -> (action: SendAction)
        ensures
            old(self).steps_to(*final(self), action),
    {
        match self.state {
            SendState::Idle => {
                let len = self.message.data.len();
                if len <= 7 {
                    self.message.size = len;
                    self.message.idx = 0;
                    let bytes = self.message.create_sf();
                    self.state = SendState::SingleSent;
                    SendAction::Transmit { pause_micros: 0, frame: link_frame(self.destination_id, bytes) }
                } else if len <= 4095 {
                    self.message.size = len;
                    self.message.idx = 0;
                    let bytes = self.message.create_ff();
                    self.state = SendState::AwaitingFlowControl;
                    SendAction::Transmit { pause_micros: 0, frame: link_frame(self.destination_id, bytes) }
                } else {
                    self.state = SendState::Failed(TransferError::TooLong);
                    SendAction::Finished
                }
            },
            SendState::AwaitingFlowControl => SendAction::AwaitFlowControl,
            SendState::SendingConsecutive { block_size, seperation_time, sent } => {
                if self.message.data.len() == 0 {
                    self.state = SendState::Complete;
                    SendAction::Finished
                } else if block_size != 0 && sent >= block_size {
                    self.state = SendState::AwaitingFlowControl;
                    SendAction::AwaitFlowControl
                } else {
                    let pause_micros = separation_pause(seperation_time);
                    let bytes = self.message.create_cf();
                    let counted: u8 = if block_size == 0 { 0 } else { sent + 1 };
                    self.state = SendState::SendingConsecutive { block_size, seperation_time, sent: counted };
                    SendAction::Transmit { pause_micros, frame: link_frame(self.destination_id, bytes) }
                }
            },
            _ => SendAction::Finished,
        }
    }

    /// Takes in the frame that was read while the machine waits for flow
    /// control.
    pub fn on_flow_control(&mut self, frame: &CanFrame)
        ensures
            old(self).flow_controlled(frame.payload(), *final(self)),
    {
        let listening = match self.state {
            SendState::AwaitingFlowControl => true,
            SendState::SendingConsecutive { .. } => true,
            _ => false,
        };
        if listening {
            self.state = match decode(frame) {
                Some(Segment::FlowControl(fc)) => match fc.transfer_allowed {
                    Some(FlowControlType::CONTINUE) => SendState::SendingConsecutive {
                        block_size: fc.block_size,
                        seperation_time: fc.seperation_time,
                        sent: 0,
                    },
                    Some(FlowControlType::WAIT) => SendState::AwaitingFlowControl,
                    Some(FlowControlType::ABORT) => SendState::Aborted,
                    None => SendState::Failed(TransferError::Desync),
                },
                _ => SendState::Failed(TransferError::Desync),
            };
        }
    }

    /// Takes in that a read or a write failed: unless the transfer is
    /// already complete, aborted or failed, it fails.
    pub fn on_channel_error(&mut self)
        ensures
            final(self).destination_id == old(self).destination_id,
            final(self).message == old(self).message,
            final(self).state == match old(self).state {
                SendState::Complete => SendState::Complete,
                SendState::Aborted => SendState::Aborted,
                SendState::Failed(e) => SendState::Failed(e),
                _ => SendState::Failed(TransferError::Channel),
            },
    {
        match self.state {
            SendState::Complete => {},
            SendState::Aborted => {},
            SendState::Failed(_) => {},
            _ => {
                self.state = SendState::Failed(TransferError::Channel);
            },
        }
    }
}

/// Where a receive stands.
#[derive(Clone, Copy, Debug, PartialEq, Eq, Structural)]
pub enum ReceiveState {
    Idle,
    FirstReceived,
    AccumulatingConsecutive,
    Complete,
    Failed(TransferError),
}

/// What the owner of the bus does next for a receive.
#[derive(Clone, Debug, PartialEq, Eq)]
pub enum ReceiveAction {
    /// Read one frame and hand it to `on_frame`.
    AwaitFrame,
    /// Write the frame.
    Transmit(CanFrame),
    /// Nothing: the transfer is over.
    Finished,
}

/// The receive state machine: the bytes gathered so far with the declared
/// size and the sequence number expected next, and the state.
#[derive(Debug)]
pub struct Reassembler {
    pub destination_id: u32,
    pub message: IsoTPFrame,
    pub state: ReceiveState,
}

/// How many of `incoming` bytes a message that holds `held` of `size`
/// declared bytes still takes.
pub open spec fn accepted_len(size: int, held: int, incoming: int) -> int {
    if held >= size {
        0
    } else if incoming <= size - held {
        incoming
    } else {
        size - held
    }
}

impl Reassembler {
    /// Nothing is read yet; the grant will go to `destination_id`.
    pub open spec fn starts(&self, destination_id: u32) -> bool {
        &&& self.destination_id == destination_id
        &&& self.message.data@ == Seq::<u8>::empty()
        &&& self.message.size == 0
        &&& self.message.idx == 0
        &&& self.state == ReceiveState::Idle
    }

    /// One step of the machine from `self` to `post`, asking for `action`.
    ///
    /// Right after a First segment the one flow-control grant goes out:
    /// Continue, no block limit, the fixed separation time. While bytes are
    /// missing the machine asks for a frame; once the declared size is
    /// reached it completes. The message is never touched.
    pub open spec fn steps_to(self, post: Reassembler, action: ReceiveAction) -> bool {
        &&& post.destination_id == self.destination_id
        &&& post.message == self.message
        &&& match self.state {
            ReceiveState::Idle => action == ReceiveAction::AwaitFrame && post.state == self.state,
            ReceiveState::FirstReceived => {
                &&& action matches ReceiveAction::Transmit(frame) && carries(
                    frame,
                    self.destination_id,
                    flow_control_bytes(
                        FlowControlType::CONTINUE,
                        GRANTED_BLOCK_SIZE,
                        GRANTED_SEPARATION_TIME,
                    ),
                )
                &&& post.state == ReceiveState::AccumulatingConsecutive
            },
            ReceiveState::AccumulatingConsecutive => if self.message.data@.len() >= self.message.size {
                action == ReceiveAction::Finished && post.state == ReceiveState::Complete
            } else {
                action == ReceiveAction::AwaitFrame && post.state == self.state
            },
            _ => action == ReceiveAction::Finished && post.state == self.state,
        }
    }

    /// The machine after the frame with `payload` was read for it.
    ///
    /// The first frame must hold a Single segment, which is the whole
    /// message, or a First segment that declares at least eight bytes, whose
    /// five bytes start the message. Each later frame must hold the
    /// Consecutive segment with the expected number; its bytes are appended,
    /// up to the declared size. Any other frame fails the transfer. A frame
    /// that arrives in any other state is ignored.
    pub open spec fn received(self, payload: Seq<u8>, post: Reassembler) -> bool {
        let failed = post.state == ReceiveState::Failed(TransferError::Desync) && post.message
            == self.message;
        &&& post.destination_id == self.destination_id
        &&& match self.state {
            ReceiveState::Idle => match decode_spec(payload) {
                Some(SegmentView::Single { length, data }) => {
                    &&& post.state == ReceiveState::Complete
                    &&& post.message.data@ == data
                    &&& post.message.size == data.len()
                    &&& post.message.idx == 0
                },
                Some(SegmentView::First { total, data }) => if total >= 8 {
                    &&& post.state == ReceiveState::FirstReceived
                    &&& post.message.data@ == data
                    &&& post.message.size == total
                    &&& post.message.idx == 0
                } else {
                    failed
                },
                _ => failed,
            },
            ReceiveState::AccumulatingConsecutive => match decode_spec(payload) {
                Some(SegmentView::Consecutive { idx, data }) => if idx == self.message.idx % 16 {
                    &&& post.state == ReceiveState::AccumulatingConsecutive
                    &&& post.message.data@ == self.message.data@ + data.take(
                        accepted_len(
                            self.message.size as int,
                            self.message.data@.len() as int,
                            data.len() as int,
                        ),
                    )
                    &&& post.message.size == self.message.size
                    &&& post.message.idx == (self.message.idx + 1) % 16
                } else {
                    failed
                },
                _ => failed,
            },
            _ => post.state == self.state && post.message == self.message,
        }
    }

    /// A reassembler that has read nothing yet.
    pub fn new(destination_id: u32) -> (reassembler: Self)
        ensures
            reassembler.starts(destination_id),
    {
        Reassembler {
            destination_id,
            message: IsoTPFrame::new(Vec::new()),
            state: ReceiveState::Idle,
        }
    }

    /// Advances the machine and says what to do next.
    pub fn step(&mut self) -> (action: ReceiveAction)
        ensures
            old(self).steps_to(*final(self), action),
    {
        match self.state {
            ReceiveState::Idle => ReceiveAction::AwaitFrame,
            ReceiveState::FirstReceived => {
                let grant = FlowControlFrame::new(
                    FlowControlType::CONTINUE.code(),
                    GRANTED_BLOCK_SIZE,
                    GRANTED_SEPARATION_TIME,
                );
                let cf = IsoTPFrame::from_flow_control(grant);
                self.state = ReceiveState::AccumulatingConsecutive;
                ReceiveAction::Transmit(link_frame(self.destination_id, cf.data))
            },
            ReceiveState::AccumulatingConsecutive => {
                if self.message.data.len() >= self.message.size {
                    self.state = ReceiveState::Complete;
                    ReceiveAction::Finished
                } else {
                    ReceiveAction::AwaitFrame
                }
            },
            _ => ReceiveAction::Finished,
        }
    }

    /// Takes in one frame that was read from the bus.
    pub fn on_frame(&mut self, frame: &CanFrame)
        ensures
            old(self).received(frame.payload(), *final(self)),
    {
        match self.state {
            ReceiveState::Idle => match decode(frame) {
                Some(Segment::Single(sf)) => {
                    self.message = IsoTPFrame::new(sf.data);
                    self.state = ReceiveState::Complete;
                },
                Some(Segment::First(ff)) => {
                    if ff.size >= 8 {
                        self.message = IsoTPFrame { data: ff.data, size: ff.size as usize, idx: 0 };
                        self.state = ReceiveState::FirstReceived;
                    } else {
                        self.state = ReceiveState::Failed(TransferError::Desync);
                    }
                },
                _ => {
                    self.state = ReceiveState::Failed(TransferError::Desync);
                },
            },
            ReceiveState::AccumulatingConsecutive => match decode(frame) {
                Some(Segment::Consecutive(cf)) => {
                    if cf.idx == self.message.idx % 16 {
                        let held = self.message.data.len();
                        let size = self.message.size;
                        let count: usize = if held >= size {
                            0
                        } else if cf.data.len() <= size - held {
                            cf.data.len()
                        } else {
                            size - held
                        };
                        append_prefix(&mut self.message.data, &cf.data, count);
                        self.message.idx = (self.message.idx % 16 + 1) % 16;
                    } else {
                        self.state = ReceiveState::Failed(TransferError::Desync);
                    }
                },
                _ => {
                    self.state = ReceiveState::Failed(TransferError::Desync);
                },
            },
            _ => {},
        }
    }

    /// Takes in that a read or a write failed: unless the transfer is
    /// already complete or failed, it fails.
    pub fn on_channel_error(&mut self)
        ensures
            final(self).destination_id == old(self).destination_id,
            final(self).message == old(self).message,
            final(self).state == match old(self).state {
                ReceiveState::Complete => ReceiveState::Complete,
                ReceiveState::Failed(e) => ReceiveState::Failed(e),
                _ => ReceiveState::Failed(TransferError::Channel),
            },
    {
        match self.state {
            ReceiveState::Complete => {},
            ReceiveState::Failed(_) => {},
            _ => {
                self.state = ReceiveState::Failed(TransferError::Channel);
            },
        }
    }

    /// The reassembled message, once the transfer is complete.
    pub fn into_message(self) -> (message: Option<IsoTPFrame>)
        ensures
            message is Some <==> self.state == ReceiveState::Complete,
            message is Some ==> message->Some_0 == self.message,
    {
        match self.state {
            ReceiveState::Complete => Some(self.message),
            _ => None,
        }
    }
}

/// Appends the first `count` bytes of `src` to `dst`.
pub fn append_prefix(dst: &mut Vec<u8>, src: &Vec<u8>, count: usize)
    requires
        count <= src.len(),
    ensures
        final(dst)@ == old(dst)@ + src@.take(count as int),
{
    let mut i: usize = 0;
    assert(dst@ =~= old(dst)@ + src@.take(0));
    while i < count
        invariant
            i <= count <= src.len(),
            dst@ == old(dst)@ + src@.take(i as int),
        decreases count - i,
    {
        dst.push(src[i]);
        assert(dst@ =~= old(dst)@ + src@.take(i + 1));
        i += 1;
    }
}

} // verus!
