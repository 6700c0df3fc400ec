//! A message as the sequence of its segments, and what the two state
//! machines do with that sequence.

use vstd::prelude::*;
use crate::isotp::{next_chunk_len, IsoTPFrame};
use crate::segment::{
    consecutive_bytes, decode_spec, first_bytes, lemma_decode_encoding, single_bytes,
    FlowControlType, SegmentView,
};
use crate::transfer::{
    accepted_len, transmits, ReceiveAction, ReceiveState, Reassembler, SendAction, SendState,
    Transmitter,
};

verus! {

/// The offset in `message` at which Consecutive segment `k` starts: behind
/// the five bytes of the First segment and `k` chunks of six, and never
/// behind the end.
pub open spec fn cut(message: Seq<u8>, k: nat) -> int {
    if 5 + 6 * k <= message.len() {
        (5 + 6 * k) as int
    } else {
        message.len() as int
    }
}

/// The bytes that Consecutive segment `k` carries.
pub open spec fn chunk(message: Seq<u8>, k: nat) -> Seq<u8> {
    message.subrange(cut(message, k), cut(message, k + 1))
}

/// The number of Consecutive segments of a message of at least five bytes.
pub open spec fn consecutive_count(message: Seq<u8>) -> nat {
    (message.len() / 6) as nat
}

/// The wire bytes of the First segment of `message`.
pub open spec fn first_segment(message: Seq<u8>) -> Seq<u8> {
    first_bytes(message.len(), message.take(5))
}

/// The wire bytes of Consecutive segment `k` of `message`.
pub open spec fn consecutive_segment(message: Seq<u8>, k: nat) -> Seq<u8> {
    consecutive_bytes(k, chunk(message, k))
}

/// The five bytes of the First segment followed by the bytes of the first
/// `k` Consecutive segments, in order.
pub open spec fn joined(message: Seq<u8>, k: nat) -> Seq<u8>
    decreases k,
{
    if k == 0 {
        message.take(5)
    } else {
        joined(message, (k - 1) as nat) + chunk(message, (k - 1) as nat)
    }
}

/// On the sending side: `k` Consecutive segments of `message` are out, the
/// rest is unsent.
pub open spec fn unsent_from(frame: IsoTPFrame, message: Seq<u8>, k: nat) -> bool {
    &&& frame.size == message.len()
    &&& frame.idx == k % 16
    &&& frame.data@ == message.skip(cut(message, k))
}

/// On the receiving side: the First segment and `k` Consecutive segments of
/// `message` are in.
pub open spec fn gathered_to(frame: IsoTPFrame, message: Seq<u8>, k: nat) -> bool {
    &&& frame.size == message.len()
    &&& frame.idx == k % 16
    &&& frame.data@ == message.take(cut(message, k))
}

/// A message of at least five bytes is exhausted exactly when all of its
/// Consecutive segments are out.
pub proof fn lemma_count_is_exact(message: Seq<u8>, k: nat)
    requires
        message.len() >= 5,
    ensures
        cut(message, k) == message.len() <==> k >= consecutive_count(message),
{
    let len = message.len() as int;
    assert(6 * (len / 6) <= len < 6 * (len / 6) + 6);
}

/// The first `k` segments joined are the message up to where segment `k`
/// starts.
pub proof fn lemma_joined_is_prefix(message: Seq<u8>, k: nat)
    requires
        message.len() >= 5,
    ensures
        joined(message, k) == message.take(cut(message, k)),
    decreases k,
{
    if k > 0 {
        lemma_joined_is_prefix(message, (k - 1) as nat);
        assert(message.take(cut(message, (k - 1) as nat)) + chunk(message, (k - 1) as nat)
            =~= message.take(cut(message, k)));
    }
}

/// A message of 8 to 4095 bytes is rebuilt from its segments: the First
/// segment decodes to the message's length and first five bytes, Consecutive
/// segment `k` decodes to number `k` modulo 16 and its chunk, and the five
/// bytes followed by all the chunks in order are the message.
pub proof fn lemma_segments_rebuild_message(message: Seq<u8>)
    requires
        8 <= message.len() <= 4095,
    ensures
        decode_spec(first_segment(message)) == Some(
            SegmentView::First { total: message.len() as u16, data: message.take(5) },
        ),
        forall|k: nat|
            k < consecutive_count(message) ==> #[trigger] decode_spec(consecutive_segment(message, k))
                == Some(SegmentView::Consecutive { idx: (k % 16) as u8, data: chunk(message, k) }),
        joined(message, consecutive_count(message)) == message,
{
    lemma_decode_encoding(SegmentView::First { total: message.len() as u16, data: message.take(5) });
    assert forall|k: nat| k < consecutive_count(message) implies #[trigger] decode_spec(
        consecutive_segment(message, k),
    ) == Some(SegmentView::Consecutive { idx: (k % 16) as u8, data: chunk(message, k) }) by {
        lemma_decode_encoding(
            SegmentView::Consecutive { idx: (k % 16) as u8, data: chunk(message, k) },
        );
    }
    lemma_joined_is_prefix(message, consecutive_count(message));
    assert(message.take(message.len() as int) =~= message);
}

/// Sequence numbers run modulo 16 without a gap: segment `k` carries
/// `k % 16`, and the number of segment `k + 1` is one more modulo 16.
pub proof fn lemma_sequence_numbers(message: Seq<u8>, k: nat)
    ensures
        consecutive_segment(message, k)[0] == 0x20 + k % 16,
        consecutive_segment(message, k + 1)[0] - 0x20 == (consecutive_segment(message, k)[0] - 0x20
            + 1) % 16,
{
}

/// A message of at most seven bytes goes out as one Single segment that
/// holds it, and nothing follows: the next step asks for nothing more.
pub proof fn lemma_short_message_is_one_single(
    pre: Transmitter,
    post: Transmitter,
    action: SendAction,
    next: Transmitter,
    next_action: SendAction,
    message: Seq<u8>,
)
    requires
        message.len() <= 7,
        pre.starts(pre.destination_id, message),
        pre.steps_to(post, action),
        post.steps_to(next, next_action),
    ensures
        transmits(action, pre.destination_id, 0, single_bytes(message)),
        decode_spec(single_bytes(message)) == Some(
            SegmentView::Single { length: message.len() as u8, data: message },
        ),
        post.state == SendState::SingleSent,
        next_action == SendAction::Finished,
        next.state == SendState::SingleSent,
{
    lemma_decode_encoding(SegmentView::Single { length: message.len() as u8, data: message });
}

/// A message of 8 to 4095 bytes starts with its First segment, after which
/// the transmitter waits for flow control with no Consecutive segment out.
pub proof fn lemma_first_step(pre: Transmitter, post: Transmitter, action: SendAction, message: Seq<u8>)
    requires
        8 <= message.len() <= 4095,
        pre.starts(pre.destination_id, message),
        pre.steps_to(post, action),
    ensures
        transmits(action, pre.destination_id, 0, first_segment(message)),
        post.state == SendState::AwaitingFlowControl,
        unsent_from(post.message, message, 0),
{
}

/// While sending, with `k` Consecutive segments of `message` out: if the
/// message is exhausted the transfer completes; if the block is used up the
/// transmitter goes back to waiting; otherwise exactly segment `k` goes out,
/// whatever the block size and the count within the block, and `k + 1`
/// segments are out.
pub proof fn lemma_consecutive_step(
    pre: Transmitter,
    post: Transmitter,
    action: SendAction,
    message: Seq<u8>,
    k: nat,
)
    requires
        message.len() >= 5,
        unsent_from(pre.message, message, k),
        pre.state is SendingConsecutive,
        pre.steps_to(post, action),
    ensures
        cut(message, k) == message.len() ==> action == SendAction::Finished && post.state
            == SendState::Complete,
        cut(message, k) < message.len() ==> (action == SendAction::AwaitFlowControl
            && post.state == SendState::AwaitingFlowControl && unsent_from(post.message, message, k))
            || (action is Transmit && post.state is SendingConsecutive && transmits(
            action,
            pre.destination_id,
            crate::segment::separation_micros(pre.state->seperation_time),
            consecutive_segment(message, k),
        ) && unsent_from(post.message, message, k + 1)),
{
    let data = pre.message.data@;
    let c = cut(message, k);
    if c < message.len() {
        let n = next_chunk_len(data);
        assert(cut(message, k + 1) == c + n);
        assert(data.take(n) =~= chunk(message, k));
        assert(data.skip(n) =~= message.skip(cut(message, k + 1)));
    }
}

/// A flow-control frame never changes what is unsent or the next sequence
/// number.
pub proof fn lemma_flow_control_keeps_position(
    pre: Transmitter,
    post: Transmitter,
    payload: Seq<u8>,
    message: Seq<u8>,
    k: nat,
)
    requires
        unsent_from(pre.message, message, k),
        pre.flow_controlled(payload, post),
    ensures
        unsent_from(post.message, message, k),
{
}

/// A grant of `block_size` segments, with more than a block left to send,
/// is followed by exactly `block_size` Consecutive segments; the step after
/// them sends nothing and waits for the next flow-control frame.
pub proof fn lemma_block_is_exact(
    states: Seq<Transmitter>,
    actions: Seq<SendAction>,
    block_size: u8,
    seperation_time: u8,
)
    requires
        block_size > 0,
        states.len() == block_size + 2,
        actions.len() == block_size + 1,
        states[0].state == (SendState::SendingConsecutive { block_size, seperation_time, sent: 0 }),
        states[0].message.data@.len() > 6 * block_size,
        forall|i: int| 0 <= i <= block_size ==> (#[trigger] states[i]).steps_to(states[i + 1], actions[i]),
    ensures
        forall|i: int| 0 <= i < block_size ==> (#[trigger] actions[i]) is Transmit,
        actions[block_size as int] == SendAction::AwaitFlowControl,
        states[block_size + 1].state == SendState::AwaitingFlowControl,
{
    lemma_block_progress(states, actions, block_size, seperation_time, block_size as nat);
    assert(states[block_size as int].steps_to(states[block_size + 1], actions[block_size as int]));
}

/// Within a block, after `n` steps `n` segments are out and counted.
proof fn lemma_block_progress(
    states: Seq<Transmitter>,
    actions: Seq<SendAction>,
    block_size: u8,
    seperation_time: u8,
    n: nat,
)
    requires
        block_size > 0,
        n <= block_size,
        states.len() == block_size + 2,
        actions.len() == block_size + 1,
        states[0].state == (SendState::SendingConsecutive { block_size, seperation_time, sent: 0 }),
        states[0].message.data@.len() > 6 * block_size,
        forall|i: int| 0 <= i <= block_size ==> (#[trigger] states[i]).steps_to(states[i + 1], actions[i]),
    ensures
        forall|i: int| 0 <= i < n ==> (#[trigger] actions[i]) is Transmit,
        states[n as int].state == (SendState::SendingConsecutive {
            block_size,
            seperation_time,
            sent: n as u8,
        }),
        states[n as int].message.data@.len() > 6 * (block_size - n),
    decreases n,
{
    if n > 0 {
        lemma_block_progress(states, actions, block_size, seperation_time, (n - 1) as nat);
        assert(states[n - 1].steps_to(states[n - 1 + 1], actions[n - 1]));
    }
}

/// Abort stops a transfer at once: whenever the transmitter waits or sends
/// and the frame read is a flow-control segment with status Abort, the
/// transfer is aborted, and no later step writes a frame.
pub proof fn lemma_abort_stops(
    pre: Transmitter,
    post: Transmitter,
    payload: Seq<u8>,
    next: Transmitter,
    next_action: SendAction,
)
    requires
        pre.state is AwaitingFlowControl || pre.state is SendingConsecutive,
        decode_spec(payload) matches Some(SegmentView::FlowControl { transfer_allowed, .. })
            && transfer_allowed == Some(FlowControlType::ABORT),
        pre.flow_controlled(payload, post),
        post.steps_to(next, next_action),
    ensures
        post.state == SendState::Aborted,
        post.message == pre.message,
        next_action == SendAction::Finished,
        next.state == SendState::Aborted,
        next.message == pre.message,
{
}

/// The First segment of a message of 8 to 4095 bytes, read by an idle
/// reassembler, leaves it with the declared length and the first five
/// bytes, about to send its one grant.
pub proof fn lemma_first_received(pre: Reassembler, post: Reassembler, message: Seq<u8>)
    requires
        8 <= message.len() <= 4095,
        pre.state == ReceiveState::Idle,
        pre.received(first_segment(message), post),
    ensures
        post.state == ReceiveState::FirstReceived,
        gathered_to(post.message, message, 0),
{
    lemma_segments_rebuild_message(message);
    assert(message.take(5) =~= message.take(cut(message, 0)));
}

/// A reassembler that holds the First and `k` Consecutive segments of
/// `message` and reads segment `k` then holds `k + 1`; once all of them are
/// in, it holds the message.
pub proof fn lemma_consecutive_received(pre: Reassembler, post: Reassembler, message: Seq<u8>, k: nat)
    requires
        8 <= message.len() <= 4095,
        k < consecutive_count(message),
        pre.state == ReceiveState::AccumulatingConsecutive,
        gathered_to(pre.message, message, k),
        pre.received(consecutive_segment(message, k), post),
    ensures
        post.state == ReceiveState::AccumulatingConsecutive,
        gathered_to(post.message, message, k + 1),
        k + 1 == consecutive_count(message) ==> post.message.data@ == message,
{
    let data = chunk(message, k);
    let len = message.len() as int;
    assert(6 * (len / 6) <= len < 6 * (len / 6) + 6);
    assert(cut(message, k) == 5 + 6 * k);
    assert(cut(message, k) < cut(message, k + 1) <= len);
    assert(data.len() == cut(message, k + 1) - cut(message, k));
    lemma_decode_encoding(SegmentView::Consecutive { idx: (k % 16) as u8, data });
    assert(decode_spec(consecutive_segment(message, k)) == Some(
        SegmentView::Consecutive { idx: (k % 16) as u8, data },
    ));
    assert(pre.message.data@.len() == cut(message, k));
    let take = accepted_len(
        pre.message.size as int,
        pre.message.data@.len() as int,
        data.len() as int,
    );
    assert(take == data.len());
    assert(data.take(take) =~= data);
    assert(message.take(cut(message, k)) + data =~= message.take(cut(message, k + 1)));
    if k + 1 == consecutive_count(message) {
        assert(cut(message, k + 1) == len);
        assert(message.take(len) =~= message);
    }
}

/// With the First and `k` Consecutive segments of `message` in, the
/// reassembler asks for another frame while segments are missing, and
/// completes with exactly the message once all of them are in.
pub proof fn lemma_reassembly_completes(
    pre: Reassembler,
    post: Reassembler,
    action: ReceiveAction,
    message: Seq<u8>,
    k: nat,
)
    requires
        8 <= message.len() <= 4095,
        pre.state == ReceiveState::AccumulatingConsecutive,
        gathered_to(pre.message, message, k),
        pre.steps_to(post, action),
    ensures
        k < consecutive_count(message) ==> action == ReceiveAction::AwaitFrame && post.state
            == ReceiveState::AccumulatingConsecutive,
        k >= consecutive_count(message) ==> action == ReceiveAction::Finished && post.state
            == ReceiveState::Complete && post.message.data@ == message,
{
    lemma_count_is_exact(message, k);
    assert(message.take(message.len() as int) =~= message);
}

/// The grant goes out once: only the step right after the First segment
/// writes a frame, and no frame read later brings that state back.
pub proof fn lemma_one_grant(
    pre: Reassembler,
    payload: Seq<u8>,
    read: Reassembler,
    post: Reassembler,
    action: ReceiveAction,
)
    requires
        pre.state != ReceiveState::Idle,
        pre.state != ReceiveState::FirstReceived,
        pre.received(payload, read),
        read.steps_to(post, action),
    ensures
        read.state != ReceiveState::Idle,
        read.state != ReceiveState::FirstReceived,
        !(action is Transmit),
        post.state != ReceiveState::Idle,
        post.state != ReceiveState::FirstReceived,
{
}

} // verus!
