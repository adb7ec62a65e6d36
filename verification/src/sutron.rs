//! Sutron messages, rebuilt from the payloads of Iridium SBD bursts.
//!
//! A data logger splits a long message over several bursts; each burst
//! carries one packet.

pub mod message;
pub mod packet;

use crate::order::{sort_by_time, sorted_by_time, time_reader};
use crate::sutron::message::{Message, MessageView, Reassembler, ReassemblerView};
use crate::sutron::packet::{parse, Burst, BurstView, Packet, PacketView};
use vstd::prelude::*;

verus! {

/// The packet that a burst carries, if its payload parses.
pub open spec fn packet_of(burst: BurstView) -> Option<PacketView> {
    match parse(burst.payload) {
        Ok(p) => Some(PacketView { message: Some(burst), ..p }),
        Err(_) => None,
    }
}

/// The messages that a reassembler in state `state` completes when the bursts
/// arrive in the order given; bursts whose payload does not parse are passed over.
pub open spec fn reassembled_from(state: ReassemblerView, bursts: Seq<BurstView>) -> Seq<
    MessageView,
>
    decreases bursts.len(),
{
    if bursts.len() == 0 {
        Seq::empty()
    } else {
        match packet_of(bursts[0]) {
            None => reassembled_from(state, bursts.skip(1)),
            Some(packet) => {
                let (next, message) = state.add(packet);
                match message {
                    Some(m) => seq![m] + reassembled_from(next, bursts.skip(1)),
                    None => reassembled_from(next, bursts.skip(1)),
                }
            },
        }
    }
}

/// Reassembles Sutron messages from bursts.
///
/// All exceptional conditions are discarded silently, and only successfully
/// reconstructed messages are returned. For finer-grained control, use
/// `message::Reassembler`.
pub fn reassemble(bursts: Vec<Burst>) -> (messages: Vec<Message>)
    ensures
        messages.deep_view() == reassembled_from(ReassemblerView::empty(), bursts.deep_view()),
{
    let mut reassembler = Reassembler::new();
    let mut messages: Vec<Message> = Vec::new();
    let ghost all = bursts.deep_view();
    let mut i: usize = 0;
    assert(all.skip(0) =~= all);
    assert(messages.deep_view() =~= Seq::<MessageView>::empty());
    while i < bursts.len()
        invariant
            i <= bursts.len(),
            all == bursts.deep_view(),
            messages.deep_view() + reassembled_from(reassembler@, all.skip(i as int))
                == reassembled_from(ReassemblerView::empty(), all),
        decreases bursts.len() - i,
    {
        let ghost state = reassembler@;
        let ghost done = messages.deep_view();
        proof {
            assert(all.skip(i as int)[0] == bursts[i as int]@);
            assert(all.skip(i as int).skip(1) =~= all.skip(i + 1));
        }
        match Packet::from_message(bursts[i].clone()) {
            Ok(packet) => {
                assert(packet_of(bursts[i as int]@) == Some(packet@));
                match reassembler.add(packet) {
                    Some(message) => {
                        messages.push(message);
                        assert(messages.deep_view() =~= done.push(message@));
                        assert(messages.deep_view() + reassembled_from(
                            reassembler@,
                            all.skip(i + 1),
                        ) =~= done + reassembled_from(state, all.skip(i as int)));
                    },
                    None => {},
                }
            },
            Err(_) => {},
        }
        i = i + 1;
    }
    messages
}

/// Why some packets are not exactly one message.
#[derive(Clone, Copy, Debug, PartialEq, Eq, Structural)]
pub enum SingleMessageError {
    /// The packets end before a message is complete.
    NotEnough,
    /// A message is complete before the packets end.
    TooMany,
}

/// The one message that the packets make for a reassembler in state `state`,
/// taken in the order given: the last packet, and no packet before it,
/// completes a message.
pub open spec fn single_message_from(state: ReassemblerView, packets: Seq<PacketView>) -> Result<
    MessageView,
    SingleMessageError,
>
    decreases packets.len(),
{
    if packets.len() == 0 {
        Err(SingleMessageError::NotEnough)
    } else {
        match state.add(packets[0]).1 {
            Some(message) => if packets.len() == 1 {
                Ok(message)
            } else {
                Err(SingleMessageError::TooMany)
            },
            None => single_message_from(state.add(packets[0]).0, packets.skip(1)),
        }
    }
}

/// Reassembles the one message that the packets make, taken from the oldest
/// to the newest.
pub fn single_message(packets: Vec<Packet>) -> (r: Result<Message, SingleMessageError>)
    ensures
        match single_message_from(
            ReassemblerView::empty(),
            sorted_by_time(packets.deep_view(), time_reader::<Packet>()),
        ) {
            Ok(message) => r is Ok && r->Ok_0@ == message,
            Err(e) => r == Err::<Message, SingleMessageError>(e),
        },
{
    let ghost given = packets.deep_view();
    let ordered: Vec<Packet> = sort_by_time(packets);
    let ghost all = ordered.deep_view();
    let mut reassembler = Reassembler::new();
    let mut i: usize = 0;
    assert(all.skip(0) =~= all);
    while i < ordered.len()
        invariant
            i <= ordered.len(),
            all == ordered.deep_view(),
            given == packets.deep_view(),
            all == sorted_by_time(given, time_reader::<Packet>()),
            single_message_from(reassembler@, all.skip(i as int)) == single_message_from(
                ReassemblerView::empty(),
                all,
            ),
        decreases ordered.len() - i,
    {
        proof {
            assert(all.skip(i as int)[0] == ordered[i as int]@);
            assert(all.skip(i as int).skip(1) =~= all.skip(i + 1));
        }
        if let Some(message) = reassembler.add(ordered[i].clone()) {
            if i + 1 == ordered.len() {
                return Ok(message);
            } else {
                return Err(SingleMessageError::TooMany);
            }
        }
        i = i + 1;
    }
    Err(SingleMessageError::NotEnough)
}

} // verus!
