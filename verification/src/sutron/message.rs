//! Reconstructed Sutron messages, which are built from one or more packets.
//!
//! A `Reassembler` builds messages from packets whose messages may interleave.

use crate::sutron::packet::{Packet, PacketView};
use std::collections::HashMap;
use vstd::prelude::*;
use vstd::std_specs::hash::*;

verus! {

broadcast use vstd::std_specs::hash::group_hash_axioms;

/// A message sent from a Sutron system.
#[derive(Debug, PartialEq, Eq)]
pub struct Message {
    /// The raw bytes that make up the message.
    pub data: Vec<u8>,
    /// The time the message began, in seconds since the Unix epoch: the time
    /// of the session of the first packet's burst.
    pub datetime: Option<i64>,
    /// The packets, in order, that were used to create the message.
    pub packets: Vec<Packet>,
}

/// What a `Message` holds.
pub struct MessageView {
    pub data: Seq<u8>,
    pub datetime: Option<i64>,
    pub packets: Seq<PacketView>,
}

impl View for Message {
    type V = MessageView;

    open spec fn view(&self) -> MessageView {
        MessageView {
            data: self.data@,
            datetime: self.datetime,
            packets: self.packets.deep_view(),
        }
    }
}

impl DeepView for Message {
    type V = MessageView;

    open spec fn deep_view(&self) -> MessageView {
        self@
    }
}

/// Errors associated with creating messages.
#[derive(Debug, PartialEq, Eq)]
pub enum Error {
    /// The length of the data does not match the length advertised in the header.
    DataLengthMismatch {
        /// The size as advertised in the packet sub-header.
        sub_header: usize,
        /// The actual length of the data.
        actual: usize,
    },
    /// There are no packets from which to create this message.
    NoPackets,
    /// There is no total bytes field in the first packet of the extended message.
    NoTotalBytes(Packet),
}

/// What an `Error` holds.
pub enum ErrorView {
    DataLengthMismatch { sub_header: usize, actual: usize },
    NoPackets,
    NoTotalBytes(PacketView),
}

impl View for Error {
    type V = ErrorView;

    open spec fn view(&self) -> ErrorView {
        match self {
            Error::DataLengthMismatch { sub_header, actual } => ErrorView::DataLengthMismatch {
                sub_header: *sub_header,
                actual: *actual,
            },
            Error::NoPackets => ErrorView::NoPackets,
            Error::NoTotalBytes(p) => ErrorView::NoTotalBytes(p@),
        }
    }
}

/// The data of the packets, one after another.
pub open spec fn concat_data(packets: Seq<PacketView>) -> Seq<u8>
    decreases packets.len(),
{
    if packets.len() == 0 {
        Seq::empty()
    } else {
        concat_data(packets.drop_last()) + packets.last().data
    }
}

/// The message that the packets make, in the order given.
///
/// A first packet without sub-header is the message by itself. A first packet
/// with a sub-header must declare the total length, and the data of all the
/// packets together must have that length.
pub open spec fn build(packets: Seq<PacketView>) -> Result<MessageView, ErrorView> {
    if packets.len() == 0 {
        Err(ErrorView::NoPackets)
    } else {
        match packets[0].sub_header {
            None => Ok(
                MessageView { data: packets[0].data, datetime: packets[0].datetime(), packets },
            ),
            Some(h) => match h.total_bytes {
                None => Err(ErrorView::NoTotalBytes(packets[0])),
                Some(total) => {
                    let data = concat_data(packets);
                    if data.len() == total {
                        Ok(MessageView { data, datetime: packets[0].datetime(), packets })
                    } else {
                        Err(
                            ErrorView::DataLengthMismatch {
                                sub_header: total,
                                actual: data.len() as usize,
                            },
                        )
                    }
                },
            },
        }
    }
}

/// The view of the result of building a message.
pub open spec fn result_view(r: Result<Message, Error>) -> Result<MessageView, ErrorView> {
    match r {
        Ok(m) => Ok(m@),
        Err(e) => Err(e@),
    }
}

/// The view of an optional message.
pub open spec fn option_view(m: Option<Message>) -> Option<MessageView> {
    match m {
        Some(m) => Some(m@),
        None => None,
    }
}

/// Copies the data of all the packets into one buffer.
fn collect_data(packets: &Vec<Packet>) -> (data: Vec<u8>)
    ensures
        data@ == concat_data(packets.deep_view()),
{
    let mut data: Vec<u8> = Vec::new();
    let ghost all = packets.deep_view();
    let mut i: usize = 0;
    assert(all.take(0) =~= Seq::<PacketView>::empty());
    while i < packets.len()
        invariant
            i <= packets.len(),
            all == packets.deep_view(),
            data@ == concat_data(all.take(i as int)),
        decreases packets.len() - i,
    {
        let bytes: &[u8] = packets[i].data();
        let mut j: usize = 0;
        let ghost before = data@;
        while j < bytes.len()
            invariant
                j <= bytes.len(),
                data@ == before + bytes@.take(j as int),
            decreases bytes.len() - j,
        {
            data.push(bytes[j]);
            assert(bytes@.take(j + 1) =~= bytes@.take(j as int).push(bytes@[j as int]));
            j = j + 1;
        }
        proof {
            assert(bytes@.take(bytes.len() as int) =~= bytes@);
            assert(all.take(i + 1).drop_last() =~= all.take(i as int));
            assert(all.take(i + 1).last() == packets[i as int]@);
        }
        i = i + 1;
    }
    assert(all.take(packets.len() as int) =~= all);
    data
}

impl Message {
    /// Creates a new message from one or more packets.
    pub fn new(packets: Vec<Packet>) -> (r: Result<Message, Error>)
        ensures
            result_view(r) == build(packets.deep_view()),
    {
        let mut packets = packets;
        let ghost all = packets.deep_view();
        if packets.len() == 0 {
            return Err(Error::NoPackets);
        }
        assert(all[0] == packets[0]@);
        let datetime: Option<i64> = packets[0].datetime();
        match packets[0].sub_header() {
            Some(sub_header) => match sub_header.total_bytes {
                Some(total_bytes) => {
                    let data: Vec<u8> = collect_data(&packets);
                    if data.len() == total_bytes {
                        Ok(Message { data, datetime, packets })
                    } else {
                        Err(
                            Error::DataLengthMismatch {
                                sub_header: total_bytes,
                                actual: data.len(),
                            },
                        )
                    }
                },
                None => Err(Error::NoTotalBytes(packets.remove(0))),
            },
            None => {
                let bytes: &[u8] = packets[0].data();
                let data: Vec<u8> = vstd::slice::slice_to_vec(bytes);
                Ok(Message { data, datetime, packets })
            },
        }
    }
}

/// A message that holds the data and nothing else.
impl From<Vec<u8>> for Message {
    fn from(data: Vec<u8>) -> (m: Message)
        ensures
            m@ == (MessageView { data: data@, datetime: None, packets: Seq::empty() }),
    {
        let m = Message { data, datetime: None, packets: Vec::new() };
        assert(m.packets.deep_view() =~= Seq::<PacketView>::empty());
        m
    }
}

/// The conversion is stated by the `ensures` of `from`, over views: a value
/// that holds a `Vec` cannot be written down in ghost code.
impl vstd::std_specs::convert::FromSpecImpl<Vec<u8>> for Message {
    open spec fn obeys_from_spec() -> bool {
        false
    }

    open spec fn from_spec(data: Vec<u8>) -> Message {
        arbitrary()
    }
}

/// Reassembles packets into messages.
#[derive(Debug)]
pub struct Reassembler {
    packet_map: HashMap<u8, Vec<Packet>>,
    recycle_bin: Vec<Packet>,
}

/// The state of a `Reassembler`.
pub struct ReassemblerView {
    /// For every id, the packets collected for the message in progress, in
    /// order of arrival; empty where none is in progress.
    pub pending: Map<u8, Seq<PacketView>>,
    /// The packets that were discarded, in the order in which they were discarded.
    pub recycle_bin: Seq<PacketView>,
}

impl ReassemblerView {
    /// The state in which nothing has arrived.
    pub open spec fn empty() -> ReassemblerView {
        ReassemblerView {
            pending: Map::new(|id: u8| true, |id: u8| Seq::empty()),
            recycle_bin: Seq::empty(),
        }
    }

    /// Every id has a list, possibly empty.
    pub open spec fn wf(self) -> bool {
        forall|id: u8| self.pending.contains_key(id)
    }

    /// The state after `packet` has arrived, and the message that it completed.
    ///
    /// A packet without sub-header is a message by itself and leaves the state
    /// alone. A start packet sends what was collected for its id to the
    /// recycle bin. The packet joins the list of its id; if the list now makes
    /// a message, the message leaves and the list is empty again.
    pub open spec fn add(self, packet: PacketView) -> (ReassemblerView, Option<MessageView>) {
        match packet.sub_header {
            None => (
                self,
                match build(seq![packet]) {
                    Ok(m) => Some(m),
                    Err(_) => None,
                },
            ),
            Some(h) => {
                let collected = self.pending[h.id];
                let kept = if packet.is_start_packet() {
                    Seq::empty()
                } else {
                    collected
                };
                let recycle_bin = if packet.is_start_packet() {
                    self.recycle_bin + collected
                } else {
                    self.recycle_bin
                };
                let list = kept.push(packet);
                match build(list) {
                    Ok(m) => (
                        ReassemblerView {
                            pending: self.pending.insert(h.id, Seq::empty()),
                            recycle_bin,
                        },
                        Some(m),
                    ),
                    Err(_) => (
                        ReassemblerView { pending: self.pending.insert(h.id, list), recycle_bin },
                        None,
                    ),
                }
            },
        }
    }
}

impl View for Reassembler {
    type V = ReassemblerView;

    closed spec fn view(&self) -> ReassemblerView {
        ReassemblerView {
            pending: Map::new(
                |id: u8| true,
                |id: u8|
                    if self.packet_map@.contains_key(id) {
                        self.packet_map@[id].deep_view()
                    } else {
                        Seq::empty()
                    },
            ),
            recycle_bin: self.recycle_bin.deep_view(),
        }
    }
}

/// Copies a list of packets.
fn copy_packets(packets: &Vec<Packet>) -> (copy: Vec<Packet>)
    ensures
        copy.deep_view() == packets.deep_view(),
{
    let mut copy: Vec<Packet> = Vec::new();
    let mut i: usize = 0;
    while i < packets.len()
        invariant
            i <= packets.len(),
            copy.len() == i,
            forall|j: int| 0 <= j < i ==> copy[j]@ == packets[j]@,
        decreases packets.len() - i,
    {
        copy.push(packets[i].clone());
        i = i + 1;
    }
    assert(copy.deep_view() =~= packets.deep_view());
    copy
}

impl Reassembler {
    /// The state of a reassembler has a list for every id.
    pub proof fn lemma_view_wf(self)
        ensures
            self@.wf(),
    {
    }

    /// Creates a new reassembler.
    pub fn new() -> (r: Reassembler)
        ensures
            r@ == ReassemblerView::empty(),
    {
        let r = Reassembler { packet_map: HashMap::new(), recycle_bin: Vec::new() };
        assert(r@.pending =~= ReassemblerView::empty().pending);
        assert(r@.recycle_bin =~= ReassemblerView::empty().recycle_bin);
        r
    }

    /// Adds a new packet to the reassembler and returns a message if one was completed.
    pub fn add(&mut self, packet: Packet) -> (message: Option<Message>)
        ensures
            (final(self)@, option_view(message)) == old(self)@.add(packet@),
    {
        let ghost before = self@;
        match packet.sub_header() {
            Some(sub_header) => {
                let id: u8 = sub_header.id;
                let ghost collected = before.pending[id];
                let mut entry: Vec<Packet> = match self.packet_map.remove(&id) {
                    Some(entry) => entry,
                    None => Vec::new(),
                };
                assert(entry.deep_view() =~= collected);
                if packet.is_start_packet() {
                    let ghost bin = self.recycle_bin.deep_view();
                    self.recycle_bin.append(&mut entry);
                    assert(self.recycle_bin.deep_view() =~= bin + collected);
                    assert(entry.deep_view() =~= Seq::<PacketView>::empty());
                }
                let ghost kept = entry.deep_view();
                entry.push(packet);
                assert(entry.deep_view() =~= kept.push(packet@));
                match Message::new(copy_packets(&entry)) {
                    Ok(message) => {
                        let cleared: Vec<Packet> = Vec::new();
                        assert(cleared.deep_view() =~= Seq::<PacketView>::empty());
                        self.packet_map.insert(id, cleared);
                        assert(self@.pending =~= before.add(packet@).0.pending);
                        Some(message)
                    },
                    Err(_) => {
                        self.packet_map.insert(id, entry);
                        assert(self@.pending =~= before.add(packet@).0.pending);
                        None
                    },
                }
            },
            None => {
                let mut alone: Vec<Packet> = Vec::new();
                alone.push(packet);
                assert(alone.deep_view() =~= seq![packet@]);
                match Message::new(alone) {
                    Ok(message) => Some(message),
                    Err(_) => None,
                }
            },
        }
    }

    /// Returns the packets that have been discarded by this reassembler.
    ///
    /// Packets are discarded when a new start packet comes in with the same id.
    pub fn recycle_bin(&self) -> (bin: &[Packet])
        ensures
            bin@.len() == self@.recycle_bin.len(),
            forall|i: int| 0 <= i < bin@.len() ==> (#[trigger] bin@[i])@ == self@.recycle_bin[i],
    {
        self.recycle_bin.as_slice()
    }
}

/// A start packet that declares the length of its own data is a message by
/// itself, in whatever state it arrives: the message holds that data and that
/// packet alone, and nothing stays behind for its id.
pub proof fn lemma_whole_start_packet_completes(state: ReassemblerView, packet: PacketView)
    requires
        packet.sub_header is Some,
        packet.data.len() <= usize::MAX,
        packet.sub_header->0.total_bytes == Some(packet.data.len() as usize),
    ensures
        state.add(packet).1 == Some(
            MessageView { data: packet.data, datetime: packet.datetime(), packets: seq![packet] },
        ),
        state.add(packet).0.pending[packet.sub_header->0.id] == Seq::<PacketView>::empty(),
{
    let list = Seq::<PacketView>::empty().push(packet);
    assert(list =~= seq![packet]);
    assert(list.drop_last() =~= Seq::<PacketView>::empty());
    assert(concat_data(list.drop_last()) =~= Seq::<u8>::empty());
    assert(concat_data(list) =~= packet.data);
}

/// A start packet and the continuation that brings the data to the declared
/// length make a message: the start packet alone completes nothing, and the
/// continuation completes the message of both, with the data of the start
/// packet first and the time of the start packet.
pub proof fn lemma_continuation_completes(
    state: ReassemblerView,
    start: PacketView,
    continuation: PacketView,
)
    requires
        start.sub_header is Some,
        start.sub_header->0.total_bytes is Some,
        continuation.sub_header is Some,
        continuation.sub_header->0.id == start.sub_header->0.id,
        continuation.sub_header->0.total_bytes is None,
        start.data.len() != start.sub_header->0.total_bytes->0,
        start.data.len() + continuation.data.len() == start.sub_header->0.total_bytes->0,
    ensures
        state.add(start).1 is None,
        state.add(start).0.add(continuation).1 == Some(
            MessageView {
                data: start.data + continuation.data,
                datetime: start.datetime(),
                packets: seq![start, continuation],
            },
        ),
        state.add(start).0.add(continuation).0.pending[start.sub_header->0.id] == Seq::<
            PacketView,
        >::empty(),
{
    let first = Seq::<PacketView>::empty().push(start);
    assert(first.drop_last() =~= Seq::<PacketView>::empty());
    assert(concat_data(first.drop_last()) =~= Seq::<u8>::empty());
    assert(concat_data(first) =~= start.data);
    let both = first.push(continuation);
    assert(both.drop_last() =~= first);
    assert(concat_data(both) =~= start.data + continuation.data);
    assert(both =~= seq![start, continuation]);
}

/// Messages with different ids do not touch each other: a packet changes the
/// list of no id but its own, and a packet without sub-header changes none.
pub proof fn lemma_add_keeps_other_ids(state: ReassemblerView, packet: PacketView, id: u8)
    requires
        state.wf(),
        packet.sub_header is Some ==> packet.sub_header->0.id != id,
    ensures
        state.add(packet).0.pending[id] == state.pending[id],
        state.add(packet).0.wf(),
{
}

/// A start packet resets its id: what was collected for the id goes to the
/// end of the recycle bin, and the message in progress begins with the start
/// packet. Any other packet leaves the recycle bin alone.
pub proof fn lemma_start_packet_resets(state: ReassemblerView, packet: PacketView)
    requires
        packet.sub_header is Some,
    ensures
        packet.is_start_packet() ==> state.add(packet).0.recycle_bin == state.recycle_bin
            + state.pending[packet.sub_header->0.id],
        !packet.is_start_packet() ==> state.add(packet).0.recycle_bin == state.recycle_bin,
        packet.is_start_packet() && state.add(packet).1 is None ==> state.add(packet).0.pending[packet.sub_header->0.id]
            == seq![packet],
        state.add(packet).1 is Some ==> state.add(packet).1->0.packets[0].is_start_packet(),
{
    if packet.is_start_packet() {
        assert(Seq::<PacketView>::empty().push(packet) =~= seq![packet]);
    }
}

/// The data of a message that was built from packets with a sub-header is the
/// data of its packets in order, and as long as the first of them declared.
pub proof fn lemma_built_message_has_declared_length(packets: Seq<PacketView>)
    requires
        build(packets) is Ok,
        packets[0].sub_header is Some,
    ensures
        packets[0].sub_header->0.total_bytes is Some,
        build(packets)->Ok_0.data == concat_data(packets),
        build(packets)->Ok_0.data.len() == packets[0].sub_header->0.total_bytes->0,
        build(packets)->Ok_0.packets == packets,
{
}

} // verus!
