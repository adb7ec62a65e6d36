//! Sutron packets, which correspond one-to-one with SBD burst payloads.

use crate::text::{
    join, join_commas, parse_decimal, parse_u8, parse_usize, split, split_fields, string_from_utf8,
};
use vstd::prelude::*;
use vstd::slice::{slice_subrange, slice_to_vec};
use vstd::string::*;
use vstd::utf8::{decode_utf8, valid_utf8};

verus! {

/// The filler byte that may precede the type byte.
pub const LOOK_TO_NEXT_BYTE_FOR_MEANING: u8 = 0x7e;

/// The byte that ends a sub-header.
pub const SUB_HEADER_TERMINATOR: u8 = 0x3a;

/// The type of packet.
#[derive(Clone, Copy, Debug, PartialEq, Eq, Structural)]
pub enum Type {
    SelfTimed,
    EnteringAlarm,
    ExitingAlarm,
    CommandResponse,
    ForcedTransmission,
    Reserved(u8),
    UserDefined,
    BinaryData,
}

impl Type {
    /// The type that a type byte stands for.
    pub open spec fn of_byte(n: u8) -> Type {
        if n == 0x30 || n == 0x31 {
            Type::SelfTimed
        } else if n == 0x32 || n == 0x33 {
            Type::EnteringAlarm
        } else if n == 0x34 || n == 0x35 {
            Type::ExitingAlarm
        } else if n == 0x36 || n == 0x37 {
            Type::CommandResponse
        } else if n == 0x38 || n == 0x39 {
            Type::ForcedTransmission
        } else if n == 0x7d {
            Type::UserDefined
        } else if n == 0xff {
            Type::BinaryData
        } else {
            Type::Reserved(n)
        }
    }

    /// Classifies a type byte.
    pub fn from_byte(n: u8) -> (t: Type)
        ensures
            t == Type::of_byte(n),
    {
        match n {
            0x30 | 0x31 => Type::SelfTimed,
            0x32 | 0x33 => Type::EnteringAlarm,
            0x34 | 0x35 => Type::ExitingAlarm,
            0x36 | 0x37 => Type::CommandResponse,
            0x38 | 0x39 => Type::ForcedTransmission,
            0x7d => Type::UserDefined,
            0xff => Type::BinaryData,
            _ => Type::Reserved(n),
        }
    }
}

/// Classifies a type byte.
impl From<u8> for Type {
    fn from(n: u8) -> (t: Type) {
        Type::from_byte(n)
    }
}

impl vstd::std_specs::convert::FromSpecImpl<u8> for Type {
    open spec fn obeys_from_spec() -> bool {
        true
    }

    open spec fn from_spec(n: u8) -> Type {
        Type::of_byte(n)
    }
}

/// Whether a type byte announces a sub-header: the odd digits `1` to `9`.
pub open spec fn spec_is_extended(n: u8) -> bool {
    0x30 < n <= 0x39 && n % 2 == 1
}

/// Returns true if the type byte marks an extended packet, one with a sub-header.
#[verifier::when_used_as_spec(spec_is_extended)]
pub fn is_extended(n: u8) -> (b: bool)
    ensures
        b == spec_is_extended(n),
{
    n > 0x30 && n <= 0x39 && n % 2 == 1
}

/// One transport burst: an Iridium SBD message as far as a packet needs it.
#[derive(Debug, PartialEq, Eq)]
pub struct Burst {
    /// The bytes that the burst carried.
    pub payload: Vec<u8>,
    /// The time of the session in which the burst arrived, in seconds since the Unix epoch.
    pub time_of_session: Option<i64>,
}

/// What a `Burst` holds.
pub struct BurstView {
    pub payload: Seq<u8>,
    pub time_of_session: Option<i64>,
}

impl View for Burst {
    type V = BurstView;

    open spec fn view(&self) -> BurstView {
        BurstView { payload: self.payload@, time_of_session: self.time_of_session }
    }
}

impl DeepView for Burst {
    type V = BurstView;

    open spec fn deep_view(&self) -> BurstView {
        self@
    }
}

impl Clone for Burst {
    fn clone(&self) -> (copy: Burst)
        ensures
            copy@ == self@,
    {
        Burst { payload: self.payload.clone(), time_of_session: self.time_of_session }
    }
}

/// A packet sub-header.
#[derive(Clone, Copy, Debug, PartialEq, Eq, Structural)]
pub struct SubHeader {
    /// The identifier of the message that the packet belongs to.
    pub id: u8,
    /// The byte number at which this packet starts.
    pub start_byte: usize,
    /// The total bytes in the complete message; only a start packet has it.
    pub total_bytes: Option<usize>,
}

/// An error returned when trying to parse a packet.
#[derive(Debug, PartialEq, Eq)]
pub enum Error {
    /// There are characters before the first comma in the sub-header.
    LeadingSubHeaderCharacters(String),
    /// There is no packet id in the sub-header, or it is no number that fits in a byte.
    MissingId,
    /// There is no packet type byte to start the packet.
    MissingPacketTypeByte,
    /// There is no start byte field in the sub-header, or it is no number.
    MissingStartByte,
    /// A field that should hold the station name, or the total bytes, holds neither.
    InvalidStationNameField(String),
    /// There are characters after the sub-header that shouldn't be there.
    TrailingSubHeaderCharacters(String),
    /// The sub-header is not UTF-8 text.
    InvalidSubHeaderText(Vec<u8>),
}

/// What an `Error` holds.
pub enum ErrorView {
    LeadingSubHeaderCharacters(Seq<char>),
    MissingId,
    MissingPacketTypeByte,
    MissingStartByte,
    InvalidStationNameField(Seq<char>),
    TrailingSubHeaderCharacters(Seq<char>),
    InvalidSubHeaderText(Seq<u8>),
}

impl View for Error {
    type V = ErrorView;

    open spec fn view(&self) -> ErrorView {
        match self {
            Error::LeadingSubHeaderCharacters(s) => ErrorView::LeadingSubHeaderCharacters(s@),
            Error::MissingId => ErrorView::MissingId,
            Error::MissingPacketTypeByte => ErrorView::MissingPacketTypeByte,
            Error::MissingStartByte => ErrorView::MissingStartByte,
            Error::InvalidStationNameField(s) => ErrorView::InvalidStationNameField(s@),
            Error::TrailingSubHeaderCharacters(s) => ErrorView::TrailingSubHeaderCharacters(s@),
            Error::InvalidSubHeaderText(b) => ErrorView::InvalidSubHeaderText(b@),
        }
    }
}

/// A single burst payload, parsed: part of a Sutron message, or a whole one.
#[derive(Debug, PartialEq, Eq)]
pub struct Packet {
    data: Vec<u8>,
    message: Option<Burst>,
    sub_header: Option<SubHeader>,
    station_name: Option<String>,
    type_: Type,
}

/// What a `Packet` holds.
pub struct PacketView {
    pub data: Seq<u8>,
    pub message: Option<BurstView>,
    pub sub_header: Option<SubHeader>,
    pub station_name: Option<Seq<char>>,
    pub type_: Type,
}

impl PacketView {
    /// Whether the packet starts a message: it has no sub-header, or one with a total.
    pub open spec fn is_start_packet(self) -> bool {
        match self.sub_header {
            Some(h) => h.total_bytes is Some,
            None => true,
        }
    }

    /// The time of the burst that carried the packet.
    pub open spec fn datetime(self) -> Option<i64> {
        match self.message {
            Some(m) => m.time_of_session,
            None => None,
        }
    }
}

impl View for Packet {
    type V = PacketView;

    closed spec fn view(&self) -> PacketView {
        PacketView {
            data: self.data@,
            message: match self.message {
                Some(m) => Some(m@),
                None => None,
            },
            sub_header: self.sub_header,
            station_name: match self.station_name {
                Some(s) => Some(s@),
                None => None,
            },
            type_: self.type_,
        }
    }
}

impl DeepView for Packet {
    type V = PacketView;

    open spec fn deep_view(&self) -> PacketView {
        self@
    }
}

impl Clone for Packet {
    fn clone(&self) -> (copy: Packet)
        ensures
            copy@ == self@,
    {
        Packet {
            data: self.data.clone(),
            message: match &self.message {
                Some(m) => Some(m.clone()),
                None => None,
            },
            sub_header: self.sub_header,
            station_name: match &self.station_name {
                Some(s) => Some(s.clone()),
                None => None,
            },
            type_: self.type_,
        }
    }
}

/// The number of filler bytes at the start of `bytes`.
pub open spec fn leading_fillers(bytes: Seq<u8>) -> int
    decreases bytes.len(),
{
    if bytes.len() > 0 && bytes[0] == LOOK_TO_NEXT_BYTE_FOR_MEANING {
        1 + leading_fillers(bytes.skip(1))
    } else {
        0
    }
}

/// The index of the first sub-header terminator in `bytes`, or the length of
/// `bytes` if there is none.
pub open spec fn find_terminator(bytes: Seq<u8>) -> int
    decreases bytes.len(),
{
    if bytes.len() == 0 || bytes[0] == SUB_HEADER_TERMINATOR {
        0
    } else {
        1 + find_terminator(bytes.skip(1))
    }
}

/// The bytes before the first terminator.
pub open spec fn before_terminator(bytes: Seq<u8>) -> Seq<u8> {
    bytes.take(find_terminator(bytes))
}

/// The bytes after the first terminator; none if there is no terminator.
pub open spec fn after_terminator(bytes: Seq<u8>) -> Seq<u8> {
    if find_terminator(bytes) < bytes.len() {
        bytes.skip(find_terminator(bytes) + 1)
    } else {
        Seq::empty()
    }
}

/// The station name in a field of the form `N=<name>`.
pub open spec fn station_name_of(field: Seq<char>) -> Option<Seq<char>> {
    if field.len() >= 2 && field[0] == 'N' && field[1] == '=' {
        Some(field.skip(2))
    } else {
        None
    }
}

/// The station name that a non-extended packet carries in front of its data,
/// in the form `,N=<name>` up to the terminator.
pub open spec fn plain_station_name(bytes: Seq<u8>) -> Option<Seq<char>> {
    let header = before_terminator(bytes);
    let text = if valid_utf8(header) {
        decode_utf8(header)
    } else {
        Seq::empty()
    };
    if text.len() > 0 && text[0] == ',' {
        station_name_of(text.skip(1))
    } else {
        None
    }
}

/// Accepts what was read of a sub-header if nothing but at most one comma follows.
pub open spec fn without_trailing(
    fields: Seq<Seq<char>>,
    used: int,
    sub_header: SubHeader,
    station_name: Option<Seq<char>>,
) -> Result<(SubHeader, Option<Seq<char>>), ErrorView> {
    let remaining = join(fields.skip(used), ',');
    if remaining.len() > 0 {
        Err(ErrorView::TrailingSubHeaderCharacters(seq![','] + remaining))
    } else {
        Ok((sub_header, station_name))
    }
}

/// What the text of a sub-header says: `,<id>,<start>[,<total>][,N=<name>]`.
pub open spec fn sub_header_of(text: Seq<char>) -> Result<
    (SubHeader, Option<Seq<char>>),
    ErrorView,
> {
    let fields = split(text, ',');
    if fields[0].len() > 0 {
        Err(ErrorView::LeadingSubHeaderCharacters(fields[0]))
    } else if fields.len() < 2 || parse_decimal(fields[1], 255) is None {
        Err(ErrorView::MissingId)
    } else if fields.len() < 3 || parse_decimal(fields[2], usize::MAX as nat) is None {
        Err(ErrorView::MissingStartByte)
    } else {
        let id = parse_decimal(fields[1], 255)->0 as u8;
        let start_byte = parse_decimal(fields[2], usize::MAX as nat)->0 as usize;
        let continuation = SubHeader { id, start_byte, total_bytes: None };
        if fields.len() == 3 {
            Ok((continuation, None))
        } else if station_name_of(fields[3]) is Some {
            without_trailing(fields, 4, continuation, station_name_of(fields[3]))
        } else {
            match parse_decimal(fields[3], usize::MAX as nat) {
                None => Err(ErrorView::InvalidStationNameField(fields[3])),
                Some(total) => {
                    let start = SubHeader { id, start_byte, total_bytes: Some(total as usize) };
                    if fields.len() == 4 {
                        Ok((start, None))
                    } else {
                        match station_name_of(fields[4]) {
                            None => Err(ErrorView::InvalidStationNameField(fields[4])),
                            Some(name) => without_trailing(fields, 5, start, Some(name)),
                        }
                    }
                },
            }
        }
    }
}

/// What a burst payload parses to.
pub open spec fn parse(bytes: Seq<u8>) -> Result<PacketView, ErrorView> {
    let fillers = leading_fillers(bytes);
    if fillers >= bytes.len() {
        Err(ErrorView::MissingPacketTypeByte)
    } else {
        let type_byte = bytes[fillers];
        let rest = bytes.skip(fillers + 1);
        if spec_is_extended(type_byte) {
            let header = before_terminator(rest);
            if !valid_utf8(header) {
                Err(ErrorView::InvalidSubHeaderText(header))
            } else {
                match sub_header_of(decode_utf8(header)) {
                    Err(e) => Err(e),
                    Ok((sub_header, station_name)) => Ok(
                        PacketView {
                            data: after_terminator(rest),
                            message: None,
                            sub_header: Some(sub_header),
                            station_name,
                            type_: Type::of_byte(type_byte),
                        },
                    ),
                }
            }
        } else {
            let station_name = plain_station_name(rest);
            Ok(
                PacketView {
                    data: if station_name is Some {
                        after_terminator(rest)
                    } else {
                        rest
                    },
                    message: None,
                    sub_header: None,
                    station_name,
                    type_: Type::of_byte(type_byte),
                },
            )
        }
    }
}

/// The view of a parse result.
pub open spec fn result_view(r: Result<Packet, Error>) -> Result<PacketView, ErrorView> {
    match r {
        Ok(p) => Ok(p@),
        Err(e) => Err(e@),
    }
}

/// The view of an optional string.
pub open spec fn option_view(s: Option<String>) -> Option<Seq<char>> {
    match s {
        Some(s) => Some(s@),
        None => None,
    }
}

/// `find_terminator` is the one index before which no terminator stands and
/// at which one does, or the bytes end.
pub proof fn lemma_find_terminator(bytes: Seq<u8>, n: int)
    requires
        0 <= n <= bytes.len(),
        forall|j: int| 0 <= j < n ==> bytes[j] != SUB_HEADER_TERMINATOR,
        n < bytes.len() ==> bytes[n] == SUB_HEADER_TERMINATOR,
    ensures
        find_terminator(bytes) == n,
    decreases bytes.len(),
{
    if n > 0 {
        assert(bytes[0] != SUB_HEADER_TERMINATOR);
        assert forall|j: int| 0 <= j < n - 1 implies bytes.skip(1)[j]
            != SUB_HEADER_TERMINATOR by {
            assert(bytes.skip(1)[j] == bytes[j + 1]);
        }
        lemma_find_terminator(bytes.skip(1), n - 1);
    }
}

/// `leading_fillers` is the one index before which only fillers stand and at
/// which none does, or the bytes end.
pub proof fn lemma_leading_fillers(bytes: Seq<u8>, n: int)
    requires
        0 <= n <= bytes.len(),
        forall|j: int| 0 <= j < n ==> bytes[j] == LOOK_TO_NEXT_BYTE_FOR_MEANING,
        n < bytes.len() ==> bytes[n] != LOOK_TO_NEXT_BYTE_FOR_MEANING,
    ensures
        leading_fillers(bytes) == n,
    decreases bytes.len(),
{
    if n > 0 {
        assert(bytes[0] == LOOK_TO_NEXT_BYTE_FOR_MEANING);
        assert forall|j: int| 0 <= j < n - 1 implies bytes.skip(1)[j]
            == LOOK_TO_NEXT_BYTE_FOR_MEANING by {
            assert(bytes.skip(1)[j] == bytes[j + 1]);
        }
        lemma_leading_fillers(bytes.skip(1), n - 1);
    }
}

/// Finds the first terminator at or after `from`.
fn terminator_index(bytes: &[u8], from: usize) -> (end: usize)
    requires
        from <= bytes.len(),
    ensures
        from <= end <= bytes.len(),
        end - from == find_terminator(bytes@.skip(from as int)),
{
    let mut i: usize = from;
    while i < bytes.len() && bytes[i] != SUB_HEADER_TERMINATOR
        invariant
            from <= i <= bytes.len(),
            forall|j: int| from <= j < i ==> bytes@[j] != SUB_HEADER_TERMINATOR,
        decreases bytes.len() - i,
    {
        i = i + 1;
    }
    proof {
        lemma_find_terminator(bytes@.skip(from as int), i - from);
    }
    i
}

/// Reads a station name from a sub-header field of the form `N=<name>`.
pub fn parse_sub_header_station_name(s: &str) -> (name: Option<String>)
    ensures
        option_view(name) == station_name_of(s@),
{
    let len: usize = s.unicode_len();
    if len >= 2 && s.get_char(0) == 'N' && s.get_char(1) == '=' {
        let name: String = s.substring_char(2, len).to_owned();
        assert(s@.subrange(2, len as int) =~= s@.skip(2));
        Some(name)
    } else {
        None
    }
}

/// Reads the station name that may stand in front of the data of a
/// non-extended packet, from the bytes that follow its type byte.
pub fn station_name_from_non_extended_sub_header(bytes: &[u8]) -> (name: Option<String>)
    ensures
        option_view(name) == plain_station_name(bytes@),
{
    let end: usize = terminator_index(bytes, 0);
    assert(bytes@.skip(0) =~= bytes@);
    let header: Vec<u8> = slice_to_vec(slice_subrange(bytes, 0, end));
    assert(header@ =~= before_terminator(bytes@));
    let text: String = match string_from_utf8(header) {
        Some(text) => text,
        None => String::new(),
    };
    let len: usize = text.as_str().unicode_len();
    if len > 0 && text.as_str().get_char(0) == ',' {
        let field: &str = text.as_str().substring_char(1, len);
        assert(text@.subrange(1, len as int) =~= text@.skip(1));
        parse_sub_header_station_name(field)
    } else {
        None
    }
}

/// The view of what a sub-header parses to.
pub open spec fn sub_header_result_view(r: Result<(SubHeader, Option<String>), Error>) -> Result<
    (SubHeader, Option<Seq<char>>),
    ErrorView,
> {
    match r {
        Ok((h, name)) => Ok((h, option_view(name))),
        Err(e) => Err(e@),
    }
}

/// Fails if more than one comma follows the fields that were read.
fn check_trailing(fields: &Vec<String>, used: usize, sub_header: SubHeader, name: String) -> (r:
    Result<(SubHeader, Option<String>), Error>)
    requires
        used <= fields.len(),
    ensures
        sub_header_result_view(r) == without_trailing(
            fields.deep_view(),
            used as int,
            sub_header,
            Some(name@),
        ),
{
    let remaining: String = join_commas(fields, used);
    if remaining.as_str().unicode_len() > 0 {
        let mut trailing: String = ",".to_owned();
        trailing.append(remaining.as_str());
        proof {
            reveal_strlit(",");
            assert(",".view() =~= seq![',']);
        }
        Err(Error::TrailingSubHeaderCharacters(trailing))
    } else {
        Ok((sub_header, Some(name)))
    }
}

/// Parses the text of a sub-header, without its terminator.
pub fn parse_sub_header(text: &str) -> (r: Result<(SubHeader, Option<String>), Error>)
    ensures
        sub_header_result_view(r) == sub_header_of(text@),
{
    let mut fields: Vec<String> = split_fields(text, ',');
    let ghost all = fields.deep_view();
    assert(all.len() >= 1) by {
        assert(split(text@, ',').len() >= 1);
    }
    assert(forall|i: int| 0 <= i < fields.len() ==> all[i] == (#[trigger] fields[i])@);
    if fields[0].as_str().unicode_len() > 0 {
        let first: String = fields.swap_remove(0);
        return Err(Error::LeadingSubHeaderCharacters(first));
    }
    if fields.len() < 2 {
        return Err(Error::MissingId);
    }
    let id: u8 = match parse_u8(fields[1].as_str()) {
        Some(id) => id,
        None => {
            return Err(Error::MissingId);
        },
    };
    if fields.len() < 3 {
        return Err(Error::MissingStartByte);
    }
    let start_byte: usize = match parse_usize(fields[2].as_str()) {
        Some(n) => n,
        None => {
            return Err(Error::MissingStartByte);
        },
    };
    let continuation = SubHeader { id, start_byte, total_bytes: None };
    if fields.len() == 3 {
        return Ok((continuation, None));
    }
    if let Some(name) = parse_sub_header_station_name(fields[3].as_str()) {
        return check_trailing(&fields, 4, continuation, name);
    }
    let total_bytes: usize = match parse_usize(fields[3].as_str()) {
        Some(n) => n,
        None => {
            let field: String = fields.swap_remove(3);
            return Err(Error::InvalidStationNameField(field));
        },
    };
    let start = SubHeader { id, start_byte, total_bytes: Some(total_bytes) };
    if fields.len() == 4 {
        return Ok((start, None));
    }
    match parse_sub_header_station_name(fields[4].as_str()) {
        Some(name) => check_trailing(&fields, 5, start, name),
        None => {
            let field: String = fields.swap_remove(4);
            Err(Error::InvalidStationNameField(field))
        },
    }
}

impl Packet {
    /// Creates a packet from the payload of a burst.
    pub fn new(bytes: &[u8]) -> (r: Result<Packet, Error>)
        ensures
            result_view(r) == parse(bytes@),
    {
        let mut i: usize = 0;
        while i < bytes.len() && bytes[i] == LOOK_TO_NEXT_BYTE_FOR_MEANING
            invariant
                i <= bytes.len(),
                forall|j: int| 0 <= j < i ==> bytes@[j] == LOOK_TO_NEXT_BYTE_FOR_MEANING,
            decreases bytes.len() - i,
        {
            i = i + 1;
        }
        proof {
            lemma_leading_fillers(bytes@, i as int);
        }
        if i >= bytes.len() {
            return Err(Error::MissingPacketTypeByte);
        }
        let type_byte: u8 = bytes[i];
        let start: usize = i + 1;
        let ghost rest = bytes@.skip(start as int);
        let end: usize = terminator_index(bytes, start);
        let after: usize = if end < bytes.len() {
            end + 1
        } else {
            end
        };
        proof {
            assert(bytes@.subrange(start as int, end as int) =~= before_terminator(rest));
            assert(bytes@.subrange(after as int, bytes.len() as int) =~= after_terminator(rest));
            assert(bytes@.subrange(start as int, bytes.len() as int) =~= rest);
        }
        if is_extended(type_byte) {
            let header: Vec<u8> = slice_to_vec(slice_subrange(bytes, start, end));
            let text: String = match string_from_utf8(header) {
                Some(text) => text,
                None => {
                    return Err(
                        Error::InvalidSubHeaderText(
                            slice_to_vec(slice_subrange(bytes, start, end)),
                        ),
                    );
                },
            };
            match parse_sub_header(text.as_str()) {
                Err(e) => Err(e),
                Ok((sub_header, station_name)) => Ok(
                    Packet {
                        data: slice_to_vec(slice_subrange(bytes, after, bytes.len())),
                        message: None,
                        sub_header: Some(sub_header),
                        station_name,
                        type_: Type::from_byte(type_byte),
                    },
                ),
            }
        } else {
            let station_name: Option<String> = station_name_from_non_extended_sub_header(
                slice_subrange(bytes, start, bytes.len()),
            );
            let data_start: usize = if station_name.is_some() {
                after
            } else {
                start
            };
            Ok(
                Packet {
                    data: slice_to_vec(slice_subrange(bytes, data_start, bytes.len())),
                    message: None,
                    sub_header: None,
                    station_name,
                    type_: Type::from_byte(type_byte),
                },
            )
        }
    }

    /// Creates a packet from a burst, and keeps the burst.
    pub fn from_message(message: Burst) -> (r: Result<Packet, Error>)
        ensures
            match parse(message.payload@) {
                Ok(p) => r is Ok && r->Ok_0@ == (PacketView { message: Some(message@), ..p }),
                Err(e) => r is Err && r->Err_0@ == e,
            },
    {
        match Packet::new(message.payload.as_slice()) {
            Ok(packet) => Ok(
                Packet {
                    data: packet.data,
                    message: Some(message),
                    sub_header: packet.sub_header,
                    station_name: packet.station_name,
                    type_: packet.type_,
                },
            ),
            Err(e) => Err(e),
        }
    }

    /// Returns true if this packet starts a new Sutron message.
    ///
    /// True for non-extended packets or extended packets with a `total_bytes` field.
    pub fn is_start_packet(&self) -> (b: bool)
        ensures
            b == self@.is_start_packet(),
    {
        match self.sub_header {
            Some(h) => h.total_bytes.is_some(),
            None => true,
        }
    }

    /// Returns this packet's type.
    pub fn type_(&self) -> (t: Type)
        ensures
            t == self@.type_,
    {
        self.type_
    }

    /// Returns this packet's sub-header.
    pub fn sub_header(&self) -> (h: Option<SubHeader>)
        ensures
            h == self@.sub_header,
    {
        self.sub_header
    }

    /// Returns this packet's station name.
    pub fn station_name(&self) -> (name: Option<&str>)
        ensures
            match name {
                Some(s) => self@.station_name == Some(s@),
                None => self@.station_name is None,
            },
    {
        match &self.station_name {
            Some(s) => Some(s.as_str()),
            None => None,
        }
    }

    /// Returns this packet's data.
    pub fn data(&self) -> (data: &[u8])
        ensures
            data@ == self@.data,
    {
        self.data.as_slice()
    }

    /// Returns the burst that this packet was created from, if it was created from one.
    pub fn message(&self) -> (message: Option<&Burst>)
        ensures
            match message {
                Some(m) => self@.message == Some(m@),
                None => self@.message is None,
            },
    {
        self.message.as_ref()
    }

    /// Returns this packet's time, the time of the session of its burst.
    pub fn datetime(&self) -> (datetime: Option<i64>)
        ensures
            datetime == self@.datetime(),
    {
        match &self.message {
            Some(m) => m.time_of_session,
            None => None,
        }
    }
}

/// The fillers are counted within the bytes.
pub proof fn lemma_leading_fillers_bounds(bytes: Seq<u8>)
    ensures
        0 <= leading_fillers(bytes) <= bytes.len(),
    decreases bytes.len(),
{
    if bytes.len() > 0 && bytes[0] == LOOK_TO_NEXT_BYTE_FOR_MEANING {
        lemma_leading_fillers_bounds(bytes.skip(1));
    }
}

/// No byte of a plain packet is lost: where a payload parses to a packet
/// without sub-header and without station name, the type byte followed by the
/// packet's data is the payload behind its leading fillers.
pub proof fn lemma_plain_packet_keeps_payload(bytes: Seq<u8>)
    requires
        parse(bytes) is Ok,
        parse(bytes)->Ok_0.sub_header is None,
        parse(bytes)->Ok_0.station_name is None,
    ensures
        0 <= leading_fillers(bytes) < bytes.len(),
        seq![bytes[leading_fillers(bytes)]] + parse(bytes)->Ok_0.data == bytes.skip(
            leading_fillers(bytes),
        ),
{
    lemma_leading_fillers_bounds(bytes);
    let fillers = leading_fillers(bytes);
    assert(seq![bytes[fillers]] + bytes.skip(fillers + 1) =~= bytes.skip(fillers));
}

} // verus!
