//! Raw heartbeats map more-or-less directly onto the bytes in the heartbeat messages.

pub mod v03;
pub mod v04;

use crate::atlas::cursor::{Cursor, UnexpectedEof};
use crate::atlas::heartbeat::raw::v03::{Batteries, Scanner, ScannerView, Sensors, Wind, K2};
use crate::text::{
    ascii_text, digits_value, lemma_ascii_is_utf8, parse_decimal, parse_u8, string_from_utf8,
};
use vstd::slice::slice_to_vec;
use vstd::utf8::{decode_utf8, valid_utf8};
use vstd::prelude::*;

verus! {

/// The four bytes that start every heartbeat: `ATHB`.
pub open spec fn magic_number() -> Seq<u8> {
    seq![0x41u8, 0x54u8, 0x48u8, 0x42u8]
}

/// An error returned when reading a raw heartbeat message.
#[derive(Debug, PartialEq, Eq)]
pub enum Error {
    /// The magic number is invalid.
    MagicNumber([u8; 4]),
    /// The scanner log does not have the form that was expected.
    RegexMismatch(String),
    /// The version is not one that can be read.
    Version(u8),
    /// An unexpected byte was encountered when reading raw bytes.
    UnexpectedByte(u8),
    /// The bytes ended before the heartbeat was complete.
    UnexpectedEof,
    /// Bytes that should be text are not UTF-8.
    InvalidText(Vec<u8>),
    /// The version field does not hold a number.
    InvalidVersion(String),
}

/// What an `Error` holds.
pub enum ErrorView {
    MagicNumber(Seq<u8>),
    RegexMismatch(Seq<char>),
    Version(u8),
    UnexpectedByte(u8),
    UnexpectedEof,
    InvalidText(Seq<u8>),
    InvalidVersion(Seq<char>),
}

impl View for Error {
    type V = ErrorView;

    open spec fn view(&self) -> ErrorView {
        match self {
            Error::MagicNumber(bytes) => ErrorView::MagicNumber(bytes@),
            Error::RegexMismatch(text) => ErrorView::RegexMismatch(text@),
            Error::Version(n) => ErrorView::Version(*n),
            Error::UnexpectedByte(n) => ErrorView::UnexpectedByte(*n),
            Error::UnexpectedEof => ErrorView::UnexpectedEof,
            Error::InvalidText(bytes) => ErrorView::InvalidText(bytes@),
            Error::InvalidVersion(text) => ErrorView::InvalidVersion(text@),
        }
    }
}

/// What a reader gives, with the error by its view.
pub open spec fn plain<T>(r: Result<T, Error>) -> Result<T, ErrorView> {
    match r {
        Ok(value) => Ok(value),
        Err(e) => Err(e@),
    }
}

/// What a reader gives, by its view.
pub open spec fn viewed<T: View>(r: Result<T, Error>) -> Result<T::V, ErrorView> {
    match r {
        Ok(value) => Ok(value@),
        Err(e) => Err(e@),
    }
}

/// Whether a read off `before` went as `expected` says: the value comes back
/// and the cursor stands behind the bytes that were used, so that what is left
/// is what was left without them, or the error comes back and the cursor
/// stands at the end.
pub open spec fn read_as<'a, V>(
    before: Cursor<'a>,
    after: Cursor<'a>,
    got: Result<V, ErrorView>,
    expected: Result<(V, int), ErrorView>,
) -> bool {
    match expected {
        Ok((value, used)) => {
            &&& got == Ok::<V, ErrorView>(value)
            &&& 0 <= used <= before.remaining().len()
            &&& before.advanced(after, used)
            &&& after.remaining() == before.remaining().skip(used)
        },
        Err(e) => got == Err::<V, ErrorView>(e) && before.at_end(after),
    }
}

/// What `count` values in a row parse to, each read by `one` from where the
/// one before it ended.
pub open spec fn repeated<T>(
    one: spec_fn(Seq<u8>) -> Result<(T, int), ErrorView>,
    input: Seq<u8>,
    count: nat,
) -> Result<(Seq<T>, int), ErrorView>
    decreases count,
{
    if count == 0 {
        Ok((Seq::empty(), 0))
    } else {
        match repeated(one, input, (count - 1) as nat) {
            Err(e) => Err(e),
            Ok((values, used)) => match one(input.skip(used)) {
                Err(e) => Err(e),
                Ok((last, more)) => Ok((values.push(last), used + more)),
            },
        }
    }
}

/// One value more is read from where the values before it ended.
pub proof fn lemma_repeated_next<T>(
    one: spec_fn(Seq<u8>) -> Result<(T, int), ErrorView>,
    input: Seq<u8>,
    count: nat,
)
    ensures
        repeated(one, input, count + 1) == match repeated(one, input, count) {
            Err(e) => Err::<(Seq<T>, int), ErrorView>(e),
            Ok((values, used)) => match one(input.skip(used)) {
                Err(e) => Err(e),
                Ok((last, more)) => Ok((values.push(last), used + more)),
            },
        },
{
}

/// Once a value fails to parse, every longer row fails in the same way.
pub proof fn lemma_repeated_fails<T>(
    one: spec_fn(Seq<u8>) -> Result<(T, int), ErrorView>,
    input: Seq<u8>,
    failed: nat,
    count: nat,
)
    requires
        failed <= count,
        repeated(one, input, failed) is Err,
    ensures
        repeated(one, input, count) == repeated(one, input, failed),
    decreases count,
{
    if failed < count {
        lemma_repeated_fails(one, input, failed, (count - 1) as nat);
    }
}

/// Turns the end of the input into this module's error.
pub fn or_eof<T>(r: Result<T, UnexpectedEof>) -> (converted: Result<T, Error>)
    ensures
        match r {
            Ok(value) => converted == Ok::<T, Error>(value),
            Err(_) => converted == Err::<T, Error>(Error::UnexpectedEof),
        },
{
    match r {
        Ok(value) => Ok(value),
        Err(_) => Err(Error::UnexpectedEof),
    }
}

/// Gives up reading with `error`, and leaves the cursor at the end.
pub fn fail<T>(cursor: &mut Cursor, error: Error) -> (r: Result<T, Error>)
    ensures
        r == Err::<T, Error>(error),
        old(cursor).at_end(*final(cursor)),
{
    cursor.exhaust();
    Err(error)
}

/// An enum that contains all raw versions of ATLAS heartbeats that can be read.
#[derive(Debug, PartialEq, Eq)]
#[allow(inconsistent_fields)]
pub enum Heartbeat {
    /// Version 03 of heartbeat messages began in July 2018 and ended in September 2018.
    V03 {
        /// Each site has four K2 batteries.
        batteries: v03::Batteries,
        /// Each site has two EFOYs.
        ///
        /// EFOYs are methanol fuel cells that should take over once the
        /// solar isn't enough to keep the system powered.
        efoys: v03::Efoys,
        /// Both sites have an identical suite of weather sensors.
        sensors: v03::Sensors,
        /// The north site has a wind sensor, but the south site doesn't.
        wind: Option<v03::Wind>,
        /// The scanner saves ASCII messages to the data logger, which are
        /// transmitted back in heartbeats as-is.
        scanner: v03::Scanner,
    },
    /// Version 04 of heartbeat messages began in September 2018.
    ///
    /// It's identical to version 03 except that the efoy data includes one
    /// extra byte to indicate the currently active cartridge.
    V04 {
        /// Each site has four K2 batteries.
        batteries: v03::Batteries,
        /// Each site has two EFOYs.
        efoys: v04::Efoys,
        /// Both sites have an identical suite of weather sensors.
        sensors: v03::Sensors,
        /// The north site has a wind sensor, but the south site doesn't.
        wind: Option<v03::Wind>,
        /// The scanner saves ASCII messages to the data logger, which are
        /// transmitted back in heartbeats as-is.
        scanner: v03::Scanner,
    },
}

/// What a `Heartbeat` holds.
#[allow(inconsistent_fields)]
pub enum HeartbeatView {
    V03 {
        batteries: Option<Seq<Option<K2>>>,
        efoys: Seq<Option<v03::Efoy>>,
        sensors: Sensors,
        wind: Option<Wind>,
        scanner: ScannerView,
    },
    V04 {
        batteries: Option<Seq<Option<K2>>>,
        efoys: Seq<Option<v04::Efoy>>,
        sensors: Sensors,
        wind: Option<Wind>,
        scanner: ScannerView,
    },
}

impl HeartbeatView {
    /// The batteries, whatever the version.
    pub open spec fn batteries(self) -> Option<Seq<Option<K2>>> {
        match self {
            HeartbeatView::V03 { batteries, .. } => batteries,
            HeartbeatView::V04 { batteries, .. } => batteries,
        }
    }

    /// The wind data, whatever the version.
    pub open spec fn wind(self) -> Option<Wind> {
        match self {
            HeartbeatView::V03 { wind, .. } => wind,
            HeartbeatView::V04 { wind, .. } => wind,
        }
    }
}

impl View for Heartbeat {
    type V = HeartbeatView;

    open spec fn view(&self) -> HeartbeatView {
        match self {
            Heartbeat::V03 { batteries, efoys, sensors, wind, scanner } => HeartbeatView::V03 {
                batteries: batteries@,
                efoys: efoys@,
                sensors: *sensors,
                wind: *wind,
                scanner: scanner@,
            },
            Heartbeat::V04 { batteries, efoys, sensors, wind, scanner } => HeartbeatView::V04 {
                batteries: batteries@,
                efoys: efoys@,
                sensors: *sensors,
                wind: *wind,
                scanner: scanner@,
            },
        }
    }
}

/// What the end of a heartbeat says: the scanner log, behind the wind data
/// where a wind sensor is installed.
///
/// Nothing in the bytes tells whether the wind data are there. Where all that
/// is left is a scanner log, there are none. Otherwise the first eight bytes
/// are the wind data and the scanner log follows.
pub open spec fn wind_and_scanner(input: Seq<u8>) -> Result<(Option<Wind>, ScannerView), ErrorView> {
    match Scanner::parse(input) {
        Ok(scanner) => Ok((None, scanner)),
        Err(_) => match Wind::parse(input) {
            Err(e) => Err(e),
            Ok((wind, used)) => match Scanner::parse(input.skip(used)) {
                Ok(scanner) => Ok((Some(wind), scanner)),
                Err(e) => Err(e),
            },
        },
    }
}

/// What the bytes behind the header of a version 03 heartbeat say.
pub open spec fn body_v03(input: Seq<u8>) -> Result<HeartbeatView, ErrorView> {
    match Batteries::parse(input) {
        Err(e) => Err(e),
        Ok((batteries, a)) => match v03::Efoys::parse(input.skip(a)) {
            Err(e) => Err(e),
            Ok((efoys, b)) => match Sensors::parse(input.skip(a + b)) {
                Err(e) => Err(e),
                Ok((sensors, c)) => match wind_and_scanner(input.skip(a + b + c)) {
                    Err(e) => Err(e),
                    Ok((wind, scanner)) => Ok(
                        HeartbeatView::V03 { batteries, efoys, sensors, wind, scanner },
                    ),
                },
            },
        },
    }
}

/// What the bytes behind the header of a version 04 heartbeat say.
pub open spec fn body_v04(input: Seq<u8>) -> Result<HeartbeatView, ErrorView> {
    match Batteries::parse(input) {
        Err(e) => Err(e),
        Ok((batteries, a)) => match v04::Efoys::parse(input.skip(a)) {
            Err(e) => Err(e),
            Ok((efoys, b)) => match Sensors::parse(input.skip(a + b)) {
                Err(e) => Err(e),
                Ok((sensors, c)) => match wind_and_scanner(input.skip(a + b + c)) {
                    Err(e) => Err(e),
                    Ok((wind, scanner)) => Ok(
                        HeartbeatView::V04 { batteries, efoys, sensors, wind, scanner },
                    ),
                },
            },
        },
    }
}

/// The number of bytes in front of the body: the magic number, two digits
/// for the version and three bytes that are reserved for a length.
pub open spec fn header_size() -> int {
    9
}

/// What the bytes of a heartbeat say.
pub open spec fn parse(bytes: Seq<u8>) -> Result<HeartbeatView, ErrorView> {
    if bytes.len() < 4 {
        Err(ErrorView::UnexpectedEof)
    } else if bytes.take(4) != magic_number() {
        Err(ErrorView::MagicNumber(bytes.take(4)))
    } else if bytes.len() < 6 {
        Err(ErrorView::UnexpectedEof)
    } else if !valid_utf8(bytes.subrange(4, 6)) {
        Err(ErrorView::InvalidText(bytes.subrange(4, 6)))
    } else {
        let text = decode_utf8(bytes.subrange(4, 6));
        match parse_decimal(text, 255) {
            None => Err(ErrorView::InvalidVersion(text)),
            Some(version) => if bytes.len() < header_size() {
                Err(ErrorView::UnexpectedEof)
            } else if version == 3 {
                body_v03(bytes.skip(header_size()))
            } else if version == 4 {
                body_v04(bytes.skip(header_size()))
            } else {
                Err(ErrorView::Version(version as u8))
            },
        }
    }
}

/// Reads the end of a heartbeat: the wind data, if there are any, and the scanner log.
///
/// Tries the scanner log first and, if what is left is none, goes back, reads
/// the wind data and tries the scanner log again.
pub fn read_wind_and_scanner(cursor: &mut Cursor) -> (r: Result<(Option<Wind>, Scanner), Error>)
    ensures
        old(cursor).at_end(*final(cursor)),
        match wind_and_scanner(old(cursor).remaining()) {
            Ok((wind, scanner)) => r is Ok && r->Ok_0.0 == wind && r->Ok_0.1@ == scanner,
            Err(e) => r is Err && r->Err_0@ == e,
        },
{
    let position: usize = cursor.get_position();
    match Scanner::read_from(cursor) {
        Ok(scanner) => Ok((None, scanner)),
        Err(_) => {
            cursor.set_position(position);
            let wind: Wind = Wind::read_from(cursor)?;
            let scanner: Scanner = Scanner::read_from(cursor)?;
            Ok((Some(wind), scanner))
        },
    }
}

impl Heartbeat {
    /// Creates a new heartbeat from bytes.
    pub fn new(bytes: &[u8]) -> (r: Result<Heartbeat, Error>)
        ensures
            viewed(r) == parse(bytes@),
    {
        let mut cursor = Cursor::new(bytes);
        let magic: &[u8] = or_eof(cursor.take(4))?;
        assert(magic@ =~= bytes@.take(4));
        if magic[0] != 0x41 || magic[1] != 0x54 || magic[2] != 0x48 || magic[3] != 0x42 {
            let found: [u8; 4] = [magic[0], magic[1], magic[2], magic[3]];
            assert(found@ =~= bytes@.take(4));
            assert(magic_number()[0] == 0x41 && magic_number()[1] == 0x54 && magic_number()[2]
                == 0x48 && magic_number()[3] == 0x42);
            return Err(Error::MagicNumber(found));
        }
        assert(bytes@.take(4) =~= magic_number());
        let field: &[u8] = or_eof(cursor.take(2))?;
        assert(field@ =~= bytes@.subrange(4, 6));
        let text: String = match string_from_utf8(slice_to_vec(field)) {
            Some(text) => text,
            None => {
                return Err(Error::InvalidText(slice_to_vec(field)));
            },
        };
        let version: u8 = match parse_u8(text.as_str()) {
            Some(version) => version,
            None => {
                return Err(Error::InvalidVersion(text));
            },
        };
        let _reserved: &[u8] = or_eof(cursor.take(3))?;
        assert(cursor.remaining() =~= bytes@.skip(header_size()));
        match version {
            3 => Heartbeat::read_v03_from(cursor),
            4 => Heartbeat::read_v04_from(cursor),
            _ => Err(Error::Version(version)),
        }
    }

    /// Reads the body of a version 03 heartbeat.
    pub fn read_v03_from(cursor: Cursor) -> (r: Result<Heartbeat, Error>)
        ensures
            viewed(r) == body_v03(cursor.remaining()),
    {
        let mut cursor = cursor;
        let ghost input = cursor.remaining();
        let batteries: Batteries = Batteries::read_from(&mut cursor)?;
        let ghost a = Batteries::parse(input)->Ok_0.1;
        let efoys: v03::Efoys = v03::Efoys::read_from(&mut cursor)?;
        let ghost b = v03::Efoys::parse(input.skip(a))->Ok_0.1;
        assert(input.skip(a).skip(b) =~= input.skip(a + b));
        let sensors: Sensors = Sensors::read_from(&mut cursor)?;
        assert(input.skip(a + b).skip(Sensors::size()) =~= input.skip(a + b + Sensors::size()));
        let (wind, scanner) = read_wind_and_scanner(&mut cursor)?;
        Ok(Heartbeat::V03 { batteries, efoys, sensors, wind, scanner })
    }

    /// Reads the body of a version 04 heartbeat.
    pub fn read_v04_from(cursor: Cursor) -> (r: Result<Heartbeat, Error>)
        ensures
            viewed(r) == body_v04(cursor.remaining()),
    {
        let mut cursor = cursor;
        let ghost input = cursor.remaining();
        let batteries: Batteries = Batteries::read_from(&mut cursor)?;
        let ghost a = Batteries::parse(input)->Ok_0.1;
        let efoys: v04::Efoys = v04::Efoys::read_from(&mut cursor)?;
        let ghost b = v04::Efoys::parse(input.skip(a))->Ok_0.1;
        assert(input.skip(a).skip(b) =~= input.skip(a + b));
        let sensors: Sensors = Sensors::read_from(&mut cursor)?;
        assert(input.skip(a + b).skip(Sensors::size()) =~= input.skip(a + b + Sensors::size()));
        let (wind, scanner) = read_wind_and_scanner(&mut cursor)?;
        Ok(Heartbeat::V04 { batteries, efoys, sensors, wind, scanner })
    }
}

/// Bytes that do not begin with the magic number are no heartbeat: reading
/// fails, and the error holds the four bytes that stand in its place,
/// unchanged. Fewer than four bytes end too early.
pub proof fn lemma_wrong_magic_number_is_reported(bytes: Seq<u8>)
    requires
        bytes.len() < 4 || bytes.take(4) != magic_number(),
    ensures
        bytes.len() >= 4 ==> parse(bytes) == Err::<HeartbeatView, ErrorView>(
            ErrorView::MagicNumber(bytes.take(4)),
        ),
        bytes.len() < 4 ==> parse(bytes) == Err::<HeartbeatView, ErrorView>(
            ErrorView::UnexpectedEof,
        ),
{
}

/// Reading is a function of the bytes and of nothing else: whatever two
/// readings of the same bytes return, they return the same.
pub proof fn lemma_reading_is_repeatable(
    bytes: Seq<u8>,
    first: Result<Heartbeat, Error>,
    second: Result<Heartbeat, Error>,
)
    requires
        viewed(first) == parse(bytes),
        viewed(second) == parse(bytes),
    ensures
        viewed(first) == viewed(second),
{
}

/// The number that two ASCII digits write.
pub open spec fn two_digits(tens: u8, ones: u8) -> int {
    10 * (tens - 0x30) + (ones - 0x30)
}

/// A heartbeat with a complete header whose version field holds two digits
/// that write neither 3 nor 4 is refused, and the error holds the number
/// that they write.
pub proof fn lemma_other_version_is_refused(bytes: Seq<u8>)
    requires
        bytes.len() >= header_size(),
        bytes.take(4) == magic_number(),
        0x30 <= bytes[4] <= 0x39,
        0x30 <= bytes[5] <= 0x39,
        two_digits(bytes[4], bytes[5]) != 3,
        two_digits(bytes[4], bytes[5]) != 4,
    ensures
        parse(bytes) == Err::<HeartbeatView, ErrorView>(
            ErrorView::Version(two_digits(bytes[4], bytes[5]) as u8),
        ),
{
    lemma_version_field(bytes.subrange(4, 6));
}

/// Two ASCII digits are text that writes a number below one hundred.
pub proof fn lemma_version_field(field: Seq<u8>)
    requires
        field.len() == 2,
        0x30 <= field[0] <= 0x39,
        0x30 <= field[1] <= 0x39,
    ensures
        valid_utf8(field),
        parse_decimal(decode_utf8(field), 255) == Some(two_digits(field[0], field[1]) as nat),
{
    lemma_ascii_is_utf8(field);
    let text = ascii_text(field);
    assert(text[0] == field[0] as char);
    assert(text[1] == field[1] as char);
    assert(text.drop_last().drop_last() =~= Seq::<char>::empty());
    assert(digits_value(text.drop_last().drop_last()) == 0);
    assert(digits_value(text.drop_last()) == field[0] - 0x30);
    assert(digits_value(text) == two_digits(field[0], field[1]));
}

} // verus!
