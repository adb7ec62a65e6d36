//! Version 03 of the heartbeats was in commission from 2018-07 through 2018-09.

use crate::atlas::cursor::{get_u16, get_u32, signed, to_signed, u16_at, u32_at, Cursor};
use crate::atlas::heartbeat::raw::{
    fail, lemma_repeated_fails, lemma_repeated_next, or_eof, plain, read_as, repeated, viewed,
    Error, ErrorView,
};
use crate::text::{captures, captures_view, regex_captures, string_from_utf8};
use vstd::slice::slice_to_vec;
use vstd::utf8::{decode_utf8, valid_utf8};
use vstd::prelude::*;

verus! {

/// A connection to the device could not be opened.
pub const COULD_NOT_OPEN: u8 = 0x78;

/// The device responded well.
pub const GOOD: u8 = 0x67;

/// The device responded poorly.
pub const BAD: u8 = 0x62;

/// A single-precision number, held as the 32 bits of its IEEE 754 encoding.
#[derive(Clone, Copy, Debug, Default, PartialEq, Eq, Structural)]
pub struct Binary32 {
    /// The bits of the number.
    pub bits: u32,
}

/// K2 batteries produce data via CANBUS, piped through the CAN232 adapter.
#[derive(Clone, Copy, Debug, Default, PartialEq, Eq, Structural)]
pub struct K2 {
    /// The battery voltage [V].
    pub voltage: Binary32,
    /// The battery current [A].
    ///
    /// Negative is flowing into the battery.
    pub current: Binary32,
    /// The battery temperature [C].
    pub temperature: i8,
    /// The state of charge of the battery [%].
    pub state_of_charge: u8,
    /// The battery status byte.
    pub status: u8,
    /// The shutdown codes.
    pub shutdown_codes: u16,
    /// The error codes.
    pub error_codes: u16,
    /// The warning codes.
    pub warning_codes: u16,
    /// Additional information about the battery.
    pub additional_information: u8,
}

impl K2 {
    /// The number of bytes that a battery takes.
    pub open spec fn size() -> int {
        18
    }

    /// The battery that the first 18 bytes of `bytes` describe.
    pub open spec fn decode(bytes: Seq<u8>) -> K2 {
        K2 {
            voltage: Binary32 { bits: u32_at(bytes, 0) },
            current: Binary32 { bits: u32_at(bytes, 4) },
            temperature: signed(bytes[8]),
            state_of_charge: bytes[9],
            status: bytes[10],
            shutdown_codes: u16_at(bytes, 11),
            error_codes: u16_at(bytes, 13),
            warning_codes: u16_at(bytes, 15),
            additional_information: bytes[17],
        }
    }

    /// The battery that 18 bytes describe.
    pub(crate) fn from_bytes(bytes: &[u8]) -> (k2: K2)
        requires
            bytes@.len() >= K2::size(),
        ensures
            k2 == K2::decode(bytes@),
    {
        K2 {
            voltage: Binary32 { bits: get_u32(bytes, 0) },
            current: Binary32 { bits: get_u32(bytes, 4) },
            temperature: to_signed(bytes[8]),
            state_of_charge: bytes[9],
            status: bytes[10],
            shutdown_codes: get_u16(bytes, 11),
            error_codes: get_u16(bytes, 13),
            warning_codes: get_u16(bytes, 15),
            additional_information: bytes[17],
        }
    }

    /// What the first 18 bytes say is what all the bytes say.
    pub proof fn lemma_decode_prefix(bytes: Seq<u8>)
        requires
            bytes.len() >= K2::size(),
        ensures
            K2::decode(bytes.take(K2::size())) == K2::decode(bytes),
    {
        let head = bytes.take(18);
        assert(head.subrange(0, 4) =~= bytes.subrange(0, 4));
        assert(head.subrange(4, 8) =~= bytes.subrange(4, 8));
        assert(head.subrange(11, 13) =~= bytes.subrange(11, 13));
        assert(head.subrange(13, 15) =~= bytes.subrange(13, 15));
        assert(head.subrange(15, 17) =~= bytes.subrange(15, 17));
    }

    /// What reading a battery off `input` gives.
    pub open spec fn parse(input: Seq<u8>) -> Result<(K2, int), ErrorView> {
        if input.len() >= K2::size() {
            Ok((K2::decode(input), K2::size()))
        } else {
            Err(ErrorView::UnexpectedEof)
        }
    }

    /// Reads K2 data.
    pub fn read_from(cursor: &mut Cursor) -> (r: Result<K2, Error>)
        ensures
            read_as(*old(cursor), *final(cursor), plain(r), K2::parse(old(cursor).remaining())),
    {
        let bytes: &[u8] = or_eof(cursor.take(18))?;
        proof {
            K2::lemma_decode_prefix(old(cursor).remaining());
        }
        Ok(K2::from_bytes(bytes))
    }
}

/// Four K2 batteries are installed at each site.
///
/// All four batteries communicate through a CAN232 adapter. If a connection to
/// the adapter cannot be opened, then the batteries will contain `None`. Each
/// individual battery might also fail to respond, in which case its entry in
/// the array will be `None`.
#[derive(Clone, Copy, Debug, PartialEq, Eq)]
pub struct Batteries(pub Option<[Option<K2>; 4]>);

impl View for Batteries {
    type V = Option<Seq<Option<K2>>>;

    open spec fn view(&self) -> Option<Seq<Option<K2>>> {
        match self.0 {
            Some(slots) => Some(slots@),
            None => None,
        }
    }
}

impl Batteries {
    /// What reading the slot of one battery off `input` gives: a status byte,
    /// and the battery behind it if the byte says that it responded.
    pub open spec fn slot(input: Seq<u8>) -> Result<(Option<K2>, int), ErrorView> {
        if input.len() < 1 {
            Err(ErrorView::UnexpectedEof)
        } else if input[0] == GOOD {
            match K2::parse(input.skip(1)) {
                Ok((k2, used)) => Ok((Some(k2), 1 + used)),
                Err(e) => Err(e),
            }
        } else if input[0] == BAD {
            Ok((None, 1))
        } else {
            Err(ErrorView::UnexpectedByte(input[0]))
        }
    }

    /// The reader of one slot, as a value.
    pub open spec fn slot_reader() -> spec_fn(Seq<u8>) -> Result<(Option<K2>, int), ErrorView> {
        |bytes: Seq<u8>| Batteries::slot(bytes)
    }

    /// What reading the batteries off `input` gives: nothing behind a first
    /// byte that says that the adapter could not be opened, else four slots, of
    /// which that byte starts the first.
    pub open spec fn parse(input: Seq<u8>) -> Result<(Option<Seq<Option<K2>>>, int), ErrorView> {
        if input.len() < 1 {
            Err(ErrorView::UnexpectedEof)
        } else if input[0] == COULD_NOT_OPEN {
            Ok((None, 1))
        } else {
            match repeated(Batteries::slot_reader(), input, 4) {
                Ok((slots, used)) => Ok((Some(slots), used)),
                Err(e) => Err(e),
            }
        }
    }

    /// Four batteries that did not respond are four empty slots: the bank is
    /// there, and takes four bytes.
    pub proof fn lemma_silent_batteries(input: Seq<u8>)
        requires
            input.len() >= 4,
            forall|i: int| 0 <= i < 4 ==> input[i] == BAD,
        ensures
            Batteries::parse(input) == Ok::<(Option<Seq<Option<K2>>>, int), ErrorView>(
                (Some(seq![None, None, None, None]), 4),
            ),
    {
        let one = Batteries::slot_reader();
        let none: Option<K2> = None;
        assert(input.skip(0)[0] == input[0]);
        assert(input.skip(1)[0] == input[1]);
        assert(input.skip(2)[0] == input[2]);
        assert(input.skip(3)[0] == input[3]);
        lemma_repeated_next(one, input, 0);
        lemma_repeated_next(one, input, 1);
        lemma_repeated_next(one, input, 2);
        lemma_repeated_next(one, input, 3);
        assert(Seq::<Option<K2>>::empty().push(none).push(none).push(none).push(none) =~= seq![
            none,
            none,
            none,
            none,
        ]);
    }

    /// Reads the slot of one battery.
    pub fn read_slot(cursor: &mut Cursor) -> (r: Result<Option<K2>, Error>)
        ensures
            read_as(
                *old(cursor),
                *final(cursor),
                plain(r),
                Batteries::slot(old(cursor).remaining()),
            ),
    {
        let status: u8 = or_eof(cursor.read_u8())?;
        let ghost after_status = cursor.remaining();
        if status == GOOD {
            let k2: K2 = K2::read_from(cursor)?;
            assert(after_status.skip(K2::size()) =~= old(cursor).remaining().skip(1 + K2::size()));
            Ok(Some(k2))
        } else if status == BAD {
            Ok(None)
        } else {
            fail(cursor, Error::UnexpectedByte(status))
        }
    }

    /// Reads battery information from some bytes.
    pub fn read_from(cursor: &mut Cursor) -> (r: Result<Batteries, Error>)
        ensures
            read_as(
                *old(cursor),
                *final(cursor),
                viewed(r),
                Batteries::parse(old(cursor).remaining()),
            ),
    {
        let ghost input = cursor.remaining();
        let ghost one = Batteries::slot_reader();
        let start: usize = cursor.get_position();
        if or_eof(cursor.read_u8())? == COULD_NOT_OPEN {
            return Ok(Batteries(None));
        }
        cursor.set_position(start);
        assert(cursor.remaining() == input);
        let mut slots: [Option<K2>; 4] = [None, None, None, None];
        let ghost mut used: int = 0;
        assert(input.skip(0) =~= input);
        assert(slots@.take(0) =~= Seq::<Option<K2>>::empty());
        let mut i: usize = 0;
        while i < 4
            invariant
                i <= 4,
                old(cursor).bytes() == cursor.bytes(),
                cursor.position() == old(cursor).position() + used,
                0 <= used <= input.len(),
                input == old(cursor).remaining(),
                input.len() > 0,
                input[0] != COULD_NOT_OPEN,
                cursor.remaining() == input.skip(used),
                one == Batteries::slot_reader(),
                repeated(one, input, i as nat) == Ok::<(Seq<Option<K2>>, int), ErrorView>(
                    (slots@.take(i as int), used),
                ),
            ensures
                i == 4,
                old(cursor).advanced(*cursor, used),
                repeated(one, input, 4) == Ok::<(Seq<Option<K2>>, int), ErrorView>(
                    (slots@.take(4), used),
                ),
            decreases 4 - i,
        {
            let ghost done = slots@.take(i as int);
            proof {
                lemma_repeated_next(one, input, i as nat);
            }
            match Batteries::read_slot(cursor) {
                Ok(slot) => {
                    slots[i] = slot;
                    proof {
                        let more = Batteries::slot(input.skip(used))->Ok_0.1;
                        assert(input.skip(used).skip(more) =~= input.skip(used + more));
                        assert(slots@.take(i + 1) =~= done.push(slot));
                        used = used + more;
                    }
                },
                Err(e) => {
                    proof {
                        lemma_repeated_fails(one, input, (i + 1) as nat, 4);
                    }
                    return Err(e);
                },
            }
            i = i + 1;
        }
        assert(slots@.take(4) =~= slots@);
        Ok(Batteries(Some(slots)))
    }
}

/// Each EFOY communicates over its own serial line using MODBUS.
#[derive(Clone, Copy, Debug, Default, PartialEq, Eq, Structural)]
pub struct Efoy {
    /// The internal temperature of the EFOY [C].
    pub internal_temperature: Binary32,
    /// The battery voltage seen by the efoy [V].
    pub battery_voltage: Binary32,
    /// The output current of the EFOY [A].
    pub output_current: Binary32,
    /// The reservoir fluid level [%].
    pub reservoir_fluid_level: Binary32,
    /// The current error byte.
    pub current_error: u8,
    /// The amount of methanol consumed [L].
    pub methanol_consumption: Binary32,
    /// The operating mode of the EFOY.
    pub mode: u8,
    /// The status of the EFOY.
    pub status: u8,
}

impl Efoy {
    /// The number of bytes that an EFOY takes.
    pub open spec fn size() -> int {
        23
    }

    /// The EFOY that the first 23 bytes of `bytes` describe.
    pub open spec fn decode(bytes: Seq<u8>) -> Efoy {
        Efoy {
            internal_temperature: Binary32 { bits: u32_at(bytes, 0) },
            battery_voltage: Binary32 { bits: u32_at(bytes, 4) },
            output_current: Binary32 { bits: u32_at(bytes, 8) },
            reservoir_fluid_level: Binary32 { bits: u32_at(bytes, 12) },
            current_error: bytes[16],
            methanol_consumption: Binary32 { bits: u32_at(bytes, 17) },
            mode: bytes[21],
            status: bytes[22],
        }
    }

    /// The EFOY that 23 bytes describe.
    pub(crate) fn from_bytes(bytes: &[u8]) -> (efoy: Efoy)
        requires
            bytes@.len() >= Efoy::size(),
        ensures
            efoy == Efoy::decode(bytes@),
    {
        Efoy {
            internal_temperature: Binary32 { bits: get_u32(bytes, 0) },
            battery_voltage: Binary32 { bits: get_u32(bytes, 4) },
            output_current: Binary32 { bits: get_u32(bytes, 8) },
            reservoir_fluid_level: Binary32 { bits: get_u32(bytes, 12) },
            current_error: bytes[16],
            methanol_consumption: Binary32 { bits: get_u32(bytes, 17) },
            mode: bytes[21],
            status: bytes[22],
        }
    }

    /// What the first `n` bytes say, for `n` of at least 23, is what all the bytes say.
    pub proof fn lemma_decode_prefix(bytes: Seq<u8>, n: int)
        requires
            Efoy::size() <= n <= bytes.len(),
        ensures
            Efoy::decode(bytes.take(n)) == Efoy::decode(bytes),
    {
        let head = bytes.take(n);
        assert(head.subrange(0, 4) =~= bytes.subrange(0, 4));
        assert(head.subrange(4, 8) =~= bytes.subrange(4, 8));
        assert(head.subrange(8, 12) =~= bytes.subrange(8, 12));
        assert(head.subrange(12, 16) =~= bytes.subrange(12, 16));
        assert(head.subrange(17, 21) =~= bytes.subrange(17, 21));
    }

    /// What reading an EFOY off `input` gives.
    pub open spec fn parse(input: Seq<u8>) -> Result<(Efoy, int), ErrorView> {
        if input.len() >= Efoy::size() {
            Ok((Efoy::decode(input), Efoy::size()))
        } else {
            Err(ErrorView::UnexpectedEof)
        }
    }

    /// Reads an EFOY.
    pub fn read_from(cursor: &mut Cursor) -> (r: Result<Efoy, Error>)
        ensures
            read_as(*old(cursor), *final(cursor), plain(r), Efoy::parse(old(cursor).remaining())),
    {
        let bytes: &[u8] = or_eof(cursor.take(23))?;
        proof {
            Efoy::lemma_decode_prefix(old(cursor).remaining(), 23);
        }
        Ok(Efoy::from_bytes(bytes))
    }
}

/// Two EFOYs were installed at each site.
#[derive(Clone, Copy, Debug, PartialEq, Eq)]
pub struct Efoys(pub [Option<Efoy>; 2]);

impl View for Efoys {
    type V = Seq<Option<Efoy>>;

    open spec fn view(&self) -> Seq<Option<Efoy>> {
        self.0@
    }
}

impl Efoys {
    /// What reading the slot of one EFOY off `input` gives: a status byte, and
    /// the EFOY behind it if the byte says that it responded.
    pub open spec fn slot(input: Seq<u8>) -> Result<(Option<Efoy>, int), ErrorView> {
        if input.len() < 1 {
            Err(ErrorView::UnexpectedEof)
        } else if input[0] == GOOD {
            match Efoy::parse(input.skip(1)) {
                Ok((efoy, used)) => Ok((Some(efoy), 1 + used)),
                Err(e) => Err(e),
            }
        } else if input[0] == BAD || input[0] == COULD_NOT_OPEN {
            Ok((None, 1))
        } else {
            Err(ErrorView::UnexpectedByte(input[0]))
        }
    }

    /// The reader of one slot, as a value.
    pub open spec fn slot_reader() -> spec_fn(Seq<u8>) -> Result<(Option<Efoy>, int), ErrorView> {
        |bytes: Seq<u8>| Efoys::slot(bytes)
    }

    /// What reading the EFOYs off `input` gives: two slots.
    pub open spec fn parse(input: Seq<u8>) -> Result<(Seq<Option<Efoy>>, int), ErrorView> {
        repeated(Efoys::slot_reader(), input, 2)
    }

    /// Reads the slot of one EFOY.
    pub fn read_slot(cursor: &mut Cursor) -> (r: Result<Option<Efoy>, Error>)
        ensures
            read_as(*old(cursor), *final(cursor), plain(r), Efoys::slot(old(cursor).remaining())),
    {
        let status: u8 = or_eof(cursor.read_u8())?;
        let ghost after_status = cursor.remaining();
        if status == GOOD {
            let efoy: Efoy = Efoy::read_from(cursor)?;
            assert(after_status.skip(Efoy::size()) =~= old(cursor).remaining().skip(
                1 + Efoy::size(),
            ));
            Ok(Some(efoy))
        } else if status == BAD || status == COULD_NOT_OPEN {
            Ok(None)
        } else {
            fail(cursor, Error::UnexpectedByte(status))
        }
    }

    /// Reads EFOY data.
    pub fn read_from(cursor: &mut Cursor) -> (r: Result<Efoys, Error>)
        ensures
            read_as(*old(cursor), *final(cursor), viewed(r), Efoys::parse(old(cursor).remaining())),
    {
        let ghost input = cursor.remaining();
        let ghost one = Efoys::slot_reader();
        proof {
            lemma_repeated_next(one, input, 0);
            lemma_repeated_next(one, input, 1);
            assert(input.skip(0) =~= input);
        }
        let first: Option<Efoy> = Efoys::read_slot(cursor)?;
        let ghost used = Efoys::slot(input)->Ok_0.1;
        let second: Option<Efoy> = Efoys::read_slot(cursor)?;
        let ghost more = Efoys::slot(input.skip(used))->Ok_0.1;
        assert(input.skip(used).skip(more) =~= input.skip(used + more));
        let slots: [Option<Efoy>; 2] = [first, second];
        assert(slots@ =~= Seq::<Option<Efoy>>::empty().push(first).push(second));
        Ok(Efoys(slots))
    }
}

/// Information from the weather sensors.
#[derive(Clone, Copy, Debug, Default, PartialEq, Eq, Structural)]
pub struct Sensors {
    /// The barometric pressure inside of the power box [mbar].
    pub barometric_pressure: Binary32,
    /// The temperature, as measured by the barometric pressure sensor inside
    /// of the power box [C].
    pub power_box_temperature: Binary32,
    /// The external temperature [C].
    pub external_temperature: Binary32,
    /// The relative humidity [%].
    pub relative_humidity: Binary32,
}

impl Sensors {
    /// The number of bytes that the sensors take.
    pub open spec fn size() -> int {
        16
    }

    /// The sensor data that the first 16 bytes of `bytes` describe.
    pub open spec fn decode(bytes: Seq<u8>) -> Sensors {
        Sensors {
            barometric_pressure: Binary32 { bits: u32_at(bytes, 0) },
            power_box_temperature: Binary32 { bits: u32_at(bytes, 4) },
            external_temperature: Binary32 { bits: u32_at(bytes, 8) },
            relative_humidity: Binary32 { bits: u32_at(bytes, 12) },
        }
    }

    /// What reading the sensors off `input` gives.
    pub open spec fn parse(input: Seq<u8>) -> Result<(Sensors, int), ErrorView> {
        if input.len() >= Sensors::size() {
            Ok((Sensors::decode(input), Sensors::size()))
        } else {
            Err(ErrorView::UnexpectedEof)
        }
    }

    /// Reads the sensor data from the cursor.
    pub fn read_from(cursor: &mut Cursor) -> (r: Result<Sensors, Error>)
        ensures
            read_as(
                *old(cursor),
                *final(cursor),
                plain(r),
                Sensors::parse(old(cursor).remaining()),
            ),
    {
        let bytes: &[u8] = or_eof(cursor.take(16))?;
        proof {
            let input = old(cursor).remaining();
            assert(bytes@.subrange(0, 4) =~= input.subrange(0, 4));
            assert(bytes@.subrange(4, 8) =~= input.subrange(4, 8));
            assert(bytes@.subrange(8, 12) =~= input.subrange(8, 12));
            assert(bytes@.subrange(12, 16) =~= input.subrange(12, 16));
        }
        Ok(
            Sensors {
                barometric_pressure: Binary32 { bits: get_u32(bytes, 0) },
                power_box_temperature: Binary32 { bits: get_u32(bytes, 4) },
                external_temperature: Binary32 { bits: get_u32(bytes, 8) },
                relative_humidity: Binary32 { bits: get_u32(bytes, 12) },
            },
        )
    }
}

/// Wind sensor data.
#[derive(Clone, Copy, Debug, Default, PartialEq, Eq, Structural)]
pub struct Wind {
    /// The wind speed [m/s].
    pub speed: Binary32,
    /// The wind direction [deg].
    pub direction: Binary32,
}

impl Wind {
    /// The number of bytes that the wind data take.
    pub open spec fn size() -> int {
        8
    }

    /// The wind data that the first 8 bytes of `bytes` describe.
    pub open spec fn decode(bytes: Seq<u8>) -> Wind {
        Wind {
            speed: Binary32 { bits: u32_at(bytes, 0) },
            direction: Binary32 { bits: u32_at(bytes, 4) },
        }
    }

    /// What reading the wind data off `input` gives.
    pub open spec fn parse(input: Seq<u8>) -> Result<(Wind, int), ErrorView> {
        if input.len() >= Wind::size() {
            Ok((Wind::decode(input), Wind::size()))
        } else {
            Err(ErrorView::UnexpectedEof)
        }
    }

    /// Reads the wind data from the cursor.
    pub fn read_from(cursor: &mut Cursor) -> (r: Result<Wind, Error>)
        ensures
            read_as(*old(cursor), *final(cursor), plain(r), Wind::parse(old(cursor).remaining())),
    {
        let bytes: &[u8] = or_eof(cursor.take(8))?;
        proof {
            let input = old(cursor).remaining();
            assert(bytes@.subrange(0, 4) =~= input.subrange(0, 4));
            assert(bytes@.subrange(4, 8) =~= input.subrange(4, 8));
        }
        Ok(
            Wind {
                speed: Binary32 { bits: get_u32(bytes, 0) },
                direction: Binary32 { bits: get_u32(bytes, 4) },
            },
        )
    }
}

/// Scanner log data.
#[derive(Debug, PartialEq, Eq)]
pub struct Scanner {
    /// The string of information logged when the scanner powered on.
    pub power_on: String,
    /// Logged when the scan starts.
    pub start_scan: String,
    /// Logged when the scan stops.
    pub stop_scan: String,
    /// Logged when the scan is skipped.
    pub skip_scan: String,
}

/// What a `Scanner` holds.
pub struct ScannerView {
    pub power_on: Seq<char>,
    pub start_scan: Seq<char>,
    pub stop_scan: Seq<char>,
    pub skip_scan: Seq<char>,
}

impl View for Scanner {
    type V = ScannerView;

    open spec fn view(&self) -> ScannerView {
        ScannerView {
            power_on: self.power_on@,
            start_scan: self.start_scan@,
            stop_scan: self.stop_scan@,
            skip_scan: self.skip_scan@,
        }
    }
}

impl Clone for Scanner {
    fn clone(&self) -> (copy: Scanner)
        ensures
            copy@ == self@,
    {
        Scanner {
            power_on: self.power_on.clone(),
            start_scan: self.start_scan.clone(),
            stop_scan: self.stop_scan.clone(),
            skip_scan: self.skip_scan.clone(),
        }
    }
}

impl Scanner {
    /// The regular expression that a scanner log matches, with one group for each field.
    pub open spec fn pattern() -> Seq<char> {
        "^power_on=(?P<power_on>.*),start_scan=(?P<start_scan>.*),stop_scan=(?P<stop_scan>.*),skip_scan=(?P<skip_scan>.*)$"@
    }

    /// The scanner data in what the pattern captured of `text`: the four
    /// groups behind the whole match, if the pattern matched and all of them
    /// took part.
    pub open spec fn of_captures(text: Seq<char>, groups: Option<Seq<Option<Seq<char>>>>) -> Result<
        ScannerView,
        ErrorView,
    > {
        match groups {
            Some(groups) => if groups.len() == 5 && groups[1] is Some && groups[2] is Some
                && groups[3] is Some && groups[4] is Some {
                Ok(
                    ScannerView {
                        power_on: groups[1]->0,
                        start_scan: groups[2]->0,
                        stop_scan: groups[3]->0,
                        skip_scan: groups[4]->0,
                    },
                )
            } else {
                Err(ErrorView::RegexMismatch(text))
            },
            None => Err(ErrorView::RegexMismatch(text)),
        }
    }

    /// What the scanner log in `input`, which is all that is left, says.
    pub open spec fn parse(input: Seq<u8>) -> Result<ScannerView, ErrorView> {
        if valid_utf8(input) {
            let text = decode_utf8(input);
            Scanner::of_captures(text, regex_captures(Scanner::pattern(), text))
        } else {
            Err(ErrorView::InvalidText(input))
        }
    }

    /// Builds the scanner data from what the pattern captured of `text`.
    pub fn from_captures(text: String, groups: Option<Vec<Option<String>>>) -> (r: Result<
        Scanner,
        Error,
    >)
        ensures
            viewed(r) == Scanner::of_captures(text@, captures_view(groups)),
    {
        let groups: Vec<Option<String>> = match groups {
            Some(groups) => groups,
            None => {
                return Err(Error::RegexMismatch(text));
            },
        };
        if groups.len() != 5 {
            return Err(Error::RegexMismatch(text));
        }
        match (&groups[1], &groups[2], &groups[3], &groups[4]) {
            (Some(power_on), Some(start_scan), Some(stop_scan), Some(skip_scan)) => Ok(
                Scanner {
                    power_on: power_on.clone(),
                    start_scan: start_scan.clone(),
                    stop_scan: stop_scan.clone(),
                    skip_scan: skip_scan.clone(),
                },
            ),
            _ => Err(Error::RegexMismatch(text)),
        }
    }

    /// Reads the scanner data from the cursor: all that is left is the log.
    pub fn read_from(cursor: &mut Cursor) -> (r: Result<Scanner, Error>)
        ensures
            old(cursor).at_end(*final(cursor)),
            viewed(r) == Scanner::parse(old(cursor).remaining()),
    {
        let bytes: &[u8] = cursor.take_rest();
        let text: String = match string_from_utf8(slice_to_vec(bytes)) {
            Some(text) => text,
            None => {
                return Err(Error::InvalidText(slice_to_vec(bytes)));
            },
        };
        let groups: Option<Vec<Option<String>>> = captures(
            "^power_on=(?P<power_on>.*),start_scan=(?P<start_scan>.*),stop_scan=(?P<stop_scan>.*),skip_scan=(?P<skip_scan>.*)$",
            text.as_str(),
        );
        Scanner::from_captures(text, groups)
    }
}

} // verus!
