use glacio::atlas::cursor::Cursor;
use glacio::atlas::heartbeat::raw::v03::{
    Batteries, Binary32, Efoy, Efoys, Scanner, Sensors, Wind, K2,
};
use glacio::atlas::heartbeat::raw::{v04, Error, Heartbeat as RawHeartbeat};
use glacio::atlas::heartbeat::{
    Battery, BatteryError, BatteryStatus, Efoy as EfoyInfo, Heartbeat, Wind as WindInfo,
};
use glacio::sutron::message::Message;

const LOG: &str = "power_on=2018-08-01 00:00:00,ok,start_scan=2018-08-01 00:05:00,ok,stop_scan=2018-08-01 01:00:00,ok,skip_scan=,";

fn bits(x: f32) -> Binary32 {
    Binary32 { bits: x.to_bits() }
}

fn k2_bytes() -> Vec<u8> {
    let mut bytes = Vec::new();
    bytes.extend_from_slice(&13.25f32.to_le_bytes());
    bytes.extend_from_slice(&(-1.5f32).to_le_bytes());
    bytes.push(0xf6);
    bytes.push(87);
    bytes.push(2);
    bytes.extend_from_slice(&0x0102u16.to_le_bytes());
    bytes.extend_from_slice(&0x8005u16.to_le_bytes());
    bytes.extend_from_slice(&0xfffeu16.to_le_bytes());
    bytes.push(9);
    bytes
}

fn k2() -> K2 {
    K2 {
        voltage: bits(13.25),
        current: bits(-1.5),
        temperature: -10,
        state_of_charge: 87,
        status: 2,
        shutdown_codes: 0x0102,
        error_codes: 0x8005,
        warning_codes: 0xfffe,
        additional_information: 9,
    }
}

fn efoy_bytes() -> Vec<u8> {
    let mut bytes = Vec::new();
    for x in [21.5f32, 12.75, 3.0, 55.5] {
        bytes.extend_from_slice(&x.to_le_bytes());
    }
    bytes.push(7);
    bytes.extend_from_slice(&1.25f32.to_le_bytes());
    bytes.push(3);
    bytes.push(4);
    bytes
}

fn efoy() -> Efoy {
    Efoy {
        internal_temperature: bits(21.5),
        battery_voltage: bits(12.75),
        output_current: bits(3.0),
        reservoir_fluid_level: bits(55.5),
        current_error: 7,
        methanol_consumption: bits(1.25),
        mode: 3,
        status: 4,
    }
}

fn sensors_bytes() -> Vec<u8> {
    let mut bytes = Vec::new();
    for x in [1013.25f32, 4.5, -12.0, 80.0] {
        bytes.extend_from_slice(&x.to_le_bytes());
    }
    bytes
}

fn sensors() -> Sensors {
    Sensors {
        barometric_pressure: bits(1013.25),
        power_box_temperature: bits(4.5),
        external_temperature: bits(-12.0),
        relative_humidity: bits(80.0),
    }
}

fn wind_bytes() -> Vec<u8> {
    let mut bytes = Vec::new();
    bytes.extend_from_slice(&7.5f32.to_le_bytes());
    bytes.extend_from_slice(&270.0f32.to_le_bytes());
    bytes
}

fn scanner() -> Scanner {
    Scanner {
        power_on: "2018-08-01 00:00:00,ok".to_string(),
        start_scan: "2018-08-01 00:05:00,ok".to_string(),
        stop_scan: "2018-08-01 01:00:00,ok".to_string(),
        skip_scan: ",".to_string(),
    }
}

fn record(version: &[u8], batteries: &[u8], efoys: &[u8], wind: Option<&[u8]>, log: &[u8]) -> Vec<u8> {
    let mut bytes = b"ATHB".to_vec();
    bytes.extend_from_slice(version);
    bytes.extend_from_slice(b"000");
    bytes.extend_from_slice(batteries);
    bytes.extend_from_slice(efoys);
    bytes.extend_from_slice(&sensors_bytes());
    if let Some(wind) = wind {
        bytes.extend_from_slice(wind);
    }
    bytes.extend_from_slice(log);
    bytes
}

#[test]
fn raw_header() {
    assert_eq!(Error::MagicNumber(*b"PETE"), RawHeartbeat::new(b"PETE").unwrap_err());
}

#[test]
fn mod_header() {
    assert_eq!(Error::MagicNumber(*b"PETE"), RawHeartbeat::new(b"PETE").unwrap_err());
}

#[test]
fn raw_version() {
    assert_eq!(Error::Version(1), RawHeartbeat::new(b"ATHB01000").unwrap_err());
    assert_eq!(Error::Version(2), RawHeartbeat::new(b"ATHB02000").unwrap_err());
    assert_eq!(Error::Version(5), RawHeartbeat::new(b"ATHB05000").unwrap_err());
}

#[test]
fn mod_version() {
    assert_eq!(Error::Version(1), RawHeartbeat::new(b"ATHB01000").unwrap_err());
    assert_eq!(Error::Version(2), RawHeartbeat::new(b"ATHB02000").unwrap_err());
    assert_eq!(Error::Version(5), RawHeartbeat::new(b"ATHB05000").unwrap_err());
}

#[test]
fn wrong_magic_number_is_reported_unchanged() {
    assert_eq!(
        Error::MagicNumber(*b"ATHX"),
        RawHeartbeat::new(b"ATHX03000xbb").unwrap_err()
    );
    assert_eq!(Error::MagicNumber([0, 1, 2, 3]), RawHeartbeat::new(&[0, 1, 2, 3, 4]).unwrap_err());
    assert_eq!(Error::UnexpectedEof, RawHeartbeat::new(b"ATH").unwrap_err());
    assert_eq!(Error::UnexpectedEof, RawHeartbeat::new(b"").unwrap_err());
}

#[test]
fn version_field() {
    assert_eq!(Error::UnexpectedEof, RawHeartbeat::new(b"ATHB0").unwrap_err());
    assert_eq!(Error::UnexpectedEof, RawHeartbeat::new(b"ATHB0100").unwrap_err());
    assert_eq!(Error::Version(99), RawHeartbeat::new(b"ATHB99000").unwrap_err());
    assert_eq!(Error::Version(0), RawHeartbeat::new(b"ATHB00000").unwrap_err());
    assert_eq!(
        Error::InvalidVersion("3a".to_string()),
        RawHeartbeat::new(b"ATHB3a000").unwrap_err()
    );
    assert_eq!(
        Error::InvalidText(vec![0xff, b'3']),
        RawHeartbeat::new(&[b'A', b'T', b'H', b'B', 0xff, b'3', 0, 0, 0]).unwrap_err()
    );
    let bytes = record(b"+3", b"x", b"bb", None, LOG.as_bytes());
    assert!(matches!(RawHeartbeat::new(&bytes), Ok(RawHeartbeat::V03 { .. })));
}

#[test]
fn silent_batteries_are_present_but_empty() {
    let bytes = record(b"03", b"bbbb", b"bb", None, LOG.as_bytes());
    match RawHeartbeat::new(&bytes).unwrap() {
        RawHeartbeat::V03 { batteries, efoys, sensors: read, wind, scanner: log } => {
            assert_eq!(Batteries(Some([None, None, None, None])), batteries);
            assert_eq!(Efoys([None, None]), efoys);
            assert_eq!(sensors(), read);
            assert_eq!(None, wind);
            assert_eq!(scanner(), log);
        }
        other => panic!("not version 03: {:?}", other),
    }
}

#[test]
fn version_03_with_wind() {
    let mut batteries = vec![b'g'];
    batteries.extend(k2_bytes());
    batteries.extend_from_slice(b"bb");
    batteries.push(b'g');
    batteries.extend(k2_bytes());
    let mut efoys = vec![b'x', b'g'];
    efoys.extend(efoy_bytes());
    let bytes = record(b"03", &batteries, &efoys, Some(&wind_bytes()), LOG.as_bytes());
    let expected = RawHeartbeat::V03 {
        batteries: Batteries(Some([Some(k2()), None, None, Some(k2())])),
        efoys: Efoys([None, Some(efoy())]),
        sensors: sensors(),
        wind: Some(Wind { speed: bits(7.5), direction: bits(270.0) }),
        scanner: scanner(),
    };
    assert_eq!(Ok(expected), RawHeartbeat::new(&bytes));
    assert_eq!(RawHeartbeat::new(&bytes), RawHeartbeat::new(&bytes));
}

#[test]
fn version_04_has_the_cartridge_port() {
    let mut efoys = vec![b'g'];
    efoys.extend(efoy_bytes());
    efoys.push(2);
    efoys.push(b'b');
    let bytes = record(b"04", b"x", &efoys, None, LOG.as_bytes());
    let expected = RawHeartbeat::V04 {
        batteries: Batteries(None),
        efoys: v04::Efoys([Some(v04::Efoy { efoy: efoy(), active_cartridge_port: 2 }), None]),
        sensors: sensors(),
        wind: None,
        scanner: scanner(),
    };
    assert_eq!(Ok(expected), RawHeartbeat::new(&bytes));
    let short = record(b"03", b"x", &efoys, None, LOG.as_bytes());
    assert!(RawHeartbeat::new(&short).is_err());
}

#[test]
fn unexpected_status_bytes() {
    let bytes = record(b"03", b"bbqb", b"bb", None, LOG.as_bytes());
    assert_eq!(Error::UnexpectedByte(b'q'), RawHeartbeat::new(&bytes).unwrap_err());
    let bytes = record(b"03", b"bxbb", b"bb", None, LOG.as_bytes());
    assert_eq!(Error::UnexpectedByte(b'x'), RawHeartbeat::new(&bytes).unwrap_err());
    let bytes = record(b"03", b"bbbb", b"b?", None, LOG.as_bytes());
    assert_eq!(Error::UnexpectedByte(b'?'), RawHeartbeat::new(&bytes).unwrap_err());
    let bytes = record(b"04", b"bbbb", b"?b", None, LOG.as_bytes());
    assert_eq!(Error::UnexpectedByte(b'?'), RawHeartbeat::new(&bytes).unwrap_err());
}

#[test]
fn truncated_records() {
    assert_eq!(Error::UnexpectedEof, RawHeartbeat::new(b"ATHB03000").unwrap_err());
    assert_eq!(Error::UnexpectedEof, RawHeartbeat::new(b"ATHB03000bbb").unwrap_err());
    assert_eq!(Error::UnexpectedEof, RawHeartbeat::new(b"ATHB03000g123").unwrap_err());
    assert_eq!(Error::UnexpectedEof, RawHeartbeat::new(b"ATHB03000xb").unwrap_err());
    assert_eq!(Error::UnexpectedEof, RawHeartbeat::new(b"ATHB03000xbb0123456789").unwrap_err());
    let mut bytes = b"ATHB03000xbb".to_vec();
    bytes.extend(sensors_bytes());
    bytes.extend_from_slice(b"1234567");
    assert_eq!(Error::UnexpectedEof, RawHeartbeat::new(&bytes).unwrap_err());
}

#[test]
fn scanner_log_that_does_not_match() {
    let bytes = record(b"03", b"x", b"bb", Some(&wind_bytes()), b"power_on=a,start_scan=b");
    assert_eq!(
        Error::RegexMismatch("power_on=a,start_scan=b".to_string()),
        RawHeartbeat::new(&bytes).unwrap_err()
    );
    let bytes = record(b"03", b"x", b"bb", None, b"power_on=a,start_scan=b,stop_scan=c");
    assert_eq!(
        Error::RegexMismatch("=a,start_scan=b,stop_scan=c".to_string()),
        RawHeartbeat::new(&bytes).unwrap_err()
    );
    let bytes = record(b"03", b"x", b"bb", Some(&wind_bytes()), &[b'p', 0xff]);
    assert_eq!(Error::InvalidText(vec![b'p', 0xff]), RawHeartbeat::new(&bytes).unwrap_err());
}

#[test]
fn scanner_fields_are_as_long_as_they_can_be() {
    let text = "power_on=a,start_scan=b,start_scan=c,stop_scan=d,skip_scan=e,skip_scan=f";
    let mut cursor = Cursor::new(text.as_bytes());
    let scanner = Scanner::read_from(&mut cursor).unwrap();
    assert_eq!("a,start_scan=b", scanner.power_on);
    assert_eq!("c", scanner.start_scan);
    assert_eq!("d,skip_scan=e", scanner.stop_scan);
    assert_eq!("f", scanner.skip_scan);
    assert_eq!(text.len(), cursor.get_position());
    let mut cursor = Cursor::new(b"power_on=,start_scan=,stop_scan=,skip_scan=");
    assert_eq!(
        Ok(Scanner {
            power_on: String::new(),
            start_scan: String::new(),
            stop_scan: String::new(),
            skip_scan: String::new(),
        }),
        Scanner::read_from(&mut cursor)
    );
    let mut cursor = Cursor::new(b"power_on=a,start_scan=b,stop_scan=c,skip_scan=d\n");
    assert!(Scanner::read_from(&mut cursor).is_err());
}

#[test]
fn scanner_from_captures() {
    let group = |s: &str| Some(s.to_string());
    assert_eq!(
        Ok(Scanner {
            power_on: "a".to_string(),
            start_scan: "b".to_string(),
            stop_scan: "c".to_string(),
            skip_scan: "d".to_string(),
        }),
        Scanner::from_captures(
            "text".to_string(),
            Some(vec![group("all"), group("a"), group("b"), group("c"), group("d")])
        )
    );
    assert_eq!(
        Err(Error::RegexMismatch("text".to_string())),
        Scanner::from_captures("text".to_string(), None)
    );
    assert_eq!(
        Err(Error::RegexMismatch("text".to_string())),
        Scanner::from_captures(
            "text".to_string(),
            Some(vec![group("all"), group("a"), None, group("c"), group("d")])
        )
    );
    assert_eq!(
        Err(Error::RegexMismatch("text".to_string())),
        Scanner::from_captures("text".to_string(), Some(vec![group("all"), group("a")]))
    );
}

#[test]
fn batteries_read_from() {
    let mut cursor = Cursor::new(b"x");
    assert_eq!(Batteries(None), Batteries::read_from(&mut cursor).unwrap());
    assert_eq!(1, cursor.get_position());
    let mut cursor = Cursor::new(b"bbbbrest");
    assert_eq!(
        Batteries(Some([None, None, None, None])),
        Batteries::read_from(&mut cursor).unwrap()
    );
    assert_eq!(4, cursor.get_position());

    let mut bytes = vec![b'g'];
    bytes.extend([0; 18].iter());
    bytes.extend([b'b'; 3].iter());
    let mut cursor = Cursor::new(&bytes);
    assert_eq!(
        Batteries(Some([Some(K2::default()), None, None, None])),
        Batteries::read_from(&mut cursor).unwrap()
    );
    assert_eq!(22, cursor.get_position());

    let mut cursor = Cursor::new(b"bbzb");
    assert_eq!(Error::UnexpectedByte(b'z'), Batteries::read_from(&mut cursor).unwrap_err());
    assert_eq!(4, cursor.get_position());
}

#[test]
fn records_read_from() {
    let mut cursor = Cursor::new(&[0; 18]);
    assert_eq!(K2::default(), K2::read_from(&mut cursor).unwrap());
    let bytes = k2_bytes();
    let mut cursor = Cursor::new(&bytes);
    assert_eq!(k2(), K2::read_from(&mut cursor).unwrap());
    assert_eq!(18, cursor.get_position());
    let mut cursor = Cursor::new(&bytes[..17]);
    assert_eq!(Error::UnexpectedEof, K2::read_from(&mut cursor).unwrap_err());
    assert_eq!(17, cursor.get_position());

    let mut cursor = Cursor::new(&[0; 23]);
    assert_eq!(Efoy::default(), Efoy::read_from(&mut cursor).unwrap());
    let bytes = efoy_bytes();
    let mut cursor = Cursor::new(&bytes);
    assert_eq!(efoy(), Efoy::read_from(&mut cursor).unwrap());
    assert_eq!(23, cursor.get_position());

    let mut cursor = Cursor::new(b"bb");
    assert_eq!(Efoys([None, None]), Efoys::read_from(&mut cursor).unwrap());
    let mut bytes = vec![b'g'];
    bytes.extend([0; 23].iter());
    bytes.push(b'b');
    let mut cursor = Cursor::new(&bytes);
    assert_eq!(Efoys([Some(Efoy::default()), None]), Efoys::read_from(&mut cursor).unwrap());

    let mut cursor = Cursor::new(b"bb");
    assert_eq!(v04::Efoys([None, None]), v04::Efoys::read_from(&mut cursor).unwrap());
    let mut bytes = vec![b'g'];
    bytes.extend([0; 24].iter());
    bytes.push(b'b');
    let mut cursor = Cursor::new(&bytes);
    assert_eq!(
        v04::Efoys([Some(v04::Efoy::default()), None]),
        v04::Efoys::read_from(&mut cursor).unwrap()
    );

    let bytes = sensors_bytes();
    let mut cursor = Cursor::new(&bytes);
    assert_eq!(sensors(), Sensors::read_from(&mut cursor).unwrap());
    let bytes = wind_bytes();
    let mut cursor = Cursor::new(&bytes);
    let wind = Wind::read_from(&mut cursor).unwrap();
    assert_eq!(7.5, f32::from_bits(wind.speed.bits));
    assert_eq!(270.0, f32::from_bits(wind.direction.bits));
}

#[test]
fn cursor_reads_little_endian() {
    let bytes = [0x01, 0x02, 0x03, 0x04, 0x05, 0x06, 0xff, 0x80, 0x7f];
    let mut cursor = Cursor::new(&bytes);
    assert_eq!(Ok(0x0201), cursor.read_u16());
    assert_eq!(Ok(0x06050403), cursor.read_u32());
    assert_eq!(Ok(-1), cursor.read_i8());
    assert_eq!(Ok(-128), cursor.read_i8());
    assert_eq!(8, cursor.get_position());
    assert!(cursor.read_u16().is_err());
    assert_eq!(9, cursor.get_position());
    cursor.set_position(8);
    assert_eq!(Ok(127), cursor.read_u8());
    assert!(cursor.read_u8().is_err());
    cursor.set_position(2);
    assert_eq!(Ok(&bytes[2..4]), cursor.take(2));
    assert_eq!(&bytes[4..], cursor.take_rest());
    assert!(cursor.take_rest().is_empty());
}

#[test]
fn battery_status_and_errors() {
    assert_eq!(BatteryStatus::Idle, BatteryStatus::from_byte(0));
    assert_eq!(BatteryStatus::Discharge, BatteryStatus::from_byte(1));
    assert_eq!(BatteryStatus::Charge, BatteryStatus::from_byte(2));
    assert_eq!(BatteryStatus::Idle, BatteryStatus::from_byte(3));
    assert_eq!(BatteryStatus::Idle, BatteryStatus::from_byte(255));
    assert_eq!(Vec::<BatteryError>::new(), BatteryError::from_codes(0));
    assert_eq!(Vec::<BatteryError>::new(), BatteryError::from_codes(0xff00));
    assert_eq!(
        vec![BatteryError::Code01, BatteryError::Code04, BatteryError::Code80],
        BatteryError::from_codes(0x0185)
    );
    assert_eq!(8, BatteryError::from_codes(0xffff).len());
    assert_eq!(0x20, BatteryError::Code20.mask());
}

#[test]
fn heartbeat_from_raw() {
    let mut batteries = b"b".to_vec();
    batteries.push(b'g');
    batteries.extend(k2_bytes());
    batteries.extend_from_slice(b"bb");
    let mut efoys = vec![b'g'];
    efoys.extend(efoy_bytes());
    efoys.push(1);
    efoys.push(b'x');
    let bytes = record(b"04", &batteries, &efoys, Some(&wind_bytes()), LOG.as_bytes());
    let raw = RawHeartbeat::new(&bytes).unwrap();
    let heartbeat = Heartbeat::from(RawHeartbeat::new(&bytes).unwrap());
    assert_eq!(None, heartbeat.datetime);
    assert_eq!(
        vec![Battery {
            current: bits(-1.5),
            state_of_charge: 87,
            temperature: -10,
            voltage: bits(13.25),
            status: BatteryStatus::Charge,
            errors: vec![BatteryError::Code01, BatteryError::Code04],
        }],
        heartbeat.batteries
    );
    assert_eq!(Battery::from(k2()), heartbeat.batteries[0]);
    assert_eq!(
        vec![EfoyInfo { efoy: efoy(), active_cartridge_port: Some(1) }],
        heartbeat.efoys
    );
    assert_eq!(Some(WindInfo { speed: bits(7.5), direction: bits(270.0) }), heartbeat.wind);
    assert_eq!(raw, heartbeat.raw);

    let bytes = record(b"03", b"x", b"bb", None, LOG.as_bytes());
    let heartbeat = Heartbeat::from_raw(RawHeartbeat::new(&bytes).unwrap());
    assert!(heartbeat.batteries.is_empty());
    assert!(heartbeat.efoys.is_empty());
    assert_eq!(None, heartbeat.wind);
    let list: Vec<Battery> = Batteries(Some([Some(k2()), None, Some(K2::default()), None])).into();
    assert_eq!(2, list.len());
}

#[test]
fn heartbeat_from_message() {
    let bytes = record(b"03", b"ggbg", b"bb", None, LOG.as_bytes());
    assert!(Heartbeat::new(&Message::from(bytes)).is_err());
    let mut batteries = Vec::new();
    for _ in 0..4 {
        batteries.push(b'g');
        batteries.extend(k2_bytes());
    }
    let bytes = record(b"03", &batteries, b"bb", Some(&wind_bytes()), LOG.as_bytes());
    let north = Heartbeat::new(&bytes.clone().into()).unwrap();
    assert_eq!(None, north.datetime);
    let mut message = Message::from(bytes);
    message.datetime = Some(1569758502);
    let north = Heartbeat::new(&message).unwrap();
    assert_eq!(message.datetime, north.datetime);
    assert_eq!(4, north.batteries.len());
    assert_eq!(
        Error::MagicNumber(*b"self"),
        Heartbeat::new(&Message::from(b"self-timed".to_vec())).unwrap_err()
    );
}
