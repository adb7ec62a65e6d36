use glacio::sutron::packet::{
    is_extended as packet_is_extended,
    parse_sub_header_station_name as station_name_of_field, parse_sub_header,
    station_name_from_non_extended_sub_header, Burst, Error, Packet, SubHeader, Type,
};

#[test]
fn new() {
    assert_eq!(Error::MissingPacketTypeByte, Packet::new(b"").unwrap_err());
    assert_eq!(
        Error::LeadingSubHeaderCharacters("2".to_string()),
        Packet::new(b"12,:").unwrap_err()
    );
    assert_eq!(Error::MissingId, Packet::new(b"1:").unwrap_err());
    assert_eq!(Error::MissingStartByte, Packet::new(b"1,42:").unwrap_err());

    let packet = Packet::new(b"1,42,16:").unwrap();
    let sub_header = packet.sub_header().unwrap();
    assert_eq!(42, sub_header.id);
    assert_eq!(16, sub_header.start_byte);
    assert_eq!(None, sub_header.total_bytes);

    let packet = Packet::new(b"1,42,16,22:").unwrap();
    let sub_header = packet.sub_header().unwrap();
    assert_eq!(42, sub_header.id);
    assert_eq!(16, sub_header.start_byte);
    assert_eq!(Some(22), sub_header.total_bytes);

    let packet = Packet::new(b"1,42,16,N=ATLAS:").unwrap();
    assert_eq!(Some("ATLAS"), packet.station_name());
    let sub_header = packet.sub_header().unwrap();
    assert_eq!(42, sub_header.id);
    assert_eq!(16, sub_header.start_byte);
    assert_eq!(None, sub_header.total_bytes);

    let packet = Packet::new(b"1,42,16,22,N=ATLAS:").unwrap();
    assert_eq!(Some("ATLAS"), packet.station_name());
    let sub_header = packet.sub_header().unwrap();
    assert_eq!(42, sub_header.id);
    assert_eq!(16, sub_header.start_byte);
    assert_eq!(Some(22), sub_header.total_bytes);

    assert_eq!(
        Error::InvalidStationNameField("ATLAS".to_string()),
        Packet::new(b"1,42,16,22,ATLAS:").unwrap_err()
    );
    assert_eq!(
        Error::TrailingSubHeaderCharacters(",foobar".to_string()),
        Packet::new(b"1,42,16,22,N=ATLAS,foobar:").unwrap_err()
    );

    let packet = Packet::new(b"0").unwrap();
    assert_eq!(None, packet.station_name());
    let packet = Packet::new(b"0,N=ATLAS:beers").unwrap();
    assert_eq!(Some("ATLAS"), packet.station_name());
    assert_eq!(b"beers", packet.data());
    let packet = Packet::new(b"0,ATLAS:").unwrap();
    assert_eq!(None, packet.station_name());
    assert_eq!(b",ATLAS:", packet.data());
}

#[test]
fn is_extended() {
    for &n in &[b'1', b'3', b'5', b'7', b'9'] {
        assert!(packet_is_extended(n));
    }
    for &n in &[b'0', b'2', b'4', b'6', b'8', b'}', b'!', 0xff] {
        assert!(!packet_is_extended(n));
    }
}

#[test]
fn parse_sub_header_station_name() {
    assert_eq!(None, station_name_of_field("ATLAS"));
    assert_eq!(Some("ATLAS".to_string()), station_name_of_field("N=ATLAS"));
}

#[test]
fn station_name_marker_needs_both_characters() {
    assert_eq!(Some(String::new()), station_name_of_field("N="));
    assert_eq!(None, station_name_of_field("N"));
    assert_eq!(None, station_name_of_field(""));
    assert_eq!(None, station_name_of_field("n=ATLAS"));
}

#[test]
fn packet_types() {
    assert_eq!(Type::SelfTimed, Packet::new(b"0").unwrap().type_());
    assert_eq!(Type::SelfTimed, Packet::new(b"1,1,0:").unwrap().type_());
    assert_eq!(Type::EnteringAlarm, Packet::new(b"2").unwrap().type_());
    assert_eq!(Type::EnteringAlarm, Packet::new(b"3,1,0:").unwrap().type_());
    assert_eq!(Type::ExitingAlarm, Packet::new(b"4").unwrap().type_());
    assert_eq!(Type::ExitingAlarm, Packet::new(b"5,1,0:").unwrap().type_());
    assert_eq!(Type::CommandResponse, Packet::new(b"6").unwrap().type_());
    assert_eq!(Type::CommandResponse, Packet::new(b"7,1,0:").unwrap().type_());
    assert_eq!(Type::ForcedTransmission, Packet::new(b"8").unwrap().type_());
    assert_eq!(Type::ForcedTransmission, Packet::new(b"9,1,0:").unwrap().type_());
    assert_eq!(Type::UserDefined, Packet::new(b"}").unwrap().type_());
    assert_eq!(Type::BinaryData, Packet::new(&[0xff]).unwrap().type_());
    assert_eq!(Type::Reserved(b'!'), Packet::new(b"!").unwrap().type_());
    assert_eq!(Type::SelfTimed, Type::from(b'0'));
    assert_eq!(Type::Reserved(0), Type::from(0));
}

#[test]
fn fillers_are_skipped() {
    let packet = Packet::new(b"~~0test").unwrap();
    assert_eq!(Type::SelfTimed, packet.type_());
    assert_eq!(b"test", packet.data());
    assert_eq!(Error::MissingPacketTypeByte, Packet::new(b"~~~").unwrap_err());
}

#[test]
fn plain_packet_keeps_every_byte() {
    for payload in [&b"0test message"[..], b"~~8a:b,c", b"2,ATLAS:x", b"}", b"6,N"] {
        let packet = Packet::new(payload).unwrap();
        assert_eq!(None, packet.sub_header());
        assert_eq!(None, packet.station_name());
        let fillers = payload.iter().take_while(|&&b| b == b'~').count();
        let mut rebuilt = vec![payload[fillers]];
        rebuilt.extend_from_slice(packet.data());
        assert_eq!(&payload[fillers..], rebuilt.as_slice());
    }
}

#[test]
fn extended_packet_data_follows_the_terminator() {
    let packet = Packet::new(b"1,42,0,4:te:t").unwrap();
    assert_eq!(b"te:t", packet.data());
    let packet = Packet::new(b"1,42,0,4").unwrap();
    assert_eq!(b"", packet.data());
    assert_eq!(Some(4), packet.sub_header().unwrap().total_bytes);
}

#[test]
fn start_packets() {
    assert!(Packet::new(b"0test").unwrap().is_start_packet());
    assert!(Packet::new(b"1,42,0,4:test").unwrap().is_start_packet());
    assert!(!Packet::new(b"1,42,2:test").unwrap().is_start_packet());
}

#[test]
fn numbers_in_the_sub_header() {
    assert_eq!(Error::MissingId, Packet::new(b"1,256,0:").unwrap_err());
    assert_eq!(Error::MissingId, Packet::new(b"1,x,0:").unwrap_err());
    assert_eq!(Error::MissingId, Packet::new(b"1,,0:").unwrap_err());
    assert_eq!(Error::MissingId, Packet::new(b"1,-1,0:").unwrap_err());
    assert_eq!(Error::MissingStartByte, Packet::new(b"1,42,x:").unwrap_err());
    assert_eq!(Error::MissingStartByte, Packet::new(b"1,42,:").unwrap_err());
    assert_eq!(
        Error::MissingStartByte,
        Packet::new(b"1,42,99999999999999999999999999:").unwrap_err()
    );
    let sub_header = Packet::new(b"1,+255,007:").unwrap().sub_header().unwrap();
    assert_eq!(SubHeader { id: 255, start_byte: 7, total_bytes: None }, sub_header);
    let sub_header = Packet::new(b"1,0,18446744073709551615:").unwrap().sub_header();
    if usize::MAX as u128 == 18446744073709551615 {
        assert_eq!(usize::MAX, sub_header.unwrap().start_byte);
    }
}

#[test]
fn fourth_and_fifth_fields() {
    assert_eq!(
        Error::InvalidStationNameField("ATLAS".to_string()),
        Packet::new(b"1,42,16,ATLAS:").unwrap_err()
    );
    assert_eq!(
        Error::InvalidStationNameField(String::new()),
        Packet::new(b"1,42,16,22,:").unwrap_err()
    );
    assert_eq!(
        Error::TrailingSubHeaderCharacters(",N=B".to_string()),
        Packet::new(b"1,42,16,N=A,N=B:").unwrap_err()
    );
    assert_eq!(
        Error::TrailingSubHeaderCharacters(",,".to_string()),
        Packet::new(b"1,42,16,22,N=A,,:").unwrap_err()
    );
    let packet = Packet::new(b"1,42,16,22,N=A,:").unwrap();
    assert_eq!(Some("A"), packet.station_name());
    let packet = Packet::new(b"1,42,16,N=A,:x").unwrap();
    assert_eq!(Some("A"), packet.station_name());
    assert_eq!(b"x", packet.data());
}

#[test]
fn sub_header_that_is_not_text() {
    assert_eq!(
        Error::InvalidSubHeaderText(vec![b',', 0xff]),
        Packet::new(&[b'1', b',', 0xff, b':', b'a']).unwrap_err()
    );
    let packet = Packet::new(&[b'0', b',', 0xff, b':', b'a']).unwrap();
    assert_eq!(None, packet.station_name());
    assert_eq!(&[b',', 0xff, b':', b'a'], packet.data());
    let packet = Packet::new("1,42,0,N=Grönland:x".as_bytes()).unwrap();
    assert_eq!(Some("Grönland"), packet.station_name());
    assert_eq!(b"x", packet.data());
}

#[test]
fn parse_sub_header_alone() {
    assert_eq!(
        Ok((SubHeader { id: 42, start_byte: 16, total_bytes: Some(22) }, Some("ATLAS".to_string()))),
        parse_sub_header(",42,16,22,N=ATLAS")
    );
    assert_eq!(Err(Error::MissingId), parse_sub_header(""));
    assert_eq!(
        Err(Error::LeadingSubHeaderCharacters("a".to_string())),
        parse_sub_header("a,1,2")
    );
}

#[test]
fn station_name_of_plain_packet() {
    assert_eq!(
        Some("ATLAS".to_string()),
        station_name_from_non_extended_sub_header(b",N=ATLAS:beers")
    );
    assert_eq!(
        Some("ATLAS".to_string()),
        station_name_from_non_extended_sub_header(b",N=ATLAS")
    );
    assert_eq!(None, station_name_from_non_extended_sub_header(b",ATLAS:beers"));
    assert_eq!(None, station_name_from_non_extended_sub_header(b"N=ATLAS:beers"));
    assert_eq!(None, station_name_from_non_extended_sub_header(b""));
}

#[test]
fn packet_from_burst() {
    let burst = Burst { payload: b"0test".to_vec(), time_of_session: Some(1533040500) };
    let packet = Packet::from_message(burst.clone()).unwrap();
    assert_eq!(Some(&burst), packet.message());
    assert_eq!(Some(1533040500), packet.datetime());
    assert_eq!(b"test", packet.data());
    let packet = Packet::new(b"0test").unwrap();
    assert_eq!(None, packet.message());
    assert_eq!(None, packet.datetime());
    let burst = Burst { payload: b"1:".to_vec(), time_of_session: None };
    assert_eq!(Error::MissingId, Packet::from_message(burst).unwrap_err());
}
