use glacio::sutron::message::{Error, Message, Reassembler};
use glacio::sutron::packet::{Burst, Packet};
use glacio::sutron::{reassemble, single_message, SingleMessageError};

#[test]
fn one_message() {
    let packet = Packet::new(b"0self-timed message").unwrap();
    let mut reassembler = Reassembler::new();
    let message = reassembler.add(packet).unwrap();
    assert_eq!(b"self-timed message".as_ref(), message.data.as_slice());
}

#[test]
fn one_message_two_packets() {
    let packet_a = Packet::new(b"1,42,0,2:a").unwrap();
    let packet_b = Packet::new(b"1,42,1:b").unwrap();
    let mut reassembler = Reassembler::new();
    assert_eq!(None, reassembler.add(packet_a));
    let message = reassembler.add(packet_b).unwrap();
    assert_eq!(b"ab".as_ref(), message.data.as_slice());
}

#[test]
fn two_messages_interleaved() {
    let packet_a = Packet::new(b"1,42,0,2:a").unwrap();
    let packet_b = Packet::new(b"1,42,1:b").unwrap();
    let packet_c = Packet::new(b"1,43,0,2:c").unwrap();
    let packet_d = Packet::new(b"1,43,1:d").unwrap();
    let mut reassembler = Reassembler::new();
    assert_eq!(None, reassembler.add(packet_a));
    assert_eq!(None, reassembler.add(packet_c));
    let message = reassembler.add(packet_b).unwrap();
    assert_eq!(b"ab".as_ref(), message.data.as_slice());
    let message = reassembler.add(packet_d).unwrap();
    assert_eq!(b"cd".as_ref(), message.data.as_slice());
}

#[test]
fn one_message_with_reset() {
    let packet_a = Packet::new(b"1,42,0,2:a").unwrap();
    let packet_b = Packet::new(b"1,42,1:b").unwrap();
    let packet_c = Packet::new(b"1,42,0,2:c").unwrap();
    let mut reassembler = Reassembler::new();
    assert_eq!(None, reassembler.add(packet_a.clone()));
    assert_eq!(None, reassembler.add(packet_c));
    let message = reassembler.add(packet_b).unwrap();
    assert_eq!(b"cb".as_ref(), message.data.as_slice());
    assert_eq!([packet_a], reassembler.recycle_bin());
}

#[test]
fn one_message_too_long() {
    let packet_a = Packet::new(b"1,42,0,2:a").unwrap();
    let packet_b = Packet::new(b"1,42,1:bc").unwrap();
    let packet_c = Packet::new(b"1,42,0,3:c").unwrap();
    let mut reassembler = Reassembler::new();
    assert_eq!(None, reassembler.add(packet_a));
    assert_eq!(None, reassembler.add(packet_b.clone()));
    assert_eq!(None, reassembler.add(packet_c));
    let message = reassembler.add(packet_b).unwrap();
    assert_eq!(b"cbc".as_ref(), message.data.as_slice());
}

#[test]
fn message_from_vec() {
    let data = vec![0u8, 42u8];
    let message = Message::from(data);
    assert_eq!(vec![0u8, 42u8], message.data);
    assert_eq!(None, message.datetime);
    assert_eq!(Vec::<Packet>::new(), message.packets);
}

#[test]
fn standalone_message_between_fragments() {
    let packet_a = Packet::new(b"1,42,0,2:a").unwrap();
    let packet_standalone = Packet::new(b"0test message").unwrap();
    let packet_b = Packet::new(b"1,42,1:b").unwrap();
    let mut reassembler = Reassembler::new();
    assert_eq!(None, reassembler.add(packet_a));
    let message_standalone = reassembler.add(packet_standalone).unwrap();
    assert_eq!(b"test message".to_vec(), message_standalone.data);
    let message_multipacket = reassembler.add(packet_b).unwrap();
    assert_eq!(b"ab".to_vec(), message_multipacket.data);
    assert_eq!(2, message_multipacket.packets.len());
    assert!(reassembler.recycle_bin().is_empty());
}

#[test]
fn whole_start_packet_is_a_message() {
    let packet = Packet::new(b"1,7,0,5:hello").unwrap();
    let mut reassembler = Reassembler::new();
    assert_eq!(None, reassembler.add(Packet::new(b"1,7,0,9:old").unwrap()));
    let message = reassembler.add(packet.clone()).unwrap();
    assert_eq!(b"hello".to_vec(), message.data);
    assert_eq!(vec![packet], message.packets);
    assert_eq!(1, reassembler.recycle_bin().len());
    assert_eq!(None, reassembler.add(Packet::new(b"1,7,5:x").unwrap()));
}

#[test]
fn recycle_bin_records_every_reset() {
    let packet = Packet::new(b"1,42,0,3:a").unwrap();
    let mut reassembler = Reassembler::new();
    assert_eq!(None, reassembler.add(packet.clone()));
    assert!(reassembler.recycle_bin().is_empty());
    assert_eq!(None, reassembler.add(packet.clone()));
    assert_eq!([packet.clone()], reassembler.recycle_bin());
    let continuation = Packet::new(b"1,42,1:b").unwrap();
    assert_eq!(None, reassembler.add(continuation.clone()));
    assert_eq!(None, reassembler.add(packet.clone()));
    assert_eq!([packet.clone(), packet, continuation], reassembler.recycle_bin());
}

#[test]
fn message_new_errors() {
    assert_eq!(Err(Error::NoPackets), Message::new(Vec::new()));
    let continuation = Packet::new(b"1,42,1:b").unwrap();
    assert_eq!(
        Err(Error::NoTotalBytes(continuation.clone())),
        Message::new(vec![continuation.clone(), Packet::new(b"1,42,0,2:a").unwrap()])
    );
    assert_eq!(
        Err(Error::DataLengthMismatch { sub_header: 4, actual: 3 }),
        Message::new(vec![Packet::new(b"1,42,0,4:ab").unwrap(), continuation])
    );
}

#[test]
fn message_new_takes_time_and_packets() {
    let first = Packet::from_message(Burst {
        payload: b"1,42,0,2:a".to_vec(),
        time_of_session: Some(100),
    })
    .unwrap();
    let second = Packet::from_message(Burst {
        payload: b"1,42,1:b".to_vec(),
        time_of_session: Some(200),
    })
    .unwrap();
    let message = Message::new(vec![first.clone(), second.clone()]).unwrap();
    assert_eq!(b"ab".to_vec(), message.data);
    assert_eq!(Some(100), message.datetime);
    assert_eq!(vec![first, second], message.packets);
    let plain = Packet::new(b"0self-timed").unwrap();
    let message = Message::new(vec![plain.clone(), Packet::new(b"0other").unwrap()]).unwrap();
    assert_eq!(b"self-timed".to_vec(), message.data);
    assert_eq!(None, message.datetime);
    assert_eq!(2, message.packets.len());
}

#[test]
fn reassemble_passes_over_what_does_not_parse() {
    let bursts = vec![
        Burst { payload: b"1,26,0,4:ab".to_vec(), time_of_session: Some(1) },
        Burst { payload: b"8,N=ATLAS_02:forced".to_vec(), time_of_session: Some(2) },
        Burst { payload: b"1,x:".to_vec(), time_of_session: Some(3) },
        Burst { payload: b"1,26,2:cd".to_vec(), time_of_session: Some(4) },
    ];
    let messages = reassemble(bursts);
    assert_eq!(2, messages.len());
    assert_eq!(b"forced".to_vec(), messages[0].data);
    assert_eq!(Some(2), messages[0].datetime);
    assert_eq!(b"abcd".to_vec(), messages[1].data);
    assert_eq!(Some(1), messages[1].datetime);
    assert!(reassemble(Vec::new()).is_empty());
}

#[test]
fn single_message_needs_exactly_its_packets() {
    let packet = |payload: &[u8], time: i64| {
        Packet::from_message(Burst { payload: payload.to_vec(), time_of_session: Some(time) })
            .unwrap()
    };
    let message =
        single_message(vec![packet(b"1,42,1:b", 2), packet(b"1,42,0,2:a", 1)]).unwrap();
    assert_eq!(b"ab".to_vec(), message.data);
    assert_eq!(Some(1), message.datetime);
    assert_eq!(Err(SingleMessageError::NotEnough), single_message(Vec::new()));
    assert_eq!(
        Err(SingleMessageError::NotEnough),
        single_message(vec![packet(b"1,42,0,2:a", 1)])
    );
    assert_eq!(
        Err(SingleMessageError::TooMany),
        single_message(vec![packet(b"0whole", 1), packet(b"0other", 2)])
    );
    assert_eq!(
        Err(SingleMessageError::NotEnough),
        single_message(vec![packet(b"1,42,0,2:a", 2), packet(b"1,42,1:b", 1)])
    );
}
