use glacio::atlas::heartbeat::raw::Error as RawError;
use glacio::atlas::site::{
    bad_heartbeats, heartbeats, latest_heartbeat, reassemble as reassemble_for_site, Error, Site,
};
use glacio::order::{is_not_after, sort_by_time};
use glacio::sutron::packet::{Burst, Error as PacketError};

const LOG: &str = "power_on=a,start_scan=b,stop_scan=c,skip_scan=d";

fn heartbeat_bytes(log: &str) -> Vec<u8> {
    let mut bytes = b"ATHB03000xbb".to_vec();
    bytes.extend_from_slice(&[0; 16]);
    bytes.extend_from_slice(log.as_bytes());
    bytes
}

fn burst(payload: &[u8], time: i64) -> Burst {
    Burst { payload: payload.to_vec(), time_of_session: Some(time) }
}

fn fragments(id: u8, data: &[u8], time: i64) -> Vec<Burst> {
    let half = data.len() / 2;
    let mut first = format!("1,{},0,{}:", id, data.len()).into_bytes();
    first.extend_from_slice(&data[..half]);
    let mut second = format!("1,{},{}:", id, half).into_bytes();
    second.extend_from_slice(&data[half..]);
    vec![burst(&first, time), burst(&second, time + 20)]
}

#[test]
fn from_str() {
    assert_eq!(Site::South, "south".parse().unwrap());
    assert_eq!(Site::South, "South".parse().unwrap());
    assert_eq!(Site::South, "SOUTH".parse().unwrap());
    assert_eq!(Site::North, "north".parse().unwrap());
    assert_eq!(Site::North, "North".parse().unwrap());
    assert_eq!(Site::North, "NORTH".parse().unwrap());
    assert_eq!(Site::Crrel, "crrel".parse().unwrap());
    assert_eq!(Site::Crrel, "Crrel".parse().unwrap());
    assert_eq!(Site::Crrel, "CRREL".parse().unwrap());
    assert!("notasite".parse::<Site>().is_err());
}

#[test]
fn site_names() {
    assert_eq!(Err(Error::SiteName("NotASite".to_string())), Site::from_name("NotASite"));
    assert_eq!(Ok(Site::North), Site::from_name("nOrTh"));
    assert_eq!(Ok(Site::South), Site::from_lowercase("whatever", "south"));
    assert_eq!(
        Err(Error::SiteName("South".to_string())),
        Site::from_lowercase("South", "South")
    );
}

#[test]
fn imei() {
    assert_eq!("300234063554810", Site::North.imei());
    assert_eq!("300234063554840", Site::South.imei());
    assert_eq!("300234063554800", Site::Crrel.imei());
}

#[test]
fn times_in_order() {
    assert!(is_not_after(None, None));
    assert!(is_not_after(None, Some(i64::MIN)));
    assert!(!is_not_after(Some(i64::MIN), None));
    assert!(is_not_after(Some(1), Some(1)));
    assert!(is_not_after(Some(-1), Some(1)));
    assert!(!is_not_after(Some(2), Some(1)));
}

#[test]
fn sort_is_stable() {
    let bursts = vec![
        burst(b"c", 3),
        burst(b"a1", 1),
        Burst { payload: b"n1".to_vec(), time_of_session: None },
        burst(b"b", 2),
        burst(b"a2", 1),
        Burst { payload: b"n2".to_vec(), time_of_session: None },
        burst(b"a3", 1),
    ];
    let sorted = sort_by_time(bursts);
    let order: Vec<&[u8]> = sorted.iter().map(|b| b.payload.as_slice()).collect();
    assert_eq!(
        vec![&b"n1"[..], b"n2", b"a1", b"a2", b"a3", b"b", b"c"],
        order
    );
    assert!(sort_by_time(Vec::<Burst>::new()).is_empty());
}

#[test]
fn site_reassembles_in_order_of_time() {
    let mut bursts = fragments(26, b"second message", 200);
    bursts.reverse();
    bursts.push(burst(b"0first", 100));
    let messages = reassemble_for_site(bursts).unwrap();
    assert_eq!(2, messages.len());
    assert_eq!(b"first".to_vec(), messages[0].data);
    assert_eq!(Some(100), messages[0].datetime);
    assert_eq!(b"second message".to_vec(), messages[1].data);
    assert_eq!(Some(200), messages[1].datetime);
}

#[test]
fn site_messages_come_out_by_their_start() {
    let mut bursts = fragments(1, b"long message", 100);
    bursts.insert(1, burst(b"0short", 110));
    let messages = reassemble_for_site(bursts).unwrap();
    assert_eq!(b"long message".to_vec(), messages[0].data);
    assert_eq!(b"short".to_vec(), messages[1].data);
}

#[test]
fn site_fails_on_a_burst_that_is_no_packet() {
    let bursts = vec![burst(b"0ok", 1), burst(b"1,x:", 3), burst(b"", 2)];
    assert_eq!(Err(PacketError::MissingPacketTypeByte), reassemble_for_site(bursts));
    let bursts = vec![burst(b"0ok", 1), burst(b"1,x:", 3)];
    assert_eq!(Err(PacketError::MissingId), heartbeats(bursts));
    assert_eq!(None, latest_heartbeat(vec![burst(b"", 1)]));
}

#[test]
fn heartbeats_of_a_site() {
    let mut bursts = fragments(7, &heartbeat_bytes(LOG), 300);
    bursts.push(burst(b"8,N=ATLAS:test message", 50));
    bursts.extend(fragments(8, &heartbeat_bytes("power_on=x,start_scan=y,stop_scan=z,skip_scan=w"), 100));
    let mut whole = b"0".to_vec();
    whole.extend(heartbeat_bytes("nothing"));
    bursts.push(burst(&whole, 400));

    let list = heartbeats(bursts.clone()).unwrap();
    assert_eq!(2, list.len());
    assert_eq!(Some(100), list[0].datetime);
    assert_eq!(Some(300), list[1].datetime);

    let errors = bad_heartbeats(bursts.clone()).unwrap();
    assert_eq!(
        vec![RawError::MagicNumber(*b"test"), RawError::UnexpectedEof],
        errors
    );

    let latest = latest_heartbeat(bursts).unwrap();
    assert_eq!(Some(300), latest.datetime);
    assert_eq!(None, latest_heartbeat(vec![burst(b"0test", 1)]));
    assert_eq!(None, latest_heartbeat(Vec::new()));
}
