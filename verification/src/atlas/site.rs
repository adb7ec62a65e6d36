//! The ATLAS sites, and the heartbeats in the bursts that a site has sent.

use crate::atlas::heartbeat::raw;
use crate::atlas::heartbeat::{Heartbeat, HeartbeatView};
use crate::order::{sort_by_time, sorted_by_time, time_reader};
use crate::sutron::message::{Message, MessageView, Reassembler, ReassemblerView};
use crate::sutron::packet::{self, parse, Burst, BurstView, Packet, PacketView};
use crate::text::{lowercase_of, same_text, to_lowercase};
use vstd::prelude::*;

verus! {

/// An ATLAS installation.
#[derive(Clone, Copy, Debug, PartialEq, Eq, Structural)]
pub enum Site {
    /// ATLAS-South, installed in 2015.
    South,
    /// ATLAS-North, installed in 2018.
    North,
    /// ATLAS-CRREL, the test system back home.
    Crrel,
}

/// A site error.
#[derive(Debug, PartialEq, Eq)]
pub enum Error {
    /// Invalid site name.
    SiteName(String),
}

impl Site {
    /// The IMEI of the modem of the site.
    pub open spec fn spec_imei(self) -> Seq<char> {
        match self {
            Site::South => "300234063554840"@,
            Site::North => "300234063554810"@,
            Site::Crrel => "300234063554800"@,
        }
    }

    /// Returns this site's active IMEI.
    pub fn imei(&self) -> (imei: &'static str)
        ensures
            imei@ == self.spec_imei(),
    {
        match self {
            Site::South => "300234063554840",
            Site::North => "300234063554810",
            Site::Crrel => "300234063554800",
        }
    }

    /// The site that a name in lower case names.
    pub open spec fn of_lowercase(lower: Seq<char>) -> Option<Site> {
        if lower == "south"@ {
            Some(Site::South)
        } else if lower == "north"@ {
            Some(Site::North)
        } else if lower == "crrel"@ {
            Some(Site::Crrel)
        } else {
            None
        }
    }

    /// The site that `name` names, given the name in lower case: `south`,
    /// `north` or `crrel`. Any other name is refused, as it was written.
    pub fn from_lowercase(name: &str, lower: &str) -> (r: Result<Site, Error>)
        ensures
            match Site::of_lowercase(lower@) {
                Some(site) => r == Ok::<Site, Error>(site),
                None => r is Err && (r->Err_0 matches Error::SiteName(refused) && refused@ == name@),
            },
    {
        if same_text(lower, "south") {
            Ok(Site::South)
        } else if same_text(lower, "north") {
            Ok(Site::North)
        } else if same_text(lower, "crrel") {
            Ok(Site::Crrel)
        } else {
            Err(Error::SiteName(name.to_owned()))
        }
    }

    /// The site that `name` names, in whatever case it is written.
    pub fn from_name(name: &str) -> (r: Result<Site, Error>)
        ensures
            match Site::of_lowercase(lowercase_of(name@)) {
                Some(site) => r == Ok::<Site, Error>(site),
                None => r is Err && (r->Err_0 matches Error::SiteName(refused) && refused@ == name@),
            },
    {
        let lower: String = to_lowercase(name);
        Site::from_lowercase(name, lower.as_str())
    }
}

impl std::str::FromStr for Site {
    type Err = Error;

    fn from_str(s: &str) -> (r: Result<Site, Error>)
        ensures
            match Site::of_lowercase(lowercase_of(s@)) {
                Some(site) => r == Ok::<Site, Error>(site),
                None => r is Err && (r->Err_0 matches Error::SiteName(refused) && refused@ == s@),
            },
    {
        Site::from_name(s)
    }
}

/// The packet that a burst carries.
pub open spec fn packet_in(burst: BurstView) -> Result<PacketView, packet::ErrorView> {
    match parse(burst.payload) {
        Ok(p) => Ok(PacketView { message: Some(burst), ..p }),
        Err(e) => Err(e),
    }
}

/// The state of a reassembler that has taken the bursts in the order given,
/// and the messages that it has completed; the error of the first burst
/// whose payload is no packet, if there is one.
pub open spec fn collected(bursts: Seq<BurstView>) -> Result<
    (ReassemblerView, Seq<MessageView>),
    packet::ErrorView,
>
    decreases bursts.len(),
{
    if bursts.len() == 0 {
        Ok((ReassemblerView::empty(), Seq::empty()))
    } else {
        match collected(bursts.drop_last()) {
            Err(e) => Err(e),
            Ok((state, messages)) => match packet_in(bursts.last()) {
                Err(e) => Err(e),
                Ok(packet) => match state.add(packet).1 {
                    Some(message) => Ok((state.add(packet).0, messages.push(message))),
                    None => Ok((state.add(packet).0, messages)),
                },
            },
        }
    }
}

/// The messages in the bursts of a site: the bursts are taken from the
/// oldest to the newest, and the messages come out from the oldest to the newest.
pub open spec fn messages_in(bursts: Seq<BurstView>) -> Result<
    Seq<MessageView>,
    packet::ErrorView,
> {
    match collected(sorted_by_time(bursts, time_reader::<Burst>())) {
        Ok((_, messages)) => Ok(sorted_by_time(messages, time_reader::<Message>())),
        Err(e) => Err(e),
    }
}

/// Once a burst fails to parse, the bursts behind it change nothing.
pub proof fn lemma_collected_fails(bursts: Seq<BurstView>, failed: int)
    requires
        0 <= failed <= bursts.len(),
        collected(bursts.take(failed)) is Err,
    ensures
        collected(bursts) == collected(bursts.take(failed)),
    decreases bursts.len(),
{
    if failed == bursts.len() {
        assert(bursts.take(failed) =~= bursts);
    } else {
        assert(bursts.drop_last().take(failed) =~= bursts.take(failed));
        lemma_collected_fails(bursts.drop_last(), failed);
    }
}

/// Reassembles the messages in the bursts of a site.
///
/// Fails if the payload of a burst is no packet.
pub fn reassemble(bursts: Vec<Burst>) -> (r: Result<Vec<Message>, packet::Error>)
    ensures
        match messages_in(bursts.deep_view()) {
            Ok(messages) => r is Ok && r->Ok_0.deep_view() == messages,
            Err(e) => r is Err && r->Err_0@ == e,
        },
{
    let ghost given = bursts.deep_view();
    let ordered: Vec<Burst> = sort_by_time(bursts);
    let ghost all = ordered.deep_view();
    let mut reassembler = Reassembler::new();
    let mut messages: Vec<Message> = Vec::new();
    let mut i: usize = 0;
    assert(all.take(0) =~= Seq::<BurstView>::empty());
    assert(messages.deep_view() =~= Seq::<MessageView>::empty());
    while i < ordered.len()
        invariant
            i <= ordered.len(),
            all == ordered.deep_view(),
            given == bursts.deep_view(),
            all == sorted_by_time(given, time_reader::<Burst>()),
            collected(all.take(i as int)) == Ok::<
                (ReassemblerView, Seq<MessageView>),
                packet::ErrorView,
            >((reassembler@, messages.deep_view())),
        decreases ordered.len() - i,
    {
        let ghost done = messages.deep_view();
        proof {
            assert(all.take(i + 1).drop_last() =~= all.take(i as int));
            assert(all.take(i + 1).last() == ordered[i as int]@);
        }
        let packet: Packet = match Packet::from_message(ordered[i].clone()) {
            Ok(packet) => packet,
            Err(e) => {
                proof {
                    lemma_collected_fails(all, i + 1);
                }
                return Err(e);
            },
        };
        if let Some(message) = reassembler.add(packet) {
            messages.push(message);
            assert(messages.deep_view() =~= done.push(message@));
        }
        i = i + 1;
    }
    assert(all.take(ordered.len() as int) =~= all);
    Ok(sort_by_time(messages))
}

/// The heartbeats in the messages that are heartbeats, in the order of the messages.
pub open spec fn heartbeats_in(messages: Seq<MessageView>) -> Seq<HeartbeatView>
    decreases messages.len(),
{
    if messages.len() == 0 {
        Seq::empty()
    } else {
        match HeartbeatView::of_message(messages.last().data, messages.last().datetime) {
            Ok(heartbeat) => heartbeats_in(messages.drop_last()).push(heartbeat),
            Err(_) => heartbeats_in(messages.drop_last()),
        }
    }
}

/// The errors of the messages that are no heartbeats, in the order of the messages.
pub open spec fn bad_heartbeats_in(messages: Seq<MessageView>) -> Seq<raw::ErrorView>
    decreases messages.len(),
{
    if messages.len() == 0 {
        Seq::empty()
    } else {
        match HeartbeatView::of_message(messages.last().data, messages.last().datetime) {
            Ok(_) => bad_heartbeats_in(messages.drop_last()),
            Err(e) => bad_heartbeats_in(messages.drop_last()).push(e),
        }
    }
}

/// The views of a list of errors.
pub open spec fn error_views(errors: Seq<raw::Error>) -> Seq<raw::ErrorView> {
    errors.map_values(|e: raw::Error| e@)
}

/// Reads every message as a heartbeat, and keeps the heartbeats and the errors apart.
pub fn read_heartbeats(messages: &Vec<Message>) -> (r: (Vec<Heartbeat>, Vec<raw::Error>))
    ensures
        r.0.deep_view() == heartbeats_in(messages.deep_view()),
        error_views(r.1@) == bad_heartbeats_in(messages.deep_view()),
{
    let mut heartbeats: Vec<Heartbeat> = Vec::new();
    let mut errors: Vec<raw::Error> = Vec::new();
    let ghost all = messages.deep_view();
    let mut i: usize = 0;
    assert(all.take(0) =~= Seq::<MessageView>::empty());
    assert(heartbeats.deep_view() =~= Seq::<HeartbeatView>::empty());
    assert(error_views(errors@) =~= Seq::<raw::ErrorView>::empty());
    while i < messages.len()
        invariant
            i <= messages.len(),
            all == messages.deep_view(),
            heartbeats.deep_view() == heartbeats_in(all.take(i as int)),
            error_views(errors@) == bad_heartbeats_in(all.take(i as int)),
        decreases messages.len() - i,
    {
        let ghost good = heartbeats.deep_view();
        let ghost bad = error_views(errors@);
        proof {
            assert(all.take(i + 1).drop_last() =~= all.take(i as int));
            assert(all.take(i + 1).last() == messages[i as int]@);
        }
        match Heartbeat::new(&messages[i]) {
            Ok(heartbeat) => {
                heartbeats.push(heartbeat);
                assert(heartbeats.deep_view() =~= good.push(heartbeat@));
            },
            Err(e) => {
                errors.push(e);
                assert(error_views(errors@) =~= bad.push(e@));
            },
        }
        i = i + 1;
    }
    assert(all.take(messages.len() as int) =~= all);
    (heartbeats, errors)
}

/// The heartbeats in the bursts of a site, from the oldest to the newest.
///
/// Messages that are no heartbeats are passed over.
pub fn heartbeats(bursts: Vec<Burst>) -> (r: Result<Vec<Heartbeat>, packet::Error>)
    ensures
        match messages_in(bursts.deep_view()) {
            Ok(messages) => r is Ok && r->Ok_0.deep_view() == heartbeats_in(messages),
            Err(e) => r is Err && r->Err_0@ == e,
        },
{
    let messages: Vec<Message> = reassemble(bursts)?;
    Ok(read_heartbeats(&messages).0)
}

/// The errors of the messages of a site that are no heartbeats, from the
/// oldest message to the newest.
pub fn bad_heartbeats(bursts: Vec<Burst>) -> (r: Result<Vec<raw::Error>, packet::Error>)
    ensures
        match messages_in(bursts.deep_view()) {
            Ok(messages) => r is Ok && error_views(r->Ok_0@) == bad_heartbeats_in(messages),
            Err(e) => r is Err && r->Err_0@ == e,
        },
{
    let messages: Vec<Message> = reassemble(bursts)?;
    Ok(read_heartbeats(&messages).1)
}

/// The newest heartbeat in the bursts of a site.
///
/// If there are any errors or there are no heartbeats, returns None.
pub fn latest_heartbeat(bursts: Vec<Burst>) -> (r: Option<Heartbeat>)
    ensures
        match messages_in(bursts.deep_view()) {
            Ok(messages) => if heartbeats_in(messages).len() > 0 {
                r is Some && r->0@ == heartbeats_in(messages).last()
            } else {
                r is None
            },
            Err(_) => r is None,
        },
{
    match heartbeats(bursts) {
        Ok(list) => {
            let mut list = list;
            let ghost all = list.deep_view();
            let last: Option<Heartbeat> = list.pop();
            proof {
                if all.len() > 0 {
                    assert(last->0@ == all.last());
                }
            }
            last
        },
        Err(_) => None,
    }
}

} // verus!
