//! ATLAS heartbeats, which contain status information.
//!
//! Reading heartbeats is a two-step process. First, raw bytes are parsed into
//! a `raw::Heartbeat`, which maps onto the raw heartbeat data. A
//! `raw::Heartbeat` is then turned into a `Heartbeat`, which regularizes some
//! of the data and maps status codes onto enums.

pub mod raw;

use crate::atlas::heartbeat::raw::v03::{Binary32, K2};
use crate::atlas::heartbeat::raw::{v03, v04};
use crate::sutron::message::Message;
use vstd::prelude::*;

verus! {

/// What a battery is doing.
#[derive(Clone, Copy, Debug, PartialEq, Eq, Structural)]
pub enum BatteryStatus {
    /// Current flows neither in nor out.
    Idle,
    /// Current flows out of the battery.
    Discharge,
    /// Current flows into the battery.
    Charge,
}

impl BatteryStatus {
    /// The status that a status byte stands for: 1 for discharge, 2 for
    /// charge, and idle for 0 and every other byte.
    pub open spec fn of_byte(status: u8) -> BatteryStatus {
        if status == 1 {
            BatteryStatus::Discharge
        } else if status == 2 {
            BatteryStatus::Charge
        } else {
            BatteryStatus::Idle
        }
    }

    /// Reads a status byte.
    pub fn from_byte(status: u8) -> (s: BatteryStatus)
        ensures
            s == BatteryStatus::of_byte(status),
    {
        match status {
            1 => BatteryStatus::Discharge,
            2 => BatteryStatus::Charge,
            _ => BatteryStatus::Idle,
        }
    }
}

/// One of the eight conditions that the low byte of a battery's error codes
/// reports, each by one bit; a condition is known by the value of its bit.
#[derive(Clone, Copy, Debug, PartialEq, Eq, Structural)]
pub enum BatteryError {
    /// Bit 0, with the value 0x01.
    Code01,
    /// Bit 1, with the value 0x02.
    Code02,
    /// Bit 2, with the value 0x04.
    Code04,
    /// Bit 3, with the value 0x08.
    Code08,
    /// Bit 4, with the value 0x10.
    Code10,
    /// Bit 5, with the value 0x20.
    Code20,
    /// Bit 6, with the value 0x40.
    Code40,
    /// Bit 7, with the value 0x80.
    Code80,
}

impl BatteryError {
    /// The eight conditions, from the lowest bit up.
    pub open spec fn all() -> Seq<BatteryError> {
        seq![
            BatteryError::Code01,
            BatteryError::Code02,
            BatteryError::Code04,
            BatteryError::Code08,
            BatteryError::Code10,
            BatteryError::Code20,
            BatteryError::Code40,
            BatteryError::Code80,
        ]
    }

    /// The bit by which the condition is reported.
    pub open spec fn spec_mask(self) -> u16 {
        match self {
            BatteryError::Code01 => 0x01,
            BatteryError::Code02 => 0x02,
            BatteryError::Code04 => 0x04,
            BatteryError::Code08 => 0x08,
            BatteryError::Code10 => 0x10,
            BatteryError::Code20 => 0x20,
            BatteryError::Code40 => 0x40,
            BatteryError::Code80 => 0x80,
        }
    }

    /// The bit by which the condition is reported.
    #[verifier::when_used_as_spec(spec_mask)]
    pub fn mask(self) -> (mask: u16)
        ensures
            mask == self.spec_mask(),
    {
        match self {
            BatteryError::Code01 => 0x01,
            BatteryError::Code02 => 0x02,
            BatteryError::Code04 => 0x04,
            BatteryError::Code08 => 0x08,
            BatteryError::Code10 => 0x10,
            BatteryError::Code20 => 0x20,
            BatteryError::Code40 => 0x40,
            BatteryError::Code80 => 0x80,
        }
    }

    /// Whether the error codes report the condition.
    pub open spec fn is_set(self, codes: u16) -> bool {
        codes & self.spec_mask() != 0
    }

    /// The first `count` conditions that the error codes report, from the lowest bit up.
    pub open spec fn reported(codes: u16, count: nat) -> Seq<BatteryError>
        decreases count,
    {
        if count == 0 {
            Seq::empty()
        } else {
            let flag = BatteryError::all()[count - 1];
            if flag.is_set(codes) {
                BatteryError::reported(codes, (count - 1) as nat).push(flag)
            } else {
                BatteryError::reported(codes, (count - 1) as nat)
            }
        }
    }

    /// The conditions that the error codes report, from the lowest bit up.
    pub open spec fn decode(codes: u16) -> Seq<BatteryError> {
        BatteryError::reported(codes, 8)
    }

    /// Decodes the error codes of a battery into the conditions that they report.
    pub fn from_codes(codes: u16) -> (errors: Vec<BatteryError>)
        ensures
            errors@ == BatteryError::decode(codes),
    {
        let all: [BatteryError; 8] = [
            BatteryError::Code01,
            BatteryError::Code02,
            BatteryError::Code04,
            BatteryError::Code08,
            BatteryError::Code10,
            BatteryError::Code20,
            BatteryError::Code40,
            BatteryError::Code80,
        ];
        assert(all@ =~= BatteryError::all());
        let mut errors: Vec<BatteryError> = Vec::new();
        let mut i: usize = 0;
        while i < 8
            invariant
                i <= 8,
                all@ == BatteryError::all(),
                errors@ == BatteryError::reported(codes, i as nat),
            decreases 8 - i,
        {
            let flag: BatteryError = all[i];
            if codes & flag.mask() != 0 {
                errors.push(flag);
            }
            i = i + 1;
        }
        errors
    }
}

/// The number that is added to the temperature that a battery reports to
/// get degrees Celsius: none, the batteries report degrees Celsius.
pub const TEMPERATURE_OFFSET: i16 = 0;

/// Battery information.
#[derive(Debug, PartialEq, Eq)]
pub struct Battery {
    /// The current in or out of the battery [A].
    ///
    /// Current out is positive, current in is negative.
    pub current: Binary32,
    /// The battery state of charge [%].
    pub state_of_charge: u8,
    /// The battery temperature [C].
    pub temperature: i16,
    /// The battery voltage [V].
    pub voltage: Binary32,
    /// What the battery is doing.
    pub status: BatteryStatus,
    /// The conditions that the battery reports in its error codes, from the lowest bit up.
    pub errors: Vec<BatteryError>,
}

/// What a `Battery` holds.
pub struct BatteryView {
    pub current: Binary32,
    pub state_of_charge: u8,
    pub temperature: i16,
    pub voltage: Binary32,
    pub status: BatteryStatus,
    pub errors: Seq<BatteryError>,
}

impl View for Battery {
    type V = BatteryView;

    open spec fn view(&self) -> BatteryView {
        BatteryView {
            current: self.current,
            state_of_charge: self.state_of_charge,
            temperature: self.temperature,
            voltage: self.voltage,
            status: self.status,
            errors: self.errors@,
        }
    }
}

impl DeepView for Battery {
    type V = BatteryView;

    open spec fn deep_view(&self) -> BatteryView {
        self@
    }
}

impl BatteryView {
    /// The battery information in what a K2 battery sent.
    pub open spec fn of_k2(battery: K2) -> BatteryView {
        BatteryView {
            current: battery.current,
            state_of_charge: battery.state_of_charge,
            temperature: (battery.temperature + TEMPERATURE_OFFSET) as i16,
            voltage: battery.voltage,
            status: BatteryStatus::of_byte(battery.status),
            errors: BatteryError::decode(battery.error_codes),
        }
    }
}

impl Battery {
    /// Regularizes what a K2 battery sent.
    pub fn from_k2(battery: K2) -> (b: Battery)
        ensures
            b@ == BatteryView::of_k2(battery),
    {
        Battery {
            current: battery.current,
            state_of_charge: battery.state_of_charge,
            temperature: battery.temperature as i16 + TEMPERATURE_OFFSET,
            voltage: battery.voltage,
            status: BatteryStatus::from_byte(battery.status),
            errors: BatteryError::from_codes(battery.error_codes),
        }
    }
}

/// Wind information.
#[derive(Clone, Copy, Debug, PartialEq, Eq, Structural)]
pub struct Wind {
    /// The wind speed, in meters per second.
    pub speed: Binary32,
    /// The wind direction, in degrees.
    pub direction: Binary32,
}

impl Wind {
    /// The wind information in the wind data of a raw heartbeat, unchanged.
    pub open spec fn of_raw(wind: v03::Wind) -> Wind {
        Wind { speed: wind.speed, direction: wind.direction }
    }

    /// Copies the wind data of a raw heartbeat.
    pub fn from_raw(wind: v03::Wind) -> (w: Wind)
        ensures
            w == Wind::of_raw(wind),
    {
        Wind { speed: wind.speed, direction: wind.direction }
    }
}

/// Information about one EFOY fuel cell.
#[derive(Clone, Copy, Debug, PartialEq, Eq, Structural)]
pub struct Efoy {
    /// What every version of the heartbeat says about an EFOY.
    pub efoy: v03::Efoy,
    /// The active cartridge port, which heartbeats have from version 04 on.
    pub active_cartridge_port: Option<u8>,
}

impl Efoy {
    /// The information in an EFOY of a version 03 heartbeat.
    pub open spec fn of_v03(efoy: v03::Efoy) -> Efoy {
        Efoy { efoy, active_cartridge_port: None }
    }

    /// The information in an EFOY of a version 04 heartbeat.
    pub open spec fn of_v04(efoy: v04::Efoy) -> Efoy {
        Efoy { efoy: efoy.efoy, active_cartridge_port: Some(efoy.active_cartridge_port) }
    }
}

/// The values of the slots that are not empty, in order.
pub open spec fn present<T>(slots: Seq<Option<T>>) -> Seq<T>
    decreases slots.len(),
{
    if slots.len() == 0 {
        Seq::empty()
    } else if slots.last() is Some {
        present(slots.drop_last()).push(slots.last()->0)
    } else {
        present(slots.drop_last())
    }
}

/// The batteries of a raw heartbeat that responded, regularized; none where
/// the adapter could not be opened.
pub open spec fn batteries_of(batteries: Option<Seq<Option<K2>>>) -> Seq<BatteryView> {
    match batteries {
        Some(slots) => present(slots).map_values(|battery: K2| BatteryView::of_k2(battery)),
        None => Seq::empty(),
    }
}

/// The EFOYs of a raw heartbeat that responded.
pub open spec fn efoys_of(heartbeat: raw::HeartbeatView) -> Seq<Efoy> {
    match heartbeat {
        raw::HeartbeatView::V03 { efoys, .. } => present(efoys).map_values(
            |efoy: v03::Efoy| Efoy::of_v03(efoy),
        ),
        raw::HeartbeatView::V04 { efoys, .. } => present(efoys).map_values(
            |efoy: v04::Efoy| Efoy::of_v04(efoy),
        ),
    }
}

/// The wind information of a raw heartbeat.
pub open spec fn wind_of(wind: Option<v03::Wind>) -> Option<Wind> {
    match wind {
        Some(wind) => Some(Wind::of_raw(wind)),
        None => None,
    }
}

/// An ATLAS heartbeat.
///
/// Any version of raw heartbeat can be turned into this structure.
#[derive(Debug, PartialEq, Eq)]
pub struct Heartbeat {
    /// The time of the reception of the first heartbeat packet, in seconds
    /// since the Unix epoch.
    ///
    /// If this information was not provided in the source message, it will be None.
    pub datetime: Option<i64>,
    /// Battery information: one entry for each battery that responded.
    pub batteries: Vec<Battery>,
    /// EFOY information: one entry for each EFOY that responded.
    pub efoys: Vec<Efoy>,
    /// Wind information.
    pub wind: Option<Wind>,
    /// The source data.
    pub raw: raw::Heartbeat,
}

/// What a `Heartbeat` holds.
pub struct HeartbeatView {
    pub datetime: Option<i64>,
    pub batteries: Seq<BatteryView>,
    pub efoys: Seq<Efoy>,
    pub wind: Option<Wind>,
    pub raw: raw::HeartbeatView,
}

impl View for Heartbeat {
    type V = HeartbeatView;

    open spec fn view(&self) -> HeartbeatView {
        HeartbeatView {
            datetime: self.datetime,
            batteries: self.batteries.deep_view(),
            efoys: self.efoys@,
            wind: self.wind,
            raw: self.raw@,
        }
    }
}

impl DeepView for Heartbeat {
    type V = HeartbeatView;

    open spec fn deep_view(&self) -> HeartbeatView {
        self@
    }
}

impl HeartbeatView {
    /// The heartbeat that a raw heartbeat regularizes to; it has no time.
    pub open spec fn of_raw(heartbeat: raw::HeartbeatView) -> HeartbeatView {
        HeartbeatView {
            datetime: None,
            batteries: batteries_of(heartbeat.batteries()),
            efoys: efoys_of(heartbeat),
            wind: wind_of(heartbeat.wind()),
            raw: heartbeat,
        }
    }

    /// The heartbeat in the data of a message, with the time of the message.
    pub open spec fn of_message(data: Seq<u8>, datetime: Option<i64>) -> Result<
        HeartbeatView,
        raw::ErrorView,
    > {
        match raw::parse(data) {
            Ok(heartbeat) => Ok(HeartbeatView { datetime, ..HeartbeatView::of_raw(heartbeat) }),
            Err(e) => Err(e),
        }
    }
}

/// Regularizes the batteries that responded.
pub fn batteries_from(batteries: &v03::Batteries) -> (list: Vec<Battery>)
    ensures
        list.deep_view() == batteries_of(batteries@),
{
    let mut list: Vec<Battery> = Vec::new();
    match &batteries.0 {
        None => {
            assert(list.deep_view() =~= Seq::<BatteryView>::empty());
        },
        Some(slots) => {
            let ghost convert = |battery: K2| BatteryView::of_k2(battery);
            assert(slots@.take(0) =~= Seq::<Option<K2>>::empty());
            assert(list.deep_view() =~= present(slots@.take(0)).map_values(convert));
            let mut i: usize = 0;
            while i < 4
                invariant
                    i <= 4,
                    convert == |battery: K2| BatteryView::of_k2(battery),
                    list.deep_view() == present(slots@.take(i as int)).map_values(convert),
                decreases 4 - i,
            {
                let ghost before = list.deep_view();
                let ghost done = present(slots@.take(i as int));
                assert(slots@.take(i + 1).drop_last() =~= slots@.take(i as int));
                if let Some(battery) = slots[i] {
                    list.push(Battery::from_k2(battery));
                    assert(list.deep_view() =~= before.push(BatteryView::of_k2(battery)));
                    assert(done.push(battery).map_values(convert) =~= done.map_values(
                        convert,
                    ).push(convert(battery)));
                }
                i = i + 1;
            }
            assert(slots@.take(4) =~= slots@);
        },
    }
    list
}

/// Lists the version 03 EFOYs that responded.
pub fn efoys_from_v03(efoys: &v03::Efoys) -> (list: Vec<Efoy>)
    ensures
        list@ == present(efoys@).map_values(|efoy: v03::Efoy| Efoy::of_v03(efoy)),
{
    let mut list: Vec<Efoy> = Vec::new();
    let ghost convert = |efoy: v03::Efoy| Efoy::of_v03(efoy);
    assert(efoys@.take(0) =~= Seq::<Option<v03::Efoy>>::empty());
    assert(list@ =~= present(efoys@.take(0)).map_values(convert));
    let mut i: usize = 0;
    while i < 2
        invariant
            i <= 2,
            convert == |efoy: v03::Efoy| Efoy::of_v03(efoy),
            list@ == present(efoys@.take(i as int)).map_values(convert),
        decreases 2 - i,
    {
        let ghost done = present(efoys@.take(i as int));
        assert(efoys@.take(i + 1).drop_last() =~= efoys@.take(i as int));
        if let Some(efoy) = efoys.0[i] {
            list.push(Efoy { efoy, active_cartridge_port: None });
            assert(done.push(efoy).map_values(convert) =~= done.map_values(convert).push(
                convert(efoy),
            ));
        }
        i = i + 1;
    }
    assert(efoys@.take(2) =~= efoys@);
    list
}

/// Lists the version 04 EFOYs that responded.
pub fn efoys_from_v04(efoys: &v04::Efoys) -> (list: Vec<Efoy>)
    ensures
        list@ == present(efoys@).map_values(|efoy: v04::Efoy| Efoy::of_v04(efoy)),
{
    let mut list: Vec<Efoy> = Vec::new();
    let ghost convert = |efoy: v04::Efoy| Efoy::of_v04(efoy);
    assert(efoys@.take(0) =~= Seq::<Option<v04::Efoy>>::empty());
    assert(list@ =~= present(efoys@.take(0)).map_values(convert));
    let mut i: usize = 0;
    while i < 2
        invariant
            i <= 2,
            convert == |efoy: v04::Efoy| Efoy::of_v04(efoy),
            list@ == present(efoys@.take(i as int)).map_values(convert),
        decreases 2 - i,
    {
        let ghost done = present(efoys@.take(i as int));
        assert(efoys@.take(i + 1).drop_last() =~= efoys@.take(i as int));
        if let Some(efoy) = efoys.0[i] {
            list.push(
                Efoy { efoy: efoy.efoy, active_cartridge_port: Some(efoy.active_cartridge_port) },
            );
            assert(done.push(efoy).map_values(convert) =~= done.map_values(convert).push(
                convert(efoy),
            ));
        }
        i = i + 1;
    }
    assert(efoys@.take(2) =~= efoys@);
    list
}

impl Heartbeat {
    /// Regularizes a raw heartbeat, and keeps it.
    pub fn from_raw(heartbeat: raw::Heartbeat) -> (h: Heartbeat)
        ensures
            h@ == HeartbeatView::of_raw(heartbeat@),
    {
        let (batteries, efoys, wind) = match &heartbeat {
            raw::Heartbeat::V03 { batteries, efoys, wind, .. } => (
                batteries_from(batteries),
                efoys_from_v03(efoys),
                *wind,
            ),
            raw::Heartbeat::V04 { batteries, efoys, wind, .. } => (
                batteries_from(batteries),
                efoys_from_v04(efoys),
                *wind,
            ),
        };
        let wind: Option<Wind> = match wind {
            Some(wind) => Some(Wind::from_raw(wind)),
            None => None,
        };
        Heartbeat { datetime: None, batteries, efoys, wind, raw: heartbeat }
    }

    /// Creates a heartbeat from a Sutron message.
    pub fn new(message: &Message) -> (r: Result<Heartbeat, raw::Error>)
        ensures
            match HeartbeatView::of_message(message@.data, message@.datetime) {
                Ok(heartbeat) => r is Ok && r->Ok_0@ == heartbeat,
                Err(e) => r is Err && r->Err_0@ == e,
            },
    {
        let raw: raw::Heartbeat = raw::Heartbeat::new(message.data.as_slice())?;
        let mut heartbeat = Heartbeat::from_raw(raw);
        heartbeat.datetime = message.datetime;
        Ok(heartbeat)
    }
}

/// Regularizes what a K2 battery sent.
impl From<K2> for Battery {
    fn from(battery: K2) -> (b: Battery)
        ensures
            b@ == BatteryView::of_k2(battery),
    {
        Battery::from_k2(battery)
    }
}

/// The conversion is stated by the `ensures` of `from`, over views: a value
/// that holds a `Vec` cannot be written down in ghost code.
impl vstd::std_specs::convert::FromSpecImpl<K2> for Battery {
    open spec fn obeys_from_spec() -> bool {
        false
    }

    open spec fn from_spec(battery: K2) -> Battery {
        arbitrary()
    }
}

/// Regularizes the batteries that responded.
impl From<v03::Batteries> for Vec<Battery> {
    fn from(batteries: v03::Batteries) -> (list: Vec<Battery>)
        ensures
            list.deep_view() == batteries_of(batteries@),
    {
        batteries_from(&batteries)
    }
}

/// The conversion is stated by the `ensures` of `from`, over views: a value
/// that holds a `Vec` cannot be written down in ghost code.
impl vstd::std_specs::convert::FromSpecImpl<v03::Batteries> for Vec<Battery> {
    open spec fn obeys_from_spec() -> bool {
        false
    }

    open spec fn from_spec(batteries: v03::Batteries) -> Vec<Battery> {
        arbitrary()
    }
}

/// Copies the wind data of a raw heartbeat.
impl From<v03::Wind> for Wind {
    fn from(wind: v03::Wind) -> (w: Wind) {
        Wind::from_raw(wind)
    }
}

impl vstd::std_specs::convert::FromSpecImpl<v03::Wind> for Wind {
    open spec fn obeys_from_spec() -> bool {
        true
    }

    open spec fn from_spec(wind: v03::Wind) -> Wind {
        Wind::of_raw(wind)
    }
}

/// Regularizes a raw heartbeat, and keeps it.
impl From<raw::Heartbeat> for Heartbeat {
    fn from(heartbeat: raw::Heartbeat) -> (h: Heartbeat)
        ensures
            h@ == HeartbeatView::of_raw(heartbeat@),
    {
        Heartbeat::from_raw(heartbeat)
    }
}

/// The conversion is stated by the `ensures` of `from`, over views: a value
/// that holds a `Vec` cannot be written down in ghost code.
impl vstd::std_specs::convert::FromSpecImpl<raw::Heartbeat> for Heartbeat {
    open spec fn obeys_from_spec() -> bool {
        false
    }

    open spec fn from_spec(heartbeat: raw::Heartbeat) -> Heartbeat {
        arbitrary()
    }
}

} // verus!
