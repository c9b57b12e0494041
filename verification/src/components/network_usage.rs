//! A component that shows how much data passes a network interface.

use vstd::prelude::*;
use std::time::Duration;
use crate::error::Error;

verus! {

/// Whether sizes are counted in powers of 1024 or of 1000.
#[derive(Clone, Copy, Debug, PartialEq, Eq, Structural)]
pub enum Scale {
    Binary,
    Decimal,
}

impl Scale {
    /// The number of units that make up the next larger unit.
    pub fn base(&self) -> (b: u16)
        ensures
            b == (match *self {
                Scale::Decimal => 1000u16,
                Scale::Binary => 1024u16,
            }),
    {
        match *self {
            Scale::Decimal => 1000,
            Scale::Binary => 1024,
        }
    }
}

/// The direction of the traffic that is counted.
#[derive(Clone, Copy, Debug, PartialEq, Eq, Structural)]
pub enum Direction {
    Incoming,
    Outgoing,
}

/// The configuration of the network usage component.
pub struct NetworkUsage {
    /// The name of the interface to watch.
    pub interface: String,
    /// Which traffic to count.
    pub direction: Direction,
    /// In which units to show it.
    pub scale: Scale,
    /// How many digits to show.
    pub percision: u8,
    /// The time between two refreshes.
    pub refresh_frequency: Duration,
    /// The time over which the traffic is counted for one refresh.
    pub sample_duration: Duration,
}

/// `Duration::from_secs` of std: a duration of that many seconds. Nothing is
/// stated of the result, which is opaque here.
pub assume_specification[ Duration::from_secs ](secs: u64) -> (d: Duration)
;

impl Default for NetworkUsage {
    /// Incoming traffic of `eth0` in binary units with three digits,
    /// refreshed every ten seconds from a sample of one second.
    fn default() -> (usage: NetworkUsage)
        ensures
            usage.interface@ == "eth0"@,
            usage.direction == Direction::Incoming,
            usage.scale == Scale::Binary,
            usage.percision == 3,
    {
        NetworkUsage {
            interface: "eth0".to_string(),
            direction: Direction::Incoming,
            scale: Scale::Binary,
            percision: 3,
            refresh_frequency: Duration::from_secs(10),
            sample_duration: Duration::from_secs(1),
        }
    }
}

/// The unit for a rate of `scale` raised to `power` bytes per second.
pub open spec fn prefix_of(scale: Scale, power: u8) -> Seq<char> {
    if power == 0 {
        "B/s"@
    } else {
        match scale {
            Scale::Decimal => if power == 1 {
                "kb/s"@
            } else if power == 2 {
                "Mb/s"@
            } else if power == 3 {
                "Gb/s"@
            } else if power == 4 {
                "Tb/s"@
            } else {
                "X/s"@
            },
            Scale::Binary => if power == 1 {
                "KiB/s"@
            } else if power == 2 {
                "MiB/s"@
            } else if power == 3 {
                "GiB/s"@
            } else if power == 4 {
                "TiB/s"@
            } else {
                "X/s"@
            },
        }
    }
}

/// The unit for a rate of `scale` raised to `power` bytes per second.
pub fn get_prefix(scale: Scale, power: u8) -> (prefix: &'static str)
    ensures
        prefix@ == prefix_of(scale, power),
{
    match (scale, power) {
        (Scale::Decimal, 0) | (Scale::Binary, 0) => "B/s",
        (Scale::Decimal, 1) => "kb/s",
        (Scale::Decimal, 2) => "Mb/s",
        (Scale::Decimal, 3) => "Gb/s",
        (Scale::Decimal, 4) => "Tb/s",
        (Scale::Binary, 1) => "KiB/s",
        (Scale::Binary, 2) => "MiB/s",
        (Scale::Binary, 3) => "GiB/s",
        (Scale::Binary, 4) => "TiB/s",
        _ => "X/s",
    }
}

/// The counters of one network interface.
pub struct DeviceStatus {
    /// The name of the interface.
    pub interface: String,
    /// The number of bytes received so far.
    pub receive_bytes: u64,
    /// The number of bytes sent so far.
    pub transmit_bytes: u64,
}

/// The counter of `device` for the traffic in direction `dir`.
pub open spec fn counted(device: DeviceStatus, dir: Direction) -> u64 {
    match dir {
        Direction::Incoming => device.receive_bytes,
        Direction::Outgoing => device.transmit_bytes,
    }
}

/// The number of bytes that passed `interface` in direction `dir` so far,
/// read from the counters of all interfaces: those of the first device of
/// that name, if there is one.
pub fn get_bytes(devices: &Vec<DeviceStatus>, interface: &String, dir: Direction) -> (r: Option<
    u64,
>)
    ensures
        r is None <==> forall|i: int|
            0 <= i < devices@.len() ==> (#[trigger] devices@[i]).interface@ != interface@,
        r is Some ==> exists|i: int|
            0 <= i < devices@.len() && (#[trigger] devices@[i]).interface@ == interface@ && r
                == Some(counted(devices@[i], dir)) && forall|j: int|
                0 <= j < i ==> (#[trigger] devices@[j]).interface@ != interface@,
{
    let mut i: usize = 0;
    while i < devices.len()
        invariant
            i <= devices@.len(),
            forall|j: int| 0 <= j < i ==> (#[trigger] devices@[j]).interface@ != interface@,
        decreases devices@.len() - i,
    {
        if devices[i].interface == *interface {
            return match dir {
                Direction::Incoming => Some(devices[i].receive_bytes),
                Direction::Outgoing => Some(devices[i].transmit_bytes),
            };
        }
        i += 1;
    }
    None
}

/// The rate in bytes per second, given the counter before and after a
/// sample of `sample_secs` seconds. There is none if the sample took no
/// whole second or the counter went backwards.
pub fn bytes_per_second(first: u64, second: u64, sample_secs: u64) -> (rate: Option<u64>)
    ensures
        rate is Some <==> sample_secs > 0 && first <= second,
        rate is Some ==> rate->Some_0 == (second - first) / sample_secs as int,
{
    if sample_secs == 0 || second < first {
        return None;
    }
    Some((second - first) / sample_secs)
}

impl NetworkUsage {
    /// Checks that the interface to watch is among `devices`.
    pub fn init(&mut self, devices: &Vec<DeviceStatus>) -> (r: Result<(), Error>)
        ensures
            *final(self) == *old(self),
            r is Ok <==> exists|i: int|
                0 <= i < devices@.len() && (#[trigger] devices@[i]).interface@ == old(self).interface@,
            r is Err ==> r == Err::<(), Error>(Error::NoSuchInterface),
    {
        match get_bytes(devices, &self.interface, self.direction) {
            Some(_) => Ok(()),
            None => Err(Error::NoSuchInterface),
        }
    }
}

} // verus!
