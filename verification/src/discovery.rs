//! The packets by which devices find one another.

use crate::address;
use crate::address::IpAddress;
use crate::devices::{DeviceInfo, DeviceView};
use crate::http::PROTOCOL;
use crate::identity::{Identity, IdentityView};
use crate::text;
use vstd::prelude::*;

verus! {

/// What a packet by which a device takes its leave is marked with.
pub const GOODBYE_PROTOCOL: &'static str = "file-sharer.v2.goodbye";

/// What a packet that asks who is there is marked with.
pub const PROBE_PROTOCOL: &'static str = "file-sharer.v2.probe";

/// The port that packets are sent to.
pub const DISCOVERY_PORT: u16 = 45891;

/// The port that files are sent to.
pub const TRANSFER_PORT: u16 = 45892;

/// How often a packet that must not get lost is sent.
pub const DISCOVERY_BURST_COUNT: u32 = 5;

/// The time between two of them, in milliseconds.
pub const DISCOVERY_BURST_INTERVAL_MS: u64 = 60;

/// The time between two beacons while devices turn up, in milliseconds.
pub const BEACON_INTERVAL_FAST_MS: u64 = 500;

/// The time between two beacons once none has turned up for long, in milliseconds.
pub const BEACON_INTERVAL_SLOW_MS: u64 = 5_000;

/// How long no device has to turn up before beacons get rare, in milliseconds.
pub const BEACON_BACKOFF_THRESHOLD_MS: u128 = 30_000;

/// A packet by which a device makes itself known.
pub struct Beacon {
    pub protocol: String,
    pub id: String,
    pub name: String,
    pub platform: String,
    pub port: u16,
    pub crypto_public_key: String,
}

/// A packet by which a device makes itself known, by its texts.
#[verifier::ext_equal]
pub struct BeaconView {
    pub protocol: Seq<char>,
    pub id: Seq<char>,
    pub name: Seq<char>,
    pub platform: Seq<char>,
    pub port: u16,
    pub crypto_public_key: Seq<char>,
}

impl View for Beacon {
    type V = BeaconView;

    open spec fn view(&self) -> BeaconView {
        BeaconView {
            protocol: self.protocol@,
            id: self.id@,
            name: self.name@,
            platform: self.platform@,
            port: self.port,
            crypto_public_key: self.crypto_public_key@,
        }
    }
}

/// A packet by which a device takes its leave.
pub struct Goodbye {
    pub protocol: String,
    pub id: String,
}

/// A packet that asks who is there.
pub struct Probe {
    pub protocol: String,
}

/// The beacon of a device.
pub open spec fn beacon_of(identity: IdentityView) -> BeaconView {
    BeaconView {
        protocol: PROTOCOL@,
        id: identity.id,
        name: identity.name,
        platform: identity.platform,
        port: identity.port,
        crypto_public_key: identity.crypto_public_key,
    }
}

impl Beacon {
    /// The beacon of a device.
    pub fn of(identity: &Identity) -> (beacon: Beacon)
        ensures
            beacon@ == beacon_of(identity@),
    {
        Beacon {
            protocol: PROTOCOL.to_string(),
            id: identity.id.clone(),
            name: identity.name.clone(),
            platform: identity.platform.clone(),
            port: identity.port,
            crypto_public_key: identity.crypto_public_key.clone(),
        }
    }
}

impl Goodbye {
    /// The leave of a device.
    pub fn of(identity: &Identity) -> (goodbye: Goodbye)
        ensures
            goodbye.protocol@ == GOODBYE_PROTOCOL@,
            goodbye.id@ == identity@.id,
    {
        Goodbye { protocol: GOODBYE_PROTOCOL.to_string(), id: identity.id.clone() }
    }
}

impl Probe {
    /// The question who is there.
    pub fn new() -> (probe: Probe)
        ensures
            probe.protocol@ == PROBE_PROTOCOL@,
    {
        Probe { protocol: PROBE_PROTOCOL.to_string() }
    }
}

/// The device that a beacon from an address tells of.
pub open spec fn device_of(beacon: BeaconView, source: Seq<char>, now_ms: u128) -> DeviceView {
    DeviceView {
        id: beacon.id,
        name: beacon.name,
        platform: beacon.platform,
        address: source,
        port: beacon.port,
        last_seen_ms: now_ms,
        crypto_public_key: beacon.crypto_public_key,
    }
}

/// What a packet means to the device that gets it.
pub enum Packet {
    /// Nothing.
    Ignored,
    /// It is asked who is there.
    Probed,
    /// The device with the id takes its leave.
    Left(String),
    /// Another device makes itself known.
    Seen(Beacon),
}

/// What a packet means, by its texts.
pub enum PacketView {
    Ignored,
    Probed,
    Left(Seq<char>),
    Seen(BeaconView),
}

impl View for Packet {
    type V = PacketView;

    open spec fn view(&self) -> PacketView {
        match self {
            Packet::Ignored => PacketView::Ignored,
            Packet::Probed => PacketView::Probed,
            Packet::Left(id) => PacketView::Left(id@),
            Packet::Seen(beacon) => PacketView::Seen(beacon@),
        }
    }
}

/// What a packet from an address means to a device with an id, where it can be read as a probe, a
/// leave or a beacon: each counts if it is marked as what it is read as, the probe before the
/// leave before the beacon. Packets from outside of the local network and a device's own leave
/// and beacons mean nothing.
pub open spec fn meaning(
    source: IpAddress,
    probe: Option<Probe>,
    goodbye: Option<Goodbye>,
    beacon: Option<Beacon>,
    own_id: Seq<char>,
) -> PacketView {
    if !address::lan(source) {
        PacketView::Ignored
    } else if probe is Some && probe->0.protocol@ == PROBE_PROTOCOL@ {
        PacketView::Probed
    } else if goodbye is Some && goodbye->0.protocol@ == GOODBYE_PROTOCOL@ {
        if goodbye->0.id@ == own_id {
            PacketView::Ignored
        } else {
            PacketView::Left(goodbye->0.id@)
        }
    } else if beacon is Some && beacon->0.protocol@ == PROTOCOL@ && beacon->0.id@ != own_id {
        PacketView::Seen(beacon->0@)
    } else {
        PacketView::Ignored
    }
}

/// What a packet from an address means to a device with an id.
pub fn read_packet(
    source: &IpAddress,
    probe: Option<Probe>,
    goodbye: Option<Goodbye>,
    beacon: Option<Beacon>,
    own_id: &str,
) -> (packet: Packet)
    ensures
        packet@ == meaning(*source, probe, goodbye, beacon, own_id@),
{
    if !address::is_lan_ip(source) {
        return Packet::Ignored;
    }
    if let Some(asked) = probe {
        if text::same_text(asked.protocol.as_str(), PROBE_PROTOCOL) {
            return Packet::Probed;
        }
    }
    if let Some(left) = goodbye {
        if text::same_text(left.protocol.as_str(), GOODBYE_PROTOCOL) {
            if text::same_text(left.id.as_str(), own_id) {
                return Packet::Ignored;
            }
            return Packet::Left(left.id);
        }
    }
    match beacon {
        Some(seen) => {
            if text::same_text(seen.protocol.as_str(), PROTOCOL) && !text::same_text(
                seen.id.as_str(),
                own_id,
            ) {
                Packet::Seen(seen)
            } else {
                Packet::Ignored
            }
        },
        None => Packet::Ignored,
    }
}

/// The device that a beacon from an address tells of.
pub fn seen_device(beacon: Beacon, source: &str, now_ms: u128) -> (device: DeviceInfo)
    ensures
        device@ == device_of(beacon@, source@, now_ms),
{
    DeviceInfo {
        id: beacon.id,
        name: beacon.name,
        platform: beacon.platform,
        address: source.to_string(),
        port: beacon.port,
        last_seen_ms: now_ms,
        crypto_public_key: beacon.crypto_public_key,
    }
}

/// Whether a connection is accepted: not from outside of the local network, as far as the address
/// is known.
pub fn accepts_connection(peer: Option<IpAddress>) -> (yes: bool)
    ensures
        yes == (peer is None || address::lan(peer->0)),
{
    match peer {
        Some(source) => address::is_lan_ip(&source),
        None => true,
    }
}

/// The time until the next beacon, in milliseconds, for a device that makes itself known or not,
/// at a time after a new device has turned up at another.
pub open spec fn beacon_wait(enabled: bool, last_new_device_ms: u128, now_ms: u128) -> u64 {
    if enabled && now_ms - last_new_device_ms > BEACON_BACKOFF_THRESHOLD_MS {
        BEACON_INTERVAL_SLOW_MS
    } else {
        BEACON_INTERVAL_FAST_MS
    }
}

/// A device that hears another's beacon learns of it what the other made known; its own beacon
/// means nothing to it.
pub proof fn law_beacon_makes_a_device_known(
    source: IpAddress,
    beacon: Beacon,
    sender: IdentityView,
    own_id: Seq<char>,
)
    requires
        address::lan(source),
        beacon@ == beacon_of(sender),
    ensures
        meaning(source, None, None, Some(beacon), own_id) == (if sender.id == own_id {
            PacketView::Ignored
        } else {
            PacketView::Seen(beacon_of(sender))
        }),
{
}

/// A beacon that can also be read as a probe and as a leave, which ask for some of what it says,
/// still counts as a beacon, for it is marked as neither.
pub proof fn law_beacon_is_no_other_packet(
    source: IpAddress,
    probe: Probe,
    goodbye: Goodbye,
    beacon: Beacon,
    own_id: Seq<char>,
)
    requires
        beacon@.protocol == PROTOCOL@,
        probe.protocol@ == beacon@.protocol,
        goodbye.protocol@ == beacon@.protocol,
    ensures
        meaning(source, Some(probe), Some(goodbye), Some(beacon), own_id) == meaning(
            source,
            None,
            None,
            Some(beacon),
            own_id,
        ),
{
    reveal_strlit("file-sharer.v2");
    reveal_strlit("file-sharer.v2.goodbye");
    reveal_strlit("file-sharer.v2.probe");
    assert(PROTOCOL@.len() == 14);
    assert(GOODBYE_PROTOCOL@.len() == 22);
    assert(PROBE_PROTOCOL@.len() == 20);
}

/// What is said of a beacon is what stands in its fields.
pub proof fn law_beacon_is_read_as_it_is(beacon: Beacon)
    ensures
        beacon@.protocol == beacon.protocol@,
        beacon@.id == beacon.id@,
        beacon@.name == beacon.name@,
        beacon@.platform == beacon.platform@,
        beacon@.port == beacon.port,
        beacon@.crypto_public_key == beacon.crypto_public_key@,
{
}

/// A device's beacon makes known who it is, each thing under its own name.
pub proof fn law_beacon_tells_who_is_there(identity: IdentityView)
    ensures
        beacon_of(identity).protocol == "file-sharer.v2"@,
        beacon_of(identity).id == identity.id,
        beacon_of(identity).name == identity.name,
        beacon_of(identity).platform == identity.platform,
        beacon_of(identity).port == identity.port,
        beacon_of(identity).crypto_public_key == identity.crypto_public_key,
{
}

/// A device that is heard has what its beacon says, each thing under its own name, and the address
/// and the time at which it was heard.
pub proof fn law_heard_device_is_what_its_beacon_says(
    beacon: BeaconView,
    source: Seq<char>,
    now_ms: u128,
)
    ensures
        device_of(beacon, source, now_ms).id == beacon.id,
        device_of(beacon, source, now_ms).name == beacon.name,
        device_of(beacon, source, now_ms).platform == beacon.platform,
        device_of(beacon, source, now_ms).address == source,
        device_of(beacon, source, now_ms).port == beacon.port,
        device_of(beacon, source, now_ms).last_seen_ms == now_ms,
        device_of(beacon, source, now_ms).crypto_public_key == beacon.crypto_public_key,
{
}

/// From outside of the local network nothing means anything. From inside, a probe is a question; a
/// leave that is no probe is the leave of another device; and a beacon that is neither makes another
/// device known. The own leave and the own beacon mean nothing, and neither does what is marked
/// otherwise.
pub proof fn law_packets_mean_what_they_are_marked_as(
    source: IpAddress,
    probe: Option<Probe>,
    goodbye: Option<Goodbye>,
    beacon: Option<Beacon>,
    own_id: Seq<char>,
)
    ensures
        ({
            let packet = meaning(source, probe, goodbye, beacon, own_id);
            let probes = probe matches Some(asked) && asked.protocol@ == "file-sharer.v2.probe"@;
            let leaves = goodbye matches Some(left) && left.protocol@ == "file-sharer.v2.goodbye"@;
            let shows = beacon matches Some(seen) && seen.protocol@ == "file-sharer.v2"@;
            &&& !address::lan(source) ==> packet is Ignored
            &&& address::lan(source) && probes ==> packet is Probed
            &&& address::lan(source) && !probes && leaves ==> {
                let id = goodbye->0.id@;
                if id == own_id {
                    packet is Ignored
                } else {
                    packet == PacketView::Left(id)
                }
            }
            &&& address::lan(source) && !probes && !leaves && shows ==> {
                let seen = beacon->0@;
                if seen.id == own_id {
                    packet is Ignored
                } else {
                    packet == PacketView::Seen(seen)
                }
            }
            &&& !probes && !leaves && !shows ==> packet is Ignored
        }),
{
}

/// What is said of the meaning of a packet is what it holds.
pub proof fn law_packet_is_read_as_it_is(packet: Packet)
    ensures
        packet is Ignored ==> packet@ is Ignored,
        packet is Probed ==> packet@ is Probed,
        packet matches Packet::Left(id) ==> packet@ == PacketView::Left(id@),
        packet matches Packet::Seen(beacon) ==> packet@ == PacketView::Seen(beacon@),
{
}

/// Beacons follow one another after half a second, and after five seconds once a beacon was sent
/// and no new device has turned up for more than thirty seconds.
pub proof fn law_beacons_get_rare_after_half_a_minute(
    sent: bool,
    last_new_device_ms: u128,
    now_ms: u128,
)
    ensures
        sent && now_ms > last_new_device_ms + 30000 ==> beacon_wait(sent, last_new_device_ms, now_ms)
            == 5000,
        !sent || now_ms <= last_new_device_ms + 30000 ==> beacon_wait(
            sent,
            last_new_device_ms,
            now_ms,
        ) == 500,
{
}

} // verus!
