//! A device on the network: what it knows, and what it does about what happens.

use crate::address;
use crate::address::IpAddress;
use crate::batch;
use crate::batch::{Batch, BatchAction, BatchActionView};
use crate::crypto;
use crate::crypto::KeyPair;
use crate::devices;
use crate::devices::{DeviceInfo, DeviceTable, DeviceView};
use crate::digits;
use crate::discovery;
use crate::discovery::{
    Beacon, BeaconView, Goodbye, Packet, PacketView, Probe, BEACON_BACKOFF_THRESHOLD_MS,
    BEACON_INTERVAL_FAST_MS, BEACON_INTERVAL_SLOW_MS, TRANSFER_PORT,
};
use crate::history;
use crate::history::{EventView, TransferDirection, TransferEvent, TransferHistory};
use crate::http;
use crate::identity;
use crate::identity::{Identity, IdentityView};
use crate::incoming;
use crate::incoming::{Incoming, IncomingAction, IncomingActionView, IncomingEvent, IncomingView};
use crate::names;
use crate::outgoing;
use crate::outgoing::{
    Outgoing, OutgoingAction, OutgoingActionView, OutgoingEvent, OutgoingView,
};
use crate::sending;
use crate::sending::SendError;
use crate::text;
use crate::transfer;
use crate::transfer::{ProgressView, TransferPhase, TransferProgress, CANCELLED};
use vstd::hash_map::StringHashMap;
use vstd::hash_set::StringHashSet;
use vstd::prelude::*;

verus! {

/// What a device knows.
#[verifier::ext_equal]
pub struct ServiceView {
    pub identity: IdentityView,
    pub keys: KeyPair,
    /// The devices that have been seen, by their ids.
    pub devices: Map<Seq<char>, DeviceView>,
    /// The transfers that are remembered, the oldest first.
    pub history: Seq<EventView>,
    /// The ids of the transfers that were cancelled.
    pub cancelled: Set<Seq<char>>,
    /// When a transfer was last measured, and how far it had come then.
    pub samples: Map<Seq<char>, (u128, u64)>,
    /// Whether the device makes itself known.
    pub discovery_enabled: bool,
    /// When a device has last turned up that was not known.
    pub last_new_device_ms: u128,
}

/// A device on the network.
pub struct NetworkService {
    identity: Identity,
    key_pair: KeyPair,
    devices: DeviceTable,
    history: TransferHistory,
    cancelled: StringHashSet,
    samples: StringHashMap<(u128, u64)>,
    discovery_enabled: bool,
    last_new_device_ms: u128,
}

impl View for NetworkService {
    type V = ServiceView;

    closed spec fn view(&self) -> ServiceView {
        ServiceView {
            identity: self.identity@,
            keys: self.key_pair,
            devices: self.devices@,
            history: self.history@,
            cancelled: self.cancelled@,
            samples: self.samples@,
            discovery_enabled: self.discovery_enabled,
            last_new_device_ms: self.last_new_device_ms,
        }
    }
}

/// The devices that are there, and the ids of those that are not any more.
pub struct DeviceList {
    pub devices: Vec<DeviceInfo>,
    pub lost: Vec<String>,
}

/// Whether a list of devices is what a device knows of others at a time: those that are there, in
/// the order of their names, and the ids of those that are not any more.
pub open spec fn is_list_of(
    list: DeviceList,
    known: Map<Seq<char>, DeviceView>,
    now_ms: u128,
) -> bool {
    let views = devices::device_views(list.devices@);
    &&& devices::in_name_order(views)
    &&& devices::distinct_ids(views)
    &&& devices::by_id(views) == devices::live_devices(known, now_ms)
    &&& lists_lost(list.lost@, known, now_ms)
}

/// Whether a list names the devices that are not there any more.
pub open spec fn lists_lost(
    lost: Seq<String>,
    known: Map<Seq<char>, DeviceView>,
    now_ms: u128,
) -> bool {
    devices::lists(
        text::texts(lost),
        known.dom().difference(devices::live_ids(known, now_ms)),
    )
}

/// What is sent after a device has been told to make itself known or not to.
#[derive(Clone, Copy, PartialEq, Eq, Structural)]
pub enum Announcement {
    Beacon,
    Goodbye,
    Nothing,
}

/// What is sent after a device has been told to make itself known or not to: its beacon, or its
/// leave if it was known before.
pub open spec fn announcement(was_enabled: bool, enabled: bool) -> Announcement {
    if enabled {
        Announcement::Beacon
    } else if was_enabled {
        Announcement::Goodbye
    } else {
        Announcement::Nothing
    }
}

/// What comes of asking who is there: the ids of the devices that were known, which are forgotten,
/// and whether a beacon is sent before the probe.
pub struct Probing {
    pub lost: Vec<String>,
    pub beacon: bool,
}

/// The device that files are sent to, or why there is none, and the ids of the devices that turned
/// out not to be there any more.
pub struct SendTarget {
    pub target: Result<DeviceInfo, SendError>,
    pub lost: Vec<String>,
}

/// What comes of a packet: a device that was not known, the id of one that has left, and whether
/// the sender is answered with a beacon.
pub struct PacketOutcome {
    pub discovered: Option<DeviceInfo>,
    pub lost: Option<String>,
    pub reply: bool,
}

/// How far a transfer has come since it was last measured.
#[derive(Clone, Copy)]
pub struct Measurement {
    pub elapsed_ms: u128,
    pub bytes: u64,
}

/// What a device knows after a packet that means something came from an address at a time.
pub open spec fn after_packet(
    known: ServiceView,
    packet: PacketView,
    source: Seq<char>,
    now_ms: u128,
) -> ServiceView {
    match packet {
        PacketView::Ignored => known,
        PacketView::Probed => known,
        PacketView::Left(id) => ServiceView { devices: known.devices.remove(id), ..known },
        PacketView::Seen(beacon) => ServiceView {
            devices: known.devices.insert(
                beacon.id,
                discovery::device_of(beacon, source, now_ms),
            ),
            last_new_device_ms: if known.devices.contains_key(beacon.id) {
                known.last_new_device_ms
            } else {
                now_ms
            },
            ..known
        },
    }
}

/// Whether this is what comes of a packet that means something: the device of a beacon is
/// discovered if it was not known, the device that leaves is lost if it was, and probes and
/// beacons are answered by a device that makes itself known.
pub open spec fn comes_of_packet(
    outcome: PacketOutcome,
    known: ServiceView,
    packet: PacketView,
    source: Seq<char>,
    now_ms: u128,
) -> bool {
    match packet {
        PacketView::Ignored => outcome.discovered is None && outcome.lost is None && !outcome.reply,
        PacketView::Probed => outcome.discovered is None && outcome.lost is None && outcome.reply
            == known.discovery_enabled,
        PacketView::Left(id) => outcome.discovered is None && !outcome.reply && (
        if known.devices.contains_key(id) {
            outcome.lost matches Some(lost) && lost@ == id
        } else {
            outcome.lost is None
        }),
        PacketView::Seen(beacon) => outcome.lost is None && outcome.reply == known.discovery_enabled
            && (if known.devices.contains_key(beacon.id) {
            outcome.discovered is None
        } else {
            outcome.discovered matches Some(device) && device@ == discovery::device_of(
                beacon,
                source,
                now_ms,
            )
        }),
    }
}

/// Whether a transfer is one that was cancelled, where it matters: before a part of the file is
/// read.
pub open spec fn sending_cancelled(known: ServiceView, outgoing: OutgoingView) -> bool {
    match outgoing {
        OutgoingView::Reopening(file) => known.cancelled.contains(file.transfer_id),
        OutgoingView::Scanning(scan) => known.cancelled.contains(scan.sending.transfer_id),
        OutgoingView::Greeting(file) => known.cancelled.contains(file.transfer_id),
        OutgoingView::Writing(file) => known.cancelled.contains(file.transfer_id),
        _ => false,
    }
}

/// Whether a transfer is one that was cancelled, where it matters: before a part of the content is
/// read.
pub open spec fn receiving_cancelled(known: ServiceView, incoming: IncomingView) -> bool {
    match incoming {
        IncomingView::Creating(file) => known.cancelled.contains(file.request.transfer_id),
        IncomingView::Writing(file) => known.cancelled.contains(file.request.transfer_id),
        _ => false,
    }
}

/// How far a transfer has come since it was last measured, if that was more than a tenth of a
/// second ago and bytes have been moved since.
pub open spec fn measured(known: ServiceView, progress: ProgressView, now_ms: u128) -> Option<
    Measurement,
> {
    if progress.phase == TransferPhase::Progress && known.samples.contains_key(
        progress.transfer_id,
    ) {
        let last = known.samples[progress.transfer_id];
        if now_ms - last.0 > 100 && progress.bytes_transferred > last.1 {
            Some(
                Measurement {
                    elapsed_ms: (now_ms - last.0) as u128,
                    bytes: (progress.bytes_transferred - last.1) as u64,
                },
            )
        } else {
            None
        }
    } else {
        None
    }
}

/// What a device knows of its measurements after a transfer has come somewhere: a transfer that
/// starts or is measured is noted down, and one that ends is struck out.
pub open spec fn after_progress(known: ServiceView, progress: ProgressView, now_ms: u128) -> Map<
    Seq<char>,
    (u128, u64),
> {
    let noted = known.samples.insert(progress.transfer_id, (now_ms, progress.bytes_transferred));
    match progress.phase {
        TransferPhase::Started => noted,
        TransferPhase::Progress => if measured(known, progress, now_ms) is Some {
            noted
        } else {
            known.samples
        },
        TransferPhase::Finished => known.samples.remove(progress.transfer_id),
        TransferPhase::Failed => known.samples.remove(progress.transfer_id),
    }
}

impl NetworkService {
    /// The device has a clean name and an id, listens where files are sent to, and makes the
    /// public key known that belongs to its private one; every device it has seen is noted once,
    /// and no more transfers are remembered than may be.
    pub closed spec fn wf(&self) -> bool {
        &&& is_sound(self@)
        &&& self.devices.wf()
        &&& self.history.wf()
    }

    /// A device whose keys are made of random bytes, if there are any, and whose name and id come
    /// from the environment. It knows no others, and makes itself known.
    pub fn new(
        computer: Option<String>,
        host: Option<String>,
        user: Option<String>,
        username: Option<String>,
        os: &str,
        random: Result<[u8; 16], String>,
        now_ms: u128,
    ) -> (service: Result<NetworkService, String>)
        ensures
            match random {
                Err(error) => service == Err::<NetworkService, String>(error),
                Ok(content) => service matches Ok(made) && made.wf() && made@.keys.private()
                    == crypto::private_of(content@) && ({
                    let owner = identity::first_of(user, username);
                    let name = identity::default_name(
                        identity::first_of(computer, identity::first_of(host, owner)),
                        os@,
                    );
                    made@ == ServiceView {
                        identity: IdentityView {
                            id: identity::device_id(name, os@, owner),
                            name,
                            platform: os@,
                            port: TRANSFER_PORT,
                            crypto_public_key: made@.keys.header(),
                        },
                        keys: made@.keys,
                        devices: Map::empty(),
                        history: Seq::empty(),
                        cancelled: Set::empty(),
                        samples: Map::empty(),
                        discovery_enabled: true,
                        last_new_device_ms: now_ms,
                    }
                }),
            },
    {
        let key_pair = match KeyPair::generate(random) {
            Ok(made) => made,
            Err(error) => return Err(error),
        };
        proof {
            let owner = identity::first_of(user, username);
            let named = identity::first_of(computer, identity::first_of(host, owner));
            identity::law_default_name_is_clean(named, os@);
            let name = identity::default_name(named, os@);
            let who = match owner {
                Some(known) => known@,
                None => ""@,
            };
            identity::law_ids_are_hexadecimal(
                identity::text_writes(name) + identity::text_writes(os@) + identity::text_writes(
                    who,
                ),
            );
        }
        let name = identity::device_name(computer, host, user.clone(), username.clone(), os);
        let id = identity::stable_device_id(name.as_str(), os, user, username);
        let crypto_public_key = key_pair.public_header();
        Ok(
            NetworkService {
                identity: Identity {
                    id,
                    name,
                    platform: os.to_string(),
                    port: TRANSFER_PORT,
                    crypto_public_key,
                },
                key_pair,
                devices: DeviceTable::new(),
                history: TransferHistory::new(),
                cancelled: StringHashSet::new(),
                samples: StringHashMap::new(),
                discovery_enabled: true,
                last_new_device_ms: now_ms,
            },
        )
    }

    /// What the device makes known of itself.
    pub fn identity(&self) -> (identity: Identity)
        ensures
            identity@ == self@.identity,
    {
        self.identity.clone()
    }

    /// Gives the device a name, unless nothing of it is left once it has been sanitized.
    pub fn set_device_name(&mut self, name: String) -> (identity: Result<Identity, String>)
        requires
            old(self).wf(),
        ensures
            final(self).wf(),
            if names::clean_device_name(name@).len() == 0 {
                &&& final(self)@ == old(self)@
                &&& identity matches Err(error) && error@ == "设备名称不能为空"@
            } else {
                &&& final(self)@ == (ServiceView {
                    identity: IdentityView {
                        name: names::clean_device_name(name@),
                        ..old(self)@.identity
                    },
                    ..old(self)@
                })
                &&& identity matches Ok(renamed) && renamed@ == final(self)@.identity
            },
    {
        let clean = names::sanitize_device_name(name.as_str());
        if text::chars_of(clean.as_str()).len() == 0 {
            return Err("设备名称不能为空".to_string());
        }
        proof {
            names::law_device_name_is_clean(name@);
        }
        self.identity.name = clean;
        Ok(self.identity.clone())
    }

    /// Forgets the devices that are not there any more, and lists those that are.
    pub fn devices(&mut self, now_ms: u128) -> (list: DeviceList)
        requires
            old(self).wf(),
        ensures
            final(self).wf(),
            final(self)@ == (ServiceView {
                devices: devices::live_devices(old(self)@.devices, now_ms),
                ..old(self)@
            }),
            is_list_of(list, old(self)@.devices, now_ms),
    {
        let lost = self.devices.expire(now_ms);
        let devices = self.devices.sorted();
        DeviceList { devices, lost }
    }

    /// The transfers that are remembered, the newest first.
    pub fn transfer_history(&self) -> (list: Vec<TransferEvent>)
        ensures
            history::event_views(list@) == self@.history.reverse(),
    {
        self.history.newest_first()
    }

    /// The transfers that are remembered, the oldest first, as they are saved.
    pub fn saved_history(&self) -> (list: Vec<TransferEvent>)
        ensures
            history::event_views(list@) == self@.history,
    {
        self.history.events()
    }

    /// Forgets all transfers.
    pub fn clear_transfer_history(&mut self)
        requires
            old(self).wf(),
        ensures
            final(self).wf(),
            final(self)@ == (ServiceView { history: Seq::empty(), ..old(self)@ }),
    {
        self.history.clear();
    }

    /// Remembers a transfer.
    pub fn push_history(&mut self, event: TransferEvent)
        requires
            old(self).wf(),
        ensures
            final(self).wf(),
            final(self)@ == (ServiceView {
                history: history::latest(old(self)@.history.push(event@)),
                ..old(self)@
            }),
    {
        self.history.push(event);
    }

    /// Remembers that a file was sent.
    pub fn record_sent_transfer(
        &mut self,
        file_name: String,
        peer_name: String,
        bytes: u64,
        now_ms: u128,
    )
        requires
            old(self).wf(),
        ensures
            final(self).wf(),
            final(self)@ == (ServiceView {
                history: history::latest(
                    old(self)@.history.push(
                        EventView {
                            direction: TransferDirection::Sent,
                            file_name: file_name@,
                            peer_name: peer_name@,
                            bytes,
                            saved_path: None,
                            timestamp_ms: now_ms,
                        },
                    ),
                ),
                ..old(self)@
            }),
    {
        let event = TransferEvent {
            direction: TransferDirection::Sent,
            file_name,
            peer_name,
            bytes,
            saved_path: None,
            timestamp_ms: now_ms,
        };
        self.push_history(event);
    }

    /// Remembers the transfers that were saved, in place of those it remembers.
    pub fn load_history(&mut self, events: Vec<TransferEvent>)
        requires
            old(self).wf(),
        ensures
            final(self).wf(),
            final(self)@ == (ServiceView {
                history: history::latest(history::event_views(events@)),
                ..old(self)@
            }),
    {
        self.history = TransferHistory::from_events(events);
    }

    /// Notes that a transfer is cancelled.
    pub fn cancel_transfer(&mut self, transfer_id: String)
        requires
            old(self).wf(),
        ensures
            final(self).wf(),
            final(self)@ == (ServiceView {
                cancelled: old(self)@.cancelled.insert(transfer_id@),
                ..old(self)@
            }),
    {
        self.cancelled.insert(transfer_id);
    }

    /// Whether a transfer was cancelled.
    pub fn is_cancelled(&self, transfer_id: &str) -> (yes: bool)
        ensures
            yes == self@.cancelled.contains(transfer_id@),
    {
        self.cancelled.contains(transfer_id)
    }

    /// An error, if a transfer was cancelled.
    pub fn ensure_not_cancelled(&self, transfer_id: &str) -> (go_on: Result<(), String>)
        ensures
            if self@.cancelled.contains(transfer_id@) {
                go_on matches Err(error) && error@ == CANCELLED@
            } else {
                go_on is Ok
            },
    {
        if self.is_cancelled(transfer_id) {
            Err(CANCELLED.to_string())
        } else {
            Ok(())
        }
    }

    /// Lets the device make itself known, or not, and says what is sent about it.
    pub fn set_discovery_enabled(&mut self, enabled: bool, now_ms: u128) -> (sent: Announcement)
        requires
            old(self).wf(),
        ensures
            final(self).wf(),
            final(self)@ == (ServiceView {
                discovery_enabled: enabled,
                last_new_device_ms: if enabled {
                    now_ms
                } else {
                    old(self)@.last_new_device_ms
                },
                ..old(self)@
            }),
            sent == announcement(old(self)@.discovery_enabled, enabled),
    {
        let was_enabled: bool = self.discovery_enabled;
        self.discovery_enabled = enabled;
        if enabled {
            self.last_new_device_ms = now_ms;
            Announcement::Beacon
        } else if was_enabled {
            Announcement::Goodbye
        } else {
            Announcement::Nothing
        }
    }

    /// Whether the device makes itself known.
    pub fn is_discovery_enabled(&self) -> (yes: bool)
        ensures
            yes == self@.discovery_enabled,
    {
        self.discovery_enabled
    }

    /// Forgets all devices in order to ask who is there.
    pub fn probe_discovery(&mut self) -> (probing: Probing)
        requires
            old(self).wf(),
        ensures
            final(self).wf(),
            final(self)@ == (ServiceView { devices: Map::empty(), ..old(self)@ }),
            devices::lists(text::texts(probing.lost@), old(self)@.devices.dom()),
            probing.beacon == old(self)@.discovery_enabled,
    {
        let lost = self.devices.clear();
        Probing { lost, beacon: self.discovery_enabled }
    }

    /// The device's beacon.
    pub fn beacon(&self) -> (beacon: Beacon)
        ensures
            beacon@ == discovery::beacon_of(self@.identity),
    {
        Beacon::of(&self.identity)
    }

    /// The device's leave.
    pub fn goodbye(&self) -> (goodbye: Goodbye)
        ensures
            goodbye.protocol@ == discovery::GOODBYE_PROTOCOL@,
            goodbye.id@ == self@.identity.id,
    {
        Goodbye::of(&self.identity)
    }

    /// The time until the next beacon, in milliseconds, after one was sent or not.
    pub fn beacon_interval(&self, sent: bool, now_ms: u128) -> (wait_ms: u64)
        ensures
            wait_ms == discovery::beacon_wait(sent, self@.last_new_device_ms, now_ms),
    {
        let quiet_ms: u128 = if now_ms > self.last_new_device_ms {
            now_ms - self.last_new_device_ms
        } else {
            0
        };
        if sent && quiet_ms > BEACON_BACKOFF_THRESHOLD_MS {
            BEACON_INTERVAL_SLOW_MS
        } else {
            BEACON_INTERVAL_FAST_MS
        }
    }

    /// Takes in a packet that came from an address, as what it can be read as.
    pub fn receive_packet(
        &mut self,
        source: &IpAddress,
        source_text: &str,
        probe: Option<Probe>,
        goodbye: Option<Goodbye>,
        beacon: Option<Beacon>,
        now_ms: u128,
    ) -> (outcome: PacketOutcome)
        requires
            old(self).wf(),
        ensures
            final(self).wf(),
            ({
                let packet = discovery::meaning(
                    *source,
                    probe,
                    goodbye,
                    beacon,
                    old(self)@.identity.id,
                );
                &&& final(self)@ == after_packet(old(self)@, packet, source_text@, now_ms)
                &&& comes_of_packet(outcome, old(self)@, packet, source_text@, now_ms)
            }),
            !old(self)@.discovery_enabled ==> !outcome.reply,
    {
        let packet = discovery::read_packet(
            source,
            probe,
            goodbye,
            beacon,
            self.identity.id.as_str(),
        );
        match packet {
            Packet::Ignored => PacketOutcome { discovered: None, lost: None, reply: false },
            Packet::Probed => PacketOutcome {
                discovered: None,
                lost: None,
                reply: self.discovery_enabled,
            },
            Packet::Left(id) => {
                let removed: bool = self.devices.remove(id.as_str());
                PacketOutcome {
                    discovered: None,
                    lost: if removed {
                        Some(id)
                    } else {
                        None
                    },
                    reply: false,
                }
            },
            Packet::Seen(seen) => {
                let device = discovery::seen_device(seen, source_text, now_ms);
                let is_new: bool = self.devices.insert(device.clone());
                if is_new {
                    self.last_new_device_ms = now_ms;
                }
                PacketOutcome {
                    discovered: if is_new {
                        Some(device)
                    } else {
                        None
                    },
                    lost: None,
                    reply: self.discovery_enabled,
                }
            },
        }
    }

    /// The device that files are to be sent to: there has to be a file, and a device with the
    /// wanted id has to be there.
    pub fn send_files(
        &mut self,
        paths: &Vec<String>,
        target_id: Option<String>,
        now_ms: u128,
    ) -> (chosen: SendTarget)
        requires
            old(self).wf(),
        ensures
            final(self).wf(),
            if paths@.len() == 0 {
                final(self)@ == old(self)@ && chosen.lost@.len() == 0 && chosen.target == Err::<
                    DeviceInfo,
                    SendError,
                >(SendError::NoFiles)
            } else if target_id is None {
                final(self)@ == old(self)@ && chosen.lost@.len() == 0 && chosen.target == Err::<
                    DeviceInfo,
                    SendError,
                >(SendError::NoTarget)
            } else {
                let live = devices::live_devices(old(self)@.devices, now_ms);
                &&& final(self)@ == (ServiceView { devices: live, ..old(self)@ })
                &&& lists_lost(chosen.lost@, old(self)@.devices, now_ms)
                &&& if live.contains_key(target_id->0@) {
                    chosen.target matches Ok(target) && target@ == live[target_id->0@]
                } else {
                    chosen.target == Err::<DeviceInfo, SendError>(SendError::TargetOffline)
                }
            },
    {
        if paths.len() == 0 {
            return SendTarget { target: Err(SendError::NoFiles), lost: Vec::new() };
        }
        let wanted = match target_id {
            Some(id) => id,
            None => return SendTarget { target: Err(SendError::NoTarget), lost: Vec::new() },
        };
        let lost = self.devices.expire(now_ms);
        let target = match self.devices.get(wanted.as_str()) {
            Some(device) => Ok(device),
            None => Err(SendError::TargetOffline),
        };
        SendTarget { target, lost }
    }

    /// Goes on with the sending of a file after something has happened.
    pub fn send_file(&self, outgoing: Outgoing, event: OutgoingEvent, now_ms: u128) -> (step: (
        Outgoing,
        OutgoingAction,
    ))
        requires
            outgoing.wf(),
        ensures
            outgoing::is_step(
                step,
                outgoing::sent_step(
                    outgoing@,
                    event,
                    self@.identity,
                    sending_cancelled(self@, outgoing@),
                    now_ms,
                ),
            ),
            outgoing::is_readable(outgoing@, event, step.0@),
            outgoing@ matches OutgoingView::Reopening(file) && self@.cancelled.contains(
                file.transfer_id,
            ) ==> !(step.1@ is Read) && !(step.1@ is Scan),
            outgoing@ matches OutgoingView::Scanning(scan) && self@.cancelled.contains(
                scan.sending.transfer_id,
            ) ==> !(step.1@ is Read) && !(step.1@ is Scan),
            outgoing@ matches OutgoingView::Greeting(file) && self@.cancelled.contains(
                file.transfer_id,
            ) ==> !(step.1@ is Read) && !(step.1@ is Scan),
            outgoing@ matches OutgoingView::Writing(file) && self@.cancelled.contains(
                file.transfer_id,
            ) ==> !(step.1@ is Read) && !(step.1@ is Scan),
    {
        let cancelled: bool = match outgoing.transfer_id() {
            Some(id) => self.is_cancelled(id.as_str()),
            None => false,
        };
        outgoing.step(event, &self.key_pair, &self.identity, cancelled, now_ms)
    }

    /// Goes on with the sending of files, one after another, after something has happened. A file
    /// that was sent is remembered.
    pub fn send_next(&mut self, batch: Batch, event: OutgoingEvent, now_ms: u128) -> (step: (
        Batch,
        BatchAction,
    ))
        requires
            old(self).wf(),
            batch.wf(),
        ensures
            final(self).wf(),
            step.0.wf(),
            ({
                let expected = batch::batch_step(
                    batch@,
                    event,
                    old(self)@.identity,
                    sending_cancelled(old(self)@, batch@.current),
                    now_ms,
                );
                &&& step.0@ == expected.next
                &&& step.1@ == expected.action
                &&& final(self)@ == (ServiceView {
                    history: match expected.remembered {
                        Some(sent) => history::latest(old(self)@.history.push(sent)),
                        None => old(self)@.history,
                    },
                    ..old(self)@
                })
            }),
            outgoing::is_readable(batch@.current, event, step.0@.current),
    {
        let cancelled: bool = match batch.transfer_id() {
            Some(id) => self.is_cancelled(id.as_str()),
            None => false,
        };
        let (next, action, remembered) = batch.step(
            event,
            &self.key_pair,
            &self.identity,
            cancelled,
            now_ms,
        );
        if let Some(sent) = remembered {
            self.push_history(sent);
        }
        (next, action)
    }

    /// Goes on with a connection over which a file may be received after something has happened.
    pub fn handle_upload(&self, incoming: Incoming, event: IncomingEvent, now_ms: u128) -> (step: (
        Incoming,
        IncomingAction,
    ))
        requires
            self.wf(),
            incoming.wf(),
        ensures
            incoming::is_step(
                step,
                incoming::stepped(
                    incoming@,
                    event,
                    self@.keys.private(),
                    self@.identity.id,
                    receiving_cancelled(self@, incoming@),
                    now_ms,
                ),
            ),
    {
        let cancelled: bool = match incoming.transfer_id() {
            Some(id) => self.is_cancelled(id.as_str()),
            None => false,
        };
        incoming.step(event, &self.key_pair, self.identity.id.as_str(), cancelled, now_ms)
    }

    /// Goes on with a connection over which a file may be received after something has happened. A
    /// file that is kept is remembered.
    pub fn receive_next(&mut self, incoming: Incoming, event: IncomingEvent, now_ms: u128) -> (step:
        (Incoming, IncomingAction))
        requires
            old(self).wf(),
            incoming.wf(),
        ensures
            final(self).wf(),
            ({
                let expected = incoming::stepped(
                    incoming@,
                    event,
                    old(self)@.keys.private(),
                    old(self)@.identity.id,
                    receiving_cancelled(old(self)@, incoming@),
                    now_ms,
                );
                &&& incoming::is_step(step, expected)
                &&& final(self)@ == (ServiceView {
                    history: match expected.action {
                        IncomingActionView::Keep(kept, _, _) => history::latest(
                            old(self)@.history.push(kept),
                        ),
                        _ => old(self)@.history,
                    },
                    ..old(self)@
                })
            }),
    {
        let (next, action) = self.handle_upload(incoming, event, now_ms);
        if let IncomingAction::Keep(kept, _, _) = &action {
            self.push_history(kept.clone());
        }
        (next, action)
    }

    /// Takes note of how far a transfer has come, and measures it if it is time to.
    pub fn emit_progress(&mut self, progress: &TransferProgress, now_ms: u128) -> (measurement:
        Option<Measurement>)
        requires
            old(self).wf(),
        ensures
            final(self).wf(),
            final(self)@ == (ServiceView {
                samples: after_progress(old(self)@, progress@, now_ms),
                ..old(self)@
            }),
            measurement == measured(old(self)@, progress@, now_ms),
    {
        let id = progress.transfer_id.clone();
        match progress.phase {
            TransferPhase::Started => {
                self.samples.insert(id, (now_ms, progress.bytes_transferred));
                None
            },
            TransferPhase::Progress => {
                let last: (u128, u64) = match self.samples.get(id.as_str()) {
                    Some(sample) => *sample,
                    None => return None,
                };
                if now_ms > last.0 && now_ms - last.0 > 100 && progress.bytes_transferred
                    > last.1 {
                    self.samples.insert(id, (now_ms, progress.bytes_transferred));
                    Some(
                        Measurement {
                            elapsed_ms: now_ms - last.0,
                            bytes: progress.bytes_transferred - last.1,
                        },
                    )
                } else {
                    None
                }
            },
            TransferPhase::Finished => {
                self.samples.remove(id.as_str());
                None
            },
            TransferPhase::Failed => {
                self.samples.remove(id.as_str());
                None
            },
        }
    }
}

/// Whether what a device knows of itself is sound: it has a clean name and an id, listens where
/// files are sent to, and makes the public key known that belongs to its private one; and no more
/// transfers are remembered than may be.
pub open spec fn is_sound(known: ServiceView) -> bool {
    &&& names::is_clean(known.identity.name)
    &&& known.identity.name.len() > 0
    &&& identity::is_id(known.identity.id)
    &&& known.identity.port == TRANSFER_PORT
    &&& known.keys.wf()
    &&& known.identity.crypto_public_key == known.keys.header()
    &&& known.history.len() <= history::MAX_TRANSFER_HISTORY
}

/// Whatever a device has done, what it knows of itself is sound.
pub proof fn law_service_stays_sound(service: NetworkService)
    requires
        service.wf(),
    ensures
        is_sound(service@),
{
}

/// The names that a device sends files under are always fit for it: its name is not blank, and its
/// id is of one line.
pub proof fn law_service_names_are_fit(service: NetworkService)
    requires
        service.wf(),
    ensures
        !text::is_blank(service@.identity.name),
        http::is_one_line(service@.identity.id),
{
    names::lemma_clean_name_is_not_blank(service@.identity.name);
    let id = service@.identity.id;
    assert forall|index: int| 0 <= index < id.len() implies #[trigger] id[index] != '\n' by {
        assert(digits::is_hex_digit(id[index]));
    }
}

/// A device that was seen is known until it has not been seen for longer than the time to live,
/// or has left; then it is not known any more.
pub proof fn law_device_lives_as_long_as_it_is_seen(
    known: ServiceView,
    beacon: BeaconView,
    source: Seq<char>,
    seen_ms: u128,
    now_ms: u128,
)
    ensures
        ({
            let after = after_packet(known, PacketView::Seen(beacon), source, seen_ms);
            let live = devices::live_devices(after.devices, now_ms);
            &&& live.contains_key(beacon.id) <==> now_ms <= seen_ms + devices::DEVICE_TTL_MS
            &&& live.contains_key(beacon.id) ==> live[beacon.id] == discovery::device_of(
                beacon,
                source,
                seen_ms,
            )
            &&& !after_packet(
                after,
                PacketView::Left(beacon.id),
                source,
                now_ms,
            ).devices.contains_key(beacon.id)
        }),
{
    let after = after_packet(known, PacketView::Seen(beacon), source, seen_ms);
    let ids = devices::live_ids(after.devices, now_ms);
    assert(ids.contains(beacon.id) <==> devices::is_live(after.devices[beacon.id], now_ms));
}

/// A device does not come to know itself, and packets from outside of the local network change
/// nothing.
pub proof fn law_foreign_packets_change_nothing(
    known: ServiceView,
    source: IpAddress,
    source_text: Seq<char>,
    probe: Option<Probe>,
    goodbye: Option<Goodbye>,
    beacon: Option<Beacon>,
    now_ms: u128,
)
    requires
        !known.devices.contains_key(known.identity.id),
    ensures
        ({
            let packet = discovery::meaning(source, probe, goodbye, beacon, known.identity.id);
            let after = after_packet(known, packet, source_text, now_ms);
            &&& !after.devices.contains_key(known.identity.id)
            &&& !address::lan(source) ==> after == known
        }),
{
}

/// A transfer that was cancelled is not carried on: neither end reads another part of the file.
pub proof fn law_cancelled_transfer_stops(
    known: ServiceView,
    outgoing: OutgoingView,
    sent: OutgoingEvent,
    incoming: IncomingView,
    received: IncomingEvent,
    now_ms: u128,
)
    ensures
        sending_cancelled(known, outgoing) ==> ({
            let step = outgoing::sent_step(outgoing, sent, known.identity, true, now_ms);
            !(step.action is Read) && !(step.action is Scan)
        }),
        receiving_cancelled(known, incoming) ==> ({
            let step = incoming::stepped(
                incoming,
                received,
                known.keys.private(),
                known.identity.id,
                true,
                now_ms,
            );
            !(step.action is Read)
        }),
{
}

/// Whether a device that files are sent to has an address of the local network.
pub fn check_target(address: Result<IpAddress, String>) -> (fit: Result<(), SendError>)
    ensures
        match address {
            Err(cause) => fit == Err::<(), SendError>(SendError::AddressInvalid(cause)),
            Ok(parsed) => if address::lan(parsed) {
                fit is Ok
            } else {
                fit == Err::<(), SendError>(SendError::TargetOutside)
            },
        },
{
    match address {
        Err(cause) => Err(SendError::AddressInvalid(cause)),
        Ok(parsed) => if address::is_lan_ip(&parsed) {
            Ok(())
        } else {
            Err(SendError::TargetOutside)
        },
    }
}

/// Starts to send files to a device that was chosen, whose address was read, and says what is to be
/// done first.
pub fn start_sending(
    target: DeviceInfo,
    address: Result<IpAddress, String>,
    paths: Vec<String>,
) -> (started: Result<(Batch, BatchAction), SendError>)
    ensures
        if paths@.len() == 0 {
            started == Err::<(Batch, BatchAction), SendError>(SendError::NoFiles)
        } else {
            match address {
                Err(cause) => started == Err::<(Batch, BatchAction), SendError>(
                    SendError::AddressInvalid(cause),
                ),
                Ok(parsed) => if address::lan(parsed) {
                    &&& started matches Ok(first)
                    &&& first.0.wf()
                    &&& first.0@ == batch::batch_of(target@, text::texts(paths@))
                    &&& first.1@ == BatchActionView::Find(None, text::texts(paths@)[0])
                } else {
                    started == Err::<(Batch, BatchAction), SendError>(SendError::TargetOutside)
                },
            }
        },
{
    if paths.len() == 0 {
        return Err(SendError::NoFiles);
    }
    match check_target(address) {
        Ok(()) => Ok(Batch::new(target, paths)),
        Err(error) => Err(error),
    }
}

/// While a device does not make itself known, it answers no packet of any kind.
pub proof fn law_hidden_device_does_not_answer(
    outcome: PacketOutcome,
    known: ServiceView,
    packet: PacketView,
    source: Seq<char>,
    now_ms: u128,
)
    requires
        comes_of_packet(outcome, known, packet, source, now_ms),
        !known.discovery_enabled,
    ensures
        !outcome.reply,
{
}

/// A device that makes itself known answers every question and every beacon of another device from
/// the local network, and nothing else.
pub proof fn law_visible_device_answers_questions_and_beacons(
    outcome: PacketOutcome,
    known: ServiceView,
    source: IpAddress,
    source_text: Seq<char>,
    probe: Option<Probe>,
    goodbye: Option<Goodbye>,
    beacon: Option<Beacon>,
    now_ms: u128,
)
    requires
        comes_of_packet(
            outcome,
            known,
            discovery::meaning(source, probe, goodbye, beacon, known.identity.id),
            source_text,
            now_ms,
        ),
        known.discovery_enabled,
    ensures
        ({
            let probes = probe matches Some(asked) && asked.protocol@ == "file-sharer.v2.probe"@;
            let leaves = goodbye matches Some(left) && left.protocol@ == "file-sharer.v2.goodbye"@;
            let shows = beacon matches Some(seen) && seen.protocol@ == "file-sharer.v2"@ && seen.id@
                != known.identity.id;
            outcome.reply <==> address::lan(source) && (probes || (!leaves && shows))
        }),
{
}

/// A device that hears the beacon of another from the local network comes to know it, under its id,
/// with each thing that the beacon says under its own name, and the address and the time at which it
/// was heard. The others it knows stay as they are, and so does all that it knows besides, but for the
/// time at which a device has last turned up that was not known. Such a device is told of.
pub proof fn law_heard_device_becomes_known(
    outcome: PacketOutcome,
    known: ServiceView,
    source: IpAddress,
    source_text: Seq<char>,
    beacon: Beacon,
    other: Seq<char>,
    now_ms: u128,
)
    requires
        address::lan(source),
        beacon.protocol@ == "file-sharer.v2"@,
        beacon.id@ != known.identity.id,
        comes_of_packet(
            outcome,
            known,
            discovery::meaning(source, None, None, Some(beacon), known.identity.id),
            source_text,
            now_ms,
        ),
    ensures
        ({
            let packet = discovery::meaning(source, None, None, Some(beacon), known.identity.id);
            let after = after_packet(known, packet, source_text, now_ms);
            let device = after.devices[beacon.id@];
            let new = !known.devices.contains_key(beacon.id@);
            &&& after.devices.contains_key(beacon.id@)
            &&& device.id == beacon.id@
            &&& device.name == beacon.name@
            &&& device.platform == beacon.platform@
            &&& device.address == source_text
            &&& device.port == beacon.port
            &&& device.last_seen_ms == now_ms
            &&& device.crypto_public_key == beacon.crypto_public_key@
            &&& other != beacon.id@ ==> after.devices.contains_key(other)
                == known.devices.contains_key(other)
            &&& other != beacon.id@ && known.devices.contains_key(other) ==> after.devices[other]
                == known.devices[other]
            &&& after.last_new_device_ms == (if new {
                now_ms
            } else {
                known.last_new_device_ms
            })
            &&& after.identity == known.identity
            &&& after.keys == known.keys
            &&& after.history == known.history
            &&& after.cancelled == known.cancelled
            &&& after.samples == known.samples
            &&& after.discovery_enabled == known.discovery_enabled
            &&& outcome.lost is None
            &&& !new ==> outcome.discovered is None
            &&& new ==> {
                &&& outcome.discovered matches Some(found)
                &&& found.id@ == beacon.id@
                &&& found.name@ == beacon.name@
                &&& found.platform@ == beacon.platform@
                &&& found.address@ == source_text
                &&& found.port == beacon.port
                &&& found.last_seen_ms == now_ms
                &&& found.crypto_public_key@ == beacon.crypto_public_key@
            }
        }),
{
}

/// A device that takes its leave is forgotten, and is told to be lost if it was known; nothing else
/// that is known changes.
pub proof fn law_device_that_leaves_is_forgotten(
    outcome: PacketOutcome,
    known: ServiceView,
    source: IpAddress,
    source_text: Seq<char>,
    goodbye: Goodbye,
    other: Seq<char>,
    now_ms: u128,
)
    requires
        address::lan(source),
        goodbye.protocol@ == "file-sharer.v2.goodbye"@,
        goodbye.id@ != known.identity.id,
        comes_of_packet(
            outcome,
            known,
            discovery::meaning(source, None, Some(goodbye), None, known.identity.id),
            source_text,
            now_ms,
        ),
    ensures
        ({
            let packet = discovery::meaning(source, None, Some(goodbye), None, known.identity.id);
            let after = after_packet(known, packet, source_text, now_ms);
            let there = known.devices.contains_key(goodbye.id@);
            &&& !after.devices.contains_key(goodbye.id@)
            &&& other != goodbye.id@ ==> after.devices.contains_key(other)
                == known.devices.contains_key(other)
            &&& other != goodbye.id@ && known.devices.contains_key(other) ==> after.devices[other]
                == known.devices[other]
            &&& after.last_new_device_ms == known.last_new_device_ms
            &&& after.identity == known.identity
            &&& after.keys == known.keys
            &&& after.history == known.history
            &&& after.cancelled == known.cancelled
            &&& after.samples == known.samples
            &&& after.discovery_enabled == known.discovery_enabled
            &&& outcome.discovered is None
            &&& there ==> (outcome.lost matches Some(id) && id@ == goodbye.id@)
            &&& !there ==> outcome.lost is None
        }),
{
}

/// A question, and what means nothing, change nothing that is known, and nobody comes or goes.
pub proof fn law_questions_change_nothing(
    outcome: PacketOutcome,
    known: ServiceView,
    packet: PacketView,
    source: Seq<char>,
    now_ms: u128,
)
    requires
        packet is Probed || packet is Ignored,
        comes_of_packet(outcome, known, packet, source, now_ms),
    ensures
        after_packet(known, packet, source, now_ms) == known,
        outcome.discovered is None,
        outcome.lost is None,
        packet is Ignored ==> !outcome.reply,
{
}

/// A device that is told to make itself known sends its beacon; one that is told not to takes its
/// leave if it was known, and says nothing if it was not.
pub proof fn law_device_announces_that_it_comes_or_goes(was_enabled: bool)
    ensures
        announcement(was_enabled, true) == Announcement::Beacon,
        announcement(true, false) == Announcement::Goodbye,
        announcement(false, false) == Announcement::Nothing,
{
}

/// The devices that are listed are those that are known and were seen in the last six seconds, each
/// once and as it is known, in the order of their names; those that were not are listed as lost, each
/// once.
pub proof fn law_list_shows_the_devices_that_are_there(
    list: DeviceList,
    known: Map<Seq<char>, DeviceView>,
    now_ms: u128,
    id: Seq<char>,
    left: int,
    right: int,
)
    requires
        is_list_of(list, known, now_ms),
        0 <= left < list.devices@.len(),
        0 <= right < list.devices@.len(),
    ensures
        left < right ==> devices::precedes(
            list.devices@[left].name@,
            list.devices@[right].name@,
        ),
        left != right ==> list.devices@[left].id@ != list.devices@[right].id@,
        known.contains_key(list.devices@[left].id@),
        ({
            let shown = list.devices@[left];
            let device = known[shown.id@];
            &&& now_ms <= device.last_seen_ms + 6000
            &&& shown.name@ == device.name
            &&& shown.platform@ == device.platform
            &&& shown.address@ == device.address
            &&& shown.port == device.port
            &&& shown.last_seen_ms == device.last_seen_ms
            &&& shown.crypto_public_key@ == device.crypto_public_key
        }),
        known.contains_key(id) && now_ms <= known[id].last_seen_ms + 6000 ==> exists|at: int|
            0 <= at < list.devices@.len() && (#[trigger] list.devices@[at]).id@ == id,
        (exists|at: int| 0 <= at < list.lost@.len() && (#[trigger] list.lost@[at])@ == id) <==> (
        known.contains_key(id) && now_ms > known[id].last_seen_ms + 6000),
{
    let views = devices::device_views(list.devices@);
    assert(views[left] == list.devices@[left]@);
    assert(views[right] == list.devices@[right]@);
    devices::law_devices_are_found_by_their_ids(views, left, id);
    devices::law_devices_stay_for_six_seconds(known, now_ms, list.devices@[left].id@);
    devices::law_devices_stay_for_six_seconds(known, now_ms, id);
    if known.contains_key(id) && now_ms <= known[id].last_seen_ms + 6000 {
        let at = choose|at: int| 0 <= at < views.len() && (#[trigger] views[at]).id == id;
        assert(list.devices@[at].id@ == views[at].id);
    }
    let lost = text::texts(list.lost@);
    if exists|at: int| 0 <= at < list.lost@.len() && (#[trigger] list.lost@[at])@ == id {
        let at = choose|at: int| 0 <= at < list.lost@.len() && (#[trigger] list.lost@[at])@ == id;
        assert(lost[at] == id);
        assert(lost.contains(id));
    }
    if lost.contains(id) {
        let at = choose|at: int| 0 <= at < lost.len() && lost[at] == id;
        assert(list.lost@[at]@ == id);
    }
    let gone = known.dom().difference(devices::live_ids(known, now_ms));
    assert(lost.contains(id) <==> gone.contains(id));
}

/// Whatever state a sending is in that carries the id of its transfer, once that id is among the
/// cancelled ones no other part of the file is asked for; and as long as it is not, it does not count
/// as cancelled.
pub proof fn law_cancelled_sending_asks_for_nothing_more(
    known: ServiceView,
    outgoing: OutgoingView,
    id: Seq<char>,
    event: OutgoingEvent,
    now_ms: u128,
)
    requires
        match outgoing {
            OutgoingView::Reopening(file) => file.transfer_id == id,
            OutgoingView::Scanning(scan) => scan.sending.transfer_id == id,
            OutgoingView::Greeting(file) => file.transfer_id == id,
            OutgoingView::Reading(file) => file.transfer_id == id,
            OutgoingView::Writing(file) => file.transfer_id == id,
            OutgoingView::Answering(file) => file.transfer_id == id,
            _ => false,
        },
    ensures
        ({
            let step = outgoing::sent_step(
                outgoing,
                event,
                known.identity,
                sending_cancelled(known, outgoing),
                now_ms,
            );
            &&& known.cancelled.contains(id) ==> !(step.action is Read) && !(step.action is Scan)
            &&& !known.cancelled.contains(id) ==> !sending_cancelled(known, outgoing)
        }),
{
}

/// A sending whose transfer was cancelled fails as such when the next part would be read: behind the
/// head, behind every part, and while the code is computed.
pub proof fn law_cancelled_sending_fails(
    known: ServiceView,
    file: sending::SendingView,
    now_ms: u128,
)
    requires
        known.cancelled.contains(file.transfer_id),
        transfer::can_authenticate(file.transfer_id, file.sent_name, file.sender_name, 0),
    ensures
        ({
            let after = |outgoing: OutgoingView|
                outgoing::sent_step(
                    outgoing,
                    OutgoingEvent::Done(Ok(())),
                    known.identity,
                    sending_cancelled(known, outgoing),
                    now_ms,
                );
            let says = |outgoing: OutgoingView, message: Seq<char>|
                after(outgoing).next is Closed && (after(outgoing).action matches
                    OutgoingActionView::Fail(_, Some(told), said) && said == message && told.error
                    == Some(message) && told.phase == TransferPhase::Failed);
            &&& says(OutgoingView::Greeting(file), "传输已取消"@)
            &&& says(OutgoingView::Writing(file), "传输已取消"@)
            &&& says(OutgoingView::Reopening(file), "计算加密校验失败："@ + "传输已取消"@)
        }),
{
}

/// Whatever state a connection is in that carries the id of its transfer, once that id is among the
/// cancelled ones no other part of the content is read; and as long as it is not, it does not count as
/// cancelled.
pub proof fn law_cancelled_receiving_reads_nothing_more(
    known: ServiceView,
    incoming: IncomingView,
    id: Seq<char>,
    event: IncomingEvent,
    now_ms: u128,
)
    requires
        match incoming {
            IncomingView::Directory(file) => file.request.transfer_id == id,
            IncomingView::Looking(file, _, _) => file.request.transfer_id == id,
            IncomingView::Creating(file) => file.request.transfer_id == id,
            IncomingView::Reading(file) => file.request.transfer_id == id,
            IncomingView::Writing(file) => file.request.transfer_id == id,
            IncomingView::Flushing(file) => file.request.transfer_id == id,
            IncomingView::Publishing(request) => request.transfer_id == id,
            _ => false,
        },
    ensures
        ({
            let step = incoming::stepped(
                incoming,
                event,
                known.keys.private(),
                known.identity.id,
                receiving_cancelled(known, incoming),
                now_ms,
            );
            &&& known.cancelled.contains(id) ==> !(step.action is Read)
            &&& !known.cancelled.contains(id) ==> !receiving_cancelled(known, incoming)
        }),
{
}

/// A transfer is measured while it goes on, against when it was last noted: the time and the bytes
/// since then, if that was more than a tenth of a second ago and there are any. What is measured is
/// noted in turn, and so is the start; a transfer that has ended is not noted any more, and nothing is
/// said of other transfers.
pub proof fn law_transfers_are_measured_since_they_were_noted(
    known: ServiceView,
    progress: ProgressView,
    now_ms: u128,
    other: Seq<char>,
)
    ensures
        ({
            let id = progress.transfer_id;
            let noted = known.samples.contains_key(id);
            let last = known.samples[id];
            let due = progress.phase == TransferPhase::Progress && noted && now_ms > last.0 + 100
                && progress.bytes_transferred > last.1;
            let after = after_progress(known, progress, now_ms);
            let now = (now_ms, progress.bytes_transferred);
            &&& measured(known, progress, now_ms) is Some <==> due
            &&& measured(known, progress, now_ms) matches Some(found) ==> found.elapsed_ms + last.0
                == now_ms && found.bytes + last.1 == progress.bytes_transferred
            &&& progress.phase == TransferPhase::Started || due ==> after.contains_key(id)
                && after[id] == now
            &&& progress.phase == TransferPhase::Progress && !due ==> after == known.samples
            &&& progress.phase == TransferPhase::Finished || progress.phase == TransferPhase::Failed
                ==> !after.contains_key(id)
            &&& other != id ==> after.contains_key(other) == known.samples.contains_key(other)
            &&& other != id && known.samples.contains_key(other) ==> after[other]
                == known.samples[other]
        }),
{
}

/// A device always has a name of one to 32 characters and an id of sixteen hexadecimal digits,
/// listens on the port that files are sent to, makes the public key known that belongs to its private
/// one, and remembers at most a hundred transfers.
pub proof fn law_device_is_always_fit(service: NetworkService)
    requires
        service.wf(),
    ensures
        1 <= service@.identity.name.len() <= 32,
        service@.identity.id.len() == 16,
        service@.identity.port == 45892,
        service@.identity.crypto_public_key == service@.keys.header(),
        service@.keys.wf(),
        service@.history.len() <= 100,
        names::clean_device_name(service@.identity.name) == service@.identity.name,
{
    names::law_device_name_is_stable(service@.identity.name);
}

} // verus!
