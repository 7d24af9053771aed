//! What a device does when it is asked to, from one call to the next.

use crate::address;
use crate::address::IpAddress;
use crate::batch::{Batch, BatchAction};
use crate::crypto;
use crate::devices;
use crate::devices::DeviceInfo;
use crate::discovery::{Beacon, Goodbye, Probe};
use crate::history;
use crate::history::{TransferDirection, TransferEvent};
use crate::identity;
use crate::identity::Identity;
use crate::incoming;
use crate::incoming::{Incoming, IncomingAction, IncomingEvent};
use crate::names;
use crate::outgoing::{Outgoing, OutgoingAction, OutgoingEvent};
use crate::sending::SendError;
use crate::service;
use crate::service::{
    Announcement, DeviceList, Measurement, NetworkService, PacketOutcome, Probing, SendTarget,
};
use crate::text;
use crate::transfer::{TransferPhase, TransferProgress};
use vstd::prelude::*;

verus! {

/// A new device is called after what is known of its owner, listens on port 45892, knows nothing of
/// others, and makes itself known.
pub proof fn law_new_device_knows_nothing_of_others(
    computer: Option<String>,
    host: Option<String>,
    user: Option<String>,
    username: Option<String>,
    os: &str,
    random: [u8; 16],
    now_ms: u128,
    made: NetworkService,
    other: Seq<char>,
)
    requires
        call_ensures(
            NetworkService::new,
            (computer, host, user, username, os, Ok::<[u8; 16], String>(random), now_ms),
            Ok(made),
        ),
    ensures
        made.wf(),
        made@.keys.private() == crypto::private_of(random@),
        made@.identity.crypto_public_key == made@.keys.header(),
        made@.identity.platform == os@,
        made@.identity.port == 45892,
        computer matches Some(owner) ==> made@.identity.name == names::clean_device_name(
            owner@ + "'s "@ + os@,
        ),
        host matches Some(owner) ==> computer is None ==> made@.identity.name
            == names::clean_device_name(owner@ + "'s "@ + os@),
        user matches Some(owner) ==> computer is None && host is None ==> made@.identity.name
            == names::clean_device_name(owner@ + "'s "@ + os@),
        username matches Some(owner) ==> computer is None && host is None && user is None
            ==> made@.identity.name == names::clean_device_name(owner@ + "'s "@ + os@),
        user is Some ==> made@.identity.id == identity::device_id(
            made@.identity.name,
            os@,
            user,
        ),
        user is None ==> made@.identity.id == identity::device_id(
            made@.identity.name,
            os@,
            username,
        ),
        !made@.devices.contains_key(other),
        !made@.cancelled.contains(other),
        !made@.samples.contains_key(other),
        made@.history.len() == 0,
        made@.discovery_enabled,
        made@.last_new_device_ms == now_ms,
{
}

/// Without random bytes there is no device, and the error is the one that was met.
pub proof fn law_no_device_without_randomness(
    error: String,
    os: &str,
    now_ms: u128,
    made: Result<NetworkService, String>,
)
    requires
        call_ensures(
            NetworkService::new,
            (
                None::<String>,
                None::<String>,
                None::<String>,
                None::<String>,
                os,
                Err::<[u8; 16], String>(error),
                now_ms,
            ),
            made,
        ),
    ensures
        made == Err::<NetworkService, String>(error),
{
}

/// A device that was given a name has the clean form of it and is the same in everything else; a
/// name of which nothing is left is refused, and the old one stays.
pub proof fn law_device_takes_a_new_name(
    service: &mut NetworkService,
    name: String,
    renamed: Result<Identity, String>,
    later: NetworkService,
    found: Identity,
)
    requires
        call_ensures(NetworkService::set_device_name, (service, name), renamed),
        later@ == final(service)@,
        call_ensures(NetworkService::identity, (&later,), found),
    ensures
        final(service)@.keys == old(service)@.keys,
        final(service)@.devices == old(service)@.devices,
        final(service)@.history == old(service)@.history,
        final(service)@.cancelled == old(service)@.cancelled,
        final(service)@.samples == old(service)@.samples,
        final(service)@.discovery_enabled == old(service)@.discovery_enabled,
        final(service)@.last_new_device_ms == old(service)@.last_new_device_ms,
        found.id@ == old(service)@.identity.id,
        found.platform@ == old(service)@.identity.platform,
        found.port == old(service)@.identity.port,
        found.crypto_public_key@ == old(service)@.identity.crypto_public_key,
        names::clean_device_name(name@).len() > 0 ==> found.name@ == names::clean_device_name(
            name@,
        ),
        names::clean_device_name(name@).len() == 0 ==> found.name@ == old(service)@.identity.name
            && renamed is Err,
        renamed matches Ok(told) ==> told@ == found@,
        renamed is Ok <==> names::clean_device_name(name@).len() > 0,
{
}

/// A list of devices shows each device that was seen within the last six seconds, as it was seen, and
/// names each of the others as lost; the others are then forgotten, and nothing else is.
pub proof fn law_devices_are_listed_while_they_are_there(
    service: &mut NetworkService,
    now_ms: u128,
    list: DeviceList,
    id: Seq<char>,
    index: int,
)
    requires
        call_ensures(NetworkService::devices, (service, now_ms), list),
    ensures
        final(service)@.devices.contains_key(id) <==> old(service)@.devices.contains_key(id)
            && now_ms - old(service)@.devices[id].last_seen_ms <= 6000,
        final(service)@.devices.contains_key(id) ==> final(service)@.devices[id] == old(
            service,
        )@.devices[id],
        0 <= index < list.devices@.len() ==> ({
            let shown = list.devices@[index];
            &&& final(service)@.devices.contains_key(shown.id@)
            &&& final(service)@.devices[shown.id@] == shown@
        }),
        final(service)@.devices.contains_key(id) ==> exists|place: int|
            0 <= place < list.devices@.len() && (#[trigger] list.devices@[place]).id@ == id,
        0 <= index < list.lost@.len() ==> old(service)@.devices.contains_key(
            list.lost@[index]@,
        ) && !final(service)@.devices.contains_key(list.lost@[index]@),
        old(service)@.devices.contains_key(id) && !final(service)@.devices.contains_key(id)
            ==> exists|place: int|
            0 <= place < list.lost@.len() && (#[trigger] list.lost@[place])@ == id,
        final(service)@.identity == old(service)@.identity,
        final(service)@.keys == old(service)@.keys,
        final(service)@.history == old(service)@.history,
        final(service)@.cancelled == old(service)@.cancelled,
        final(service)@.samples == old(service)@.samples,
        final(service)@.discovery_enabled == old(service)@.discovery_enabled,
        final(service)@.last_new_device_ms == old(service)@.last_new_device_ms,
{
    let known = old(service)@.devices;
    let live = devices::live_devices(known, now_ms);
    let views = devices::device_views(list.devices@);
    let lost = text::texts(list.lost@);
    let gone = known.dom().difference(devices::live_ids(known, now_ms));
    assert(devices::by_id(views) == live);
    if 0 <= index < list.devices@.len() {
        assert(views[index] == list.devices@[index]@);
        devices::law_devices_are_found_by_their_ids(views, index, id);
    }
    if live.contains_key(id) {
        assert(devices::by_id(views).contains_key(id));
        let place = choose|place: int| 0 <= place < views.len() && views[place].id == id;
        assert(views[place] == list.devices@[place]@);
    }
    if 0 <= index < list.lost@.len() {
        assert(lost[index] == list.lost@[index]@);
        assert(lost.contains(lost[index]));
        assert(gone.contains(list.lost@[index]@));
    }
    if known.contains_key(id) && !live.contains_key(id) {
        assert(gone.contains(id));
        assert(lost.contains(id));
        let place = choose|place: int| 0 <= place < lost.len() && lost[place] == id;
        assert(lost[place] == list.lost@[place]@);
    }
}

/// A transfer that was pushed is listed first and saved last, and everything that was remembered before
/// follows it or comes before it, but for the oldest where there would be more than a hundred.
pub proof fn law_pushed_transfer_is_listed_first(
    service: &mut NetworkService,
    event: TransferEvent,
    later: NetworkService,
    listed: Vec<TransferEvent>,
    saved: Vec<TransferEvent>,
    index: int,
)
    requires
        old(service)@.history.len() <= 100,
        call_ensures(NetworkService::push_history, (service, event), ()),
        later@ == final(service)@,
        call_ensures(NetworkService::transfer_history, (&later,), listed),
        call_ensures(NetworkService::saved_history, (&later,), saved),
    ensures
        ({
            let before = old(service)@.history;
            let count = if before.len() < 100 {
                before.len() + 1
            } else {
                100
            };
            &&& listed@.len() == count
            &&& saved@.len() == count
            &&& listed@[0]@ == event@
            &&& saved@.last()@ == event@
            &&& 0 < index < count ==> listed@[index]@ == before[before.len() - index]
            &&& 0 <= index < count ==> saved@[index]@ == listed@[count - 1 - index]@
        }),
        final(service)@.identity == old(service)@.identity,
        final(service)@.keys == old(service)@.keys,
        final(service)@.devices == old(service)@.devices,
        final(service)@.cancelled == old(service)@.cancelled,
        final(service)@.samples == old(service)@.samples,
        final(service)@.discovery_enabled == old(service)@.discovery_enabled,
        final(service)@.last_new_device_ms == old(service)@.last_new_device_ms,
{
    let shown = history::event_views(listed@);
    let kept = history::event_views(saved@);
    let count = shown.len() as int;
    assert(shown == final(service)@.history.reverse());
    assert(kept == final(service)@.history);
    assert(shown.len() == listed@.len() && kept.len() == saved@.len());
    assert(shown[0] == listed@[0]@);
    assert(kept[count - 1] == saved@[count - 1]@);
    if 0 <= index < count {
        assert(shown[index] == listed@[index]@);
        assert(kept[index] == saved@[index]@);
        assert(shown[count - 1 - index] == listed@[count - 1 - index]@);
    }
}

/// A file that was sent is remembered as sent, with its name, its receiver, its length and the time,
/// and as saved nowhere.
pub proof fn law_sent_file_is_remembered(
    service: &mut NetworkService,
    file_name: String,
    peer_name: String,
    bytes: u64,
    now_ms: u128,
)
    requires
        old(service)@.history.len() <= 100,
        call_ensures(
            NetworkService::record_sent_transfer,
            (service, file_name, peer_name, bytes, now_ms),
            (),
        ),
    ensures
        final(service)@.history.len() > 0,
        final(service)@.history.last().direction == TransferDirection::Sent,
        final(service)@.history.last().file_name == file_name@,
        final(service)@.history.last().peer_name == peer_name@,
        final(service)@.history.last().bytes == bytes,
        final(service)@.history.last().saved_path is None,
        final(service)@.history.last().timestamp_ms == now_ms,
        final(service)@.devices == old(service)@.devices,
        final(service)@.identity == old(service)@.identity,
        final(service)@.cancelled == old(service)@.cancelled,
{
}

/// After the list of transfers was cleared, there is none; after one of up to a hundred was loaded,
/// that is saved again as it was.
pub proof fn law_transfers_are_cleared_and_loaded(
    cleared: &mut NetworkService,
    loaded: &mut NetworkService,
    events: Vec<TransferEvent>,
    later: NetworkService,
    saved: Vec<TransferEvent>,
    index: int,
)
    requires
        call_ensures(NetworkService::clear_transfer_history, (cleared,), ()),
        events@.len() <= 100,
        call_ensures(NetworkService::load_history, (loaded, events), ()),
        later@ == final(loaded)@,
        call_ensures(NetworkService::saved_history, (&later,), saved),
    ensures
        final(cleared)@.history.len() == 0,
        final(cleared)@.identity == old(cleared)@.identity,
        final(cleared)@.devices == old(cleared)@.devices,
        final(cleared)@.cancelled == old(cleared)@.cancelled,
        final(cleared)@.samples == old(cleared)@.samples,
        saved@.len() == events@.len(),
        0 <= index < events@.len() ==> saved@[index]@ == events@[index]@,
        final(loaded)@.identity == old(loaded)@.identity,
        final(loaded)@.devices == old(loaded)@.devices,
        final(loaded)@.cancelled == old(loaded)@.cancelled,
        final(loaded)@.samples == old(loaded)@.samples,
{
    let views = history::event_views(events@);
    let kept = history::event_views(saved@);
    assert(views == kept);
    assert(views.len() == events@.len() && kept.len() == saved@.len());
    if 0 <= index < events@.len() {
        assert(views[index] == events@[index]@);
        assert(kept[index] == saved@[index]@);
    }
}

/// A transfer that was cancelled is cancelled from then on, and no other is by that; work on it is
/// refused, and work on the others goes on.
pub proof fn law_cancelling_holds_for_one_transfer(
    service: &mut NetworkService,
    transfer_id: String,
    later: NetworkService,
    other: &str,
    yes: bool,
    go_on: Result<(), String>,
)
    requires
        call_ensures(NetworkService::cancel_transfer, (service, transfer_id), ()),
        later@ == final(service)@,
        call_ensures(NetworkService::is_cancelled, (&later, other), yes),
        call_ensures(NetworkService::ensure_not_cancelled, (&later, other), go_on),
    ensures
        other@ == transfer_id@ ==> yes,
        other@ != transfer_id@ ==> yes == old(service)@.cancelled.contains(other@),
        yes ==> (go_on matches Err(error) && error@ == "传输已取消"@),
        !yes ==> go_on is Ok,
        final(service)@.identity == old(service)@.identity,
        final(service)@.keys == old(service)@.keys,
        final(service)@.devices == old(service)@.devices,
        final(service)@.history == old(service)@.history,
        final(service)@.samples == old(service)@.samples,
        final(service)@.discovery_enabled == old(service)@.discovery_enabled,
        final(service)@.last_new_device_ms == old(service)@.last_new_device_ms,
{
}

/// A device makes itself known or not as it was last told to. If it does, its beacon is sent; if it
/// stops, its leave; and if it had stopped before, nothing.
pub proof fn law_discovery_is_switched(
    service: &mut NetworkService,
    enabled: bool,
    now_ms: u128,
    sent: Announcement,
    later: NetworkService,
    yes: bool,
)
    requires
        call_ensures(NetworkService::set_discovery_enabled, (service, enabled, now_ms), sent),
        later@ == final(service)@,
        call_ensures(NetworkService::is_discovery_enabled, (&later,), yes),
    ensures
        yes == enabled,
        enabled ==> sent is Beacon && final(service)@.last_new_device_ms == now_ms,
        !enabled && old(service)@.discovery_enabled ==> sent is Goodbye,
        !enabled && !old(service)@.discovery_enabled ==> sent is Nothing,
        !enabled ==> final(service)@.last_new_device_ms == old(service)@.last_new_device_ms,
        final(service)@.identity == old(service)@.identity,
        final(service)@.keys == old(service)@.keys,
        final(service)@.devices == old(service)@.devices,
        final(service)@.history == old(service)@.history,
        final(service)@.cancelled == old(service)@.cancelled,
        final(service)@.samples == old(service)@.samples,
{
}

/// Whoever asks who is there forgets all devices, names each of them as lost once, and sends a beacon
/// only if they make themselves known.
pub proof fn law_probing_starts_afresh(
    service: &mut NetworkService,
    probing: Probing,
    id: Seq<char>,
    left: int,
    right: int,
)
    requires
        call_ensures(NetworkService::probe_discovery, (service,), probing),
    ensures
        !final(service)@.devices.contains_key(id),
        probing.beacon == old(service)@.discovery_enabled,
        old(service)@.devices.contains_key(id) <==> exists|place: int|
            0 <= place < probing.lost@.len() && (#[trigger] probing.lost@[place])@ == id,
        0 <= left < right < probing.lost@.len() ==> probing.lost@[left]@ != probing.lost@[right]@,
        final(service)@.identity == old(service)@.identity,
        final(service)@.keys == old(service)@.keys,
        final(service)@.history == old(service)@.history,
        final(service)@.cancelled == old(service)@.cancelled,
        final(service)@.samples == old(service)@.samples,
        final(service)@.discovery_enabled == old(service)@.discovery_enabled,
        final(service)@.last_new_device_ms == old(service)@.last_new_device_ms,
{
    let lost = text::texts(probing.lost@);
    assert(lost.len() == probing.lost@.len());
    assert forall|place: int| 0 <= place < lost.len() implies lost[place]
        == #[trigger] probing.lost@[place]@ by {}
    if old(service)@.devices.contains_key(id) {
        assert(old(service)@.devices.dom().contains(id));
        assert(lost.contains(id));
        let place = choose|place: int| 0 <= place < lost.len() && lost[place] == id;
        assert(probing.lost@[place]@ == id);
    }
    if exists|place: int|
        0 <= place < probing.lost@.len() && (#[trigger] probing.lost@[place])@ == id {
        let place = choose|place: int|
            0 <= place < probing.lost@.len() && (#[trigger] probing.lost@[place])@ == id;
        assert(lost[place] == id);
        assert(lost.contains(id));
        assert(old(service)@.devices.dom().contains(id));
    }
    if 0 <= left < right < lost.len() {
        assert(lost[left] != lost[right]);
    }
}

/// A device shows itself in its beacon as it is, and takes its leave under its own id. It waits half a
/// second for the next beacon, or five seconds once one was sent and no new device has turned up for
/// more than thirty seconds.
pub proof fn law_device_shows_itself(
    service: NetworkService,
    beacon: Beacon,
    goodbye: Goodbye,
    sent: bool,
    now_ms: u128,
    wait_ms: u64,
)
    requires
        call_ensures(NetworkService::beacon, (&service,), beacon),
        call_ensures(NetworkService::goodbye, (&service,), goodbye),
        call_ensures(NetworkService::beacon_interval, (&service, sent, now_ms), wait_ms),
    ensures
        beacon.protocol@ == "file-sharer.v2"@,
        beacon.id@ == service@.identity.id,
        beacon.name@ == service@.identity.name,
        beacon.platform@ == service@.identity.platform,
        beacon.port == service@.identity.port,
        beacon.crypto_public_key@ == service@.identity.crypto_public_key,
        goodbye.protocol@ == "file-sharer.v2.goodbye"@,
        goodbye.id@ == service@.identity.id,
        sent && now_ms - service@.last_new_device_ms > 30_000 ==> wait_ms == 5_000,
        !sent || now_ms - service@.last_new_device_ms <= 30_000 ==> wait_ms == 500,
{
}

/// A beacon of another device from the local network makes that device known as it says it is, under
/// the address that it came from, whatever was known of it before. It is told of only if it was not
/// known, and is answered if the receiver makes itself known.
pub proof fn law_heard_beacon_makes_its_device_known(
    service: &mut NetworkService,
    source: IpAddress,
    source_text: &str,
    beacon: Beacon,
    now_ms: u128,
    outcome: PacketOutcome,
    other: Seq<char>,
)
    requires
        call_ensures(
            NetworkService::receive_packet,
            (service, &source, source_text, None::<Probe>, None::<Goodbye>, Some(beacon), now_ms),
            outcome,
        ),
        address::lan(source),
        beacon.protocol@ == "file-sharer.v2"@,
        beacon.id@ != old(service)@.identity.id,
    ensures
        final(service)@.devices.contains_key(beacon.id@),
        final(service)@.devices[beacon.id@].id == beacon.id@,
        final(service)@.devices[beacon.id@].name == beacon.name@,
        final(service)@.devices[beacon.id@].platform == beacon.platform@,
        final(service)@.devices[beacon.id@].address == source_text@,
        final(service)@.devices[beacon.id@].port == beacon.port,
        final(service)@.devices[beacon.id@].last_seen_ms == now_ms,
        final(service)@.devices[beacon.id@].crypto_public_key == beacon.crypto_public_key@,
        other != beacon.id@ ==> final(service)@.devices.contains_key(other) == old(
            service,
        )@.devices.contains_key(other),
        other != beacon.id@ && old(service)@.devices.contains_key(other)
            ==> final(service)@.devices[other] == old(service)@.devices[other],
        outcome.discovered is Some <==> !old(service)@.devices.contains_key(beacon.id@),
        outcome.discovered matches Some(device) ==> device@
            == final(service)@.devices[beacon.id@],
        outcome.lost is None,
        outcome.reply == old(service)@.discovery_enabled,
        final(service)@.last_new_device_ms == (if old(service)@.devices.contains_key(beacon.id@) {
            old(service)@.last_new_device_ms
        } else {
            now_ms
        }),
        final(service)@.identity == old(service)@.identity,
        final(service)@.keys == old(service)@.keys,
        final(service)@.history == old(service)@.history,
        final(service)@.cancelled == old(service)@.cancelled,
        final(service)@.samples == old(service)@.samples,
        final(service)@.discovery_enabled == old(service)@.discovery_enabled,
{
}

/// A leave of another device from the local network has that device forgotten, and no other, and is
/// told of only if it was known. It is not answered.
pub proof fn law_goodbye_has_a_device_forgotten(
    service: &mut NetworkService,
    source: IpAddress,
    source_text: &str,
    goodbye: Goodbye,
    now_ms: u128,
    outcome: PacketOutcome,
    other: Seq<char>,
)
    requires
        call_ensures(
            NetworkService::receive_packet,
            (service, &source, source_text, None::<Probe>, Some(goodbye), None::<Beacon>, now_ms),
            outcome,
        ),
        address::lan(source),
        goodbye.protocol@ == "file-sharer.v2.goodbye"@,
        goodbye.id@ != old(service)@.identity.id,
    ensures
        !final(service)@.devices.contains_key(goodbye.id@),
        other != goodbye.id@ ==> final(service)@.devices.contains_key(other) == old(
            service,
        )@.devices.contains_key(other),
        other != goodbye.id@ && old(service)@.devices.contains_key(other)
            ==> final(service)@.devices[other] == old(service)@.devices[other],
        outcome.lost is Some <==> old(service)@.devices.contains_key(goodbye.id@),
        outcome.lost matches Some(id) ==> id@ == goodbye.id@,
        outcome.discovered is None,
        !outcome.reply,
        final(service)@.last_new_device_ms == old(service)@.last_new_device_ms,
{
}

/// A probe from the local network changes nothing, and is answered if the device makes itself known.
pub proof fn law_probe_is_answered(
    service: &mut NetworkService,
    source: IpAddress,
    source_text: &str,
    probe: Probe,
    now_ms: u128,
    outcome: PacketOutcome,
)
    requires
        call_ensures(
            NetworkService::receive_packet,
            (service, &source, source_text, Some(probe), None::<Goodbye>, None::<Beacon>, now_ms),
            outcome,
        ),
        address::lan(source),
        probe.protocol@ == "file-sharer.v2.probe"@,
    ensures
        final(service)@ == old(service)@,
        outcome.reply == old(service)@.discovery_enabled,
        outcome.discovered is None,
        outcome.lost is None,
{
}

/// A packet from outside the local network changes nothing and is not answered, whatever it says. Nor
/// does one that is not marked as anything, or that comes from the device itself.
pub proof fn law_strange_packets_are_ignored(
    service: &mut NetworkService,
    source: IpAddress,
    source_text: &str,
    probe: Option<Probe>,
    goodbye: Option<Goodbye>,
    beacon: Option<Beacon>,
    now_ms: u128,
    outcome: PacketOutcome,
)
    requires
        call_ensures(
            NetworkService::receive_packet,
            (service, &source, source_text, probe, goodbye, beacon, now_ms),
            outcome,
        ),
        !address::lan(source) || {
            &&& probe matches Some(asked) ==> asked.protocol@ != "file-sharer.v2.probe"@
            &&& goodbye matches Some(left) ==> left.protocol@ != "file-sharer.v2.goodbye"@
                || left.id@ == old(service)@.identity.id
            &&& beacon matches Some(seen) ==> seen.protocol@ != "file-sharer.v2"@ || seen.id@
                == old(service)@.identity.id
        },
    ensures
        final(service)@ == old(service)@,
        !outcome.reply,
        outcome.discovered is None,
        outcome.lost is None,
{
}

/// Files are sent to the device that was chosen, as it was last seen, if it was seen within the last
/// six seconds; otherwise it is said what is missing: the files, the choice or the device.
pub proof fn law_files_go_to_the_chosen_device(
    service: &mut NetworkService,
    paths: Vec<String>,
    target_id: Option<String>,
    now_ms: u128,
    chosen: SendTarget,
)
    requires
        call_ensures(NetworkService::send_files, (service, &paths, target_id, now_ms), chosen),
    ensures
        paths@.len() == 0 ==> chosen.target == Err::<DeviceInfo, SendError>(SendError::NoFiles),
        paths@.len() > 0 && target_id is None ==> chosen.target == Err::<DeviceInfo, SendError>(
            SendError::NoTarget,
        ),
        target_id matches Some(id) ==> paths@.len() > 0 ==> if old(
            service,
        )@.devices.contains_key(id@) && now_ms - old(service)@.devices[id@].last_seen_ms <= 6000 {
            chosen.target matches Ok(target) && target@ == old(service)@.devices[id@]
        } else {
            chosen.target == Err::<DeviceInfo, SendError>(SendError::TargetOffline)
        },
        paths@.len() == 0 || target_id is None ==> final(service)@ == old(service)@
            && chosen.lost@.len() == 0,
        final(service)@.identity == old(service)@.identity,
        final(service)@.history == old(service)@.history,
        final(service)@.cancelled == old(service)@.cancelled,
{
}

/// Sending starts with the first of the paths, for a device with an address on the local network.
pub proof fn law_sending_starts_on_the_local_network(
    target: DeviceInfo,
    address: Result<IpAddress, String>,
    paths: Vec<String>,
    fit: Result<(), SendError>,
    started: Result<(Batch, BatchAction), SendError>,
)
    requires
        call_ensures(service::check_target, (address,), fit),
        call_ensures(service::start_sending, (target, address, paths), started),
    ensures
        address matches Err(cause) ==> fit == Err::<(), SendError>(
            SendError::AddressInvalid(cause),
        ),
        address matches Ok(parsed) ==> (fit is Ok <==> address::lan(parsed)),
        address matches Ok(parsed) ==> !address::lan(parsed) ==> fit == Err::<(), SendError>(
            SendError::TargetOutside,
        ),
        paths@.len() == 0 ==> started == Err::<(Batch, BatchAction), SendError>(
            SendError::NoFiles,
        ),
        paths@.len() > 0 ==> (started is Ok <==> fit is Ok),
        fit matches Err(error) ==> paths@.len() > 0 ==> started == Err::<
            (Batch, BatchAction),
            SendError,
        >(error),
        started matches Ok(first) ==> (first.1 matches BatchAction::Find(None, path) && path@
            == paths@[0]@),
        started matches Ok(first) ==> first.0@.target == target@ && first.0@.paths.len()
            == paths@.len() && first.0@.receipts.len() == 0,
{
    if paths@.len() > 0 {
        assert(text::texts(paths@)[0] == paths@[0]@);
    }
    if let Ok(first) = started {
        match first.1 {
            BatchAction::Find(told, _) => {
                assert(incoming::told(told) is None);
            },
            _ => {},
        }
    }
}

/// Nothing more of a file is read once its transfer was cancelled.
pub proof fn law_nothing_is_read_of_a_cancelled_file(
    service: NetworkService,
    outgoing: Outgoing,
    event: OutgoingEvent,
    now_ms: u128,
    step: (Outgoing, OutgoingAction),
    id: Option<String>,
)
    requires
        call_ensures(Outgoing::transfer_id, (&outgoing,), id),
        id matches Some(known) && service@.cancelled.contains(known@),
        call_ensures(NetworkService::send_file, (&service, outgoing, event, now_ms), step),
    ensures
        !(step.1 is Read),
        !(step.1 is Scan),
        !(step.1 is Write),
{
}

/// A batch remembers a file that was sent, and nothing else changes what is remembered.
pub proof fn law_batch_remembers_what_was_sent(
    service: &mut NetworkService,
    batch: Batch,
    event: OutgoingEvent,
    now_ms: u128,
    step: (Batch, BatchAction),
)
    requires
        old(service)@.history.len() <= 100,
        call_ensures(NetworkService::send_next, (service, batch, event, now_ms), step),
    ensures
        step.0@.receipts.len() == batch@.receipts.len() ==> final(service)@.history == old(
            service,
        )@.history,
        step.0@.receipts.len() > batch@.receipts.len() ==> ({
            &&& step.0@.receipts.len() == batch@.receipts.len() + 1
            &&& final(service)@.history.len() > 0
            &&& final(service)@.history.last().direction == TransferDirection::Sent
            &&& final(service)@.history.last().file_name == step.0@.receipts.last().file_name
            &&& final(service)@.history.last().bytes == step.0@.receipts.last().bytes
            &&& final(service)@.history.last().peer_name == step.0@.receipts.last().target_name
            &&& final(service)@.history.last().saved_path is None
            &&& final(service)@.history.last().timestamp_ms == now_ms
        }),
        final(service)@.identity == old(service)@.identity,
        final(service)@.keys == old(service)@.keys,
        final(service)@.devices == old(service)@.devices,
        final(service)@.cancelled == old(service)@.cancelled,
        final(service)@.samples == old(service)@.samples,
        final(service)@.discovery_enabled == old(service)@.discovery_enabled,
{
}

/// A connection remembers a file that is kept, and nothing else changes what is remembered.
pub proof fn law_connection_remembers_what_is_kept(
    service: &mut NetworkService,
    incoming: Incoming,
    event: IncomingEvent,
    now_ms: u128,
    step: (Incoming, IncomingAction),
)
    requires
        old(service)@.history.len() <= 100,
        call_ensures(NetworkService::receive_next, (service, incoming, event, now_ms), step),
    ensures
        step.1 matches IncomingAction::Keep(kept, _, _) ==> final(service)@.history.len() > 0
            && final(service)@.history.last() == kept@,
        !(step.1 is Keep) ==> final(service)@.history == old(service)@.history,
        final(service)@.identity == old(service)@.identity,
        final(service)@.keys == old(service)@.keys,
        final(service)@.devices == old(service)@.devices,
        final(service)@.cancelled == old(service)@.cancelled,
        final(service)@.samples == old(service)@.samples,
        final(service)@.discovery_enabled == old(service)@.discovery_enabled,
{
}

/// A transfer is measured from one note to the next, when more than a tenth of a second has passed and
/// bytes have been moved; others are not touched, and one that ends is not noted any more.
pub proof fn law_progress_is_measured(
    service: &mut NetworkService,
    progress: TransferProgress,
    now_ms: u128,
    measurement: Option<Measurement>,
    other: Seq<char>,
)
    requires
        call_ensures(NetworkService::emit_progress, (service, &progress, now_ms), measurement),
    ensures
        ({
            let id = progress.transfer_id@;
            let last = old(service)@.samples[id];
            let due = progress.phase == TransferPhase::Progress && old(
                service,
            )@.samples.contains_key(id) && now_ms - last.0 > 100 && progress.bytes_transferred
                > last.1;
            &&& measurement is Some <==> due
            &&& measurement matches Some(found) ==> found.elapsed_ms == now_ms - last.0
                && found.bytes == progress.bytes_transferred - last.1
            &&& due || progress.phase == TransferPhase::Started
                ==> final(service)@.samples.contains_key(id) && final(service)@.samples[id] == (
                now_ms,
                progress.bytes_transferred,
            )
            &&& progress.phase == TransferPhase::Finished || progress.phase
                == TransferPhase::Failed ==> !final(service)@.samples.contains_key(id)
            &&& progress.phase == TransferPhase::Progress && !due ==> final(service)@.samples
                == old(service)@.samples
            &&& other != id ==> final(service)@.samples.contains_key(other) == old(
                service,
            )@.samples.contains_key(other)
            &&& other != id && old(service)@.samples.contains_key(other)
                ==> final(service)@.samples[other] == old(service)@.samples[other]
        }),
        final(service)@.history == old(service)@.history,
        final(service)@.devices == old(service)@.devices,
        final(service)@.cancelled == old(service)@.cancelled,
        final(service)@.identity == old(service)@.identity,
{
}

} // verus!
