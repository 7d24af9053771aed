//! The devices that have been seen on the network.

use crate::text;
use vstd::prelude::*;

verus! {

/// How long a device is taken to be there after it was last seen, in milliseconds.
pub const DEVICE_TTL_MS: u128 = 6_000;

/// A device that was seen.
pub struct DeviceInfo {
    pub id: String,
    pub name: String,
    pub platform: String,
    pub address: String,
    pub port: u16,
    pub last_seen_ms: u128,
    pub crypto_public_key: String,
}

/// A device that was seen, by its texts.
#[verifier::ext_equal]
pub struct DeviceView {
    pub id: Seq<char>,
    pub name: Seq<char>,
    pub platform: Seq<char>,
    pub address: Seq<char>,
    pub port: u16,
    pub last_seen_ms: u128,
    pub crypto_public_key: Seq<char>,
}

impl View for DeviceInfo {
    type V = DeviceView;

    open spec fn view(&self) -> DeviceView {
        DeviceView {
            id: self.id@,
            name: self.name@,
            platform: self.platform@,
            address: self.address@,
            port: self.port,
            last_seen_ms: self.last_seen_ms,
            crypto_public_key: self.crypto_public_key@,
        }
    }
}

impl Clone for DeviceInfo {
    fn clone(&self) -> (copy: Self)
        ensures
            copy@ == self@,
    {
        DeviceInfo {
            id: self.id.clone(),
            name: self.name.clone(),
            platform: self.platform.clone(),
            address: self.address.clone(),
            port: self.port,
            last_seen_ms: self.last_seen_ms,
            crypto_public_key: self.crypto_public_key.clone(),
        }
    }
}

/// A list of devices by their texts.
pub open spec fn device_views(devices: Seq<DeviceInfo>) -> Seq<DeviceView> {
    Seq::new(devices.len(), |index: int| devices[index]@)
}

/// Whether a list names every key of a set once, and nothing else.
pub open spec fn lists(ids: Seq<Seq<char>>, set: Set<Seq<char>>) -> bool {
    &&& ids.no_duplicates()
    &&& forall|id: Seq<char>| #[trigger] ids.contains(id) <==> set.contains(id)
}

/// Whether a device that was last seen at a time is taken to be there at another.
pub open spec fn is_live(device: DeviceView, now_ms: u128) -> bool {
    now_ms - device.last_seen_ms <= DEVICE_TTL_MS
}

/// Whether a text comes before another or is the same, by the code points of the first characters
/// that differ.
pub open spec fn precedes(left: Seq<char>, right: Seq<char>) -> bool
    decreases left.len(),
{
    if left.len() == 0 {
        true
    } else if right.len() == 0 {
        false
    } else if left[0] != right[0] {
        left[0] < right[0]
    } else {
        precedes(left.skip(1), right.skip(1))
    }
}

/// Of two texts one comes before the other or is the same.
pub proof fn lemma_precedes_total(left: Seq<char>, right: Seq<char>)
    ensures
        precedes(left, right) || precedes(right, left),
    decreases left.len(),
{
    if left.len() > 0 && right.len() > 0 && left[0] == right[0] {
        lemma_precedes_total(left.skip(1), right.skip(1));
    }
}

/// What comes before a text comes before what the text comes before.
pub proof fn lemma_precedes_transitive(first: Seq<char>, second: Seq<char>, third: Seq<char>)
    requires
        precedes(first, second),
        precedes(second, third),
    ensures
        precedes(first, third),
    decreases first.len(),
{
    if first.len() > 0 && second.len() > 0 && third.len() > 0 && first[0] == second[0] && second[0]
        == third[0] {
        lemma_precedes_transitive(first.skip(1), second.skip(1), third.skip(1));
    }
}

/// Whether a text comes before another or is the same.
fn comes_first(left: &str, right: &str) -> (yes: bool)
    ensures
        yes == precedes(left@, right@),
{
    let l = text::chars_of(left);
    let r = text::chars_of(right);
    let mut index: usize = 0;
    assert(l@.skip(0) =~= l@);
    assert(r@.skip(0) =~= r@);
    while index < l.len() && index < r.len() && l[index] == r[index]
        invariant
            index <= l@.len(),
            index <= r@.len(),
            l@ == left@,
            r@ == right@,
            precedes(l@.skip(index as int), r@.skip(index as int)) == precedes(left@, right@),
        decreases l@.len() - index,
    {
        proof {
            assert(l@.skip(index as int)[0] == l@[index as int]);
            assert(r@.skip(index as int)[0] == r@[index as int]);
            assert(l@.skip(index as int).skip(1) =~= l@.skip(index + 1));
            assert(r@.skip(index as int).skip(1) =~= r@.skip(index + 1));
        }
        index = index + 1;
    }
    proof {
        assert(index < l@.len() ==> l@.skip(index as int)[0] == l@[index as int]);
        assert(index < r@.len() ==> r@.skip(index as int)[0] == r@[index as int]);
    }
    if index == l.len() {
        true
    } else if index == r.len() {
        false
    } else {
        l[index] < r[index]
    }
}

/// Whether devices come in the order of their names.
pub open spec fn in_name_order(devices: Seq<DeviceView>) -> bool {
    forall|left: int, right: int|
        0 <= left < right < devices.len() ==> precedes(
            (#[trigger] devices[left]).name,
            (#[trigger] devices[right]).name,
        )
}

/// Whether no two devices have the same id.
pub open spec fn distinct_ids(devices: Seq<DeviceView>) -> bool {
    forall|left: int, right: int|
        0 <= left < right < devices.len() ==> (#[trigger] devices[left]).id != (
        #[trigger] devices[right]).id
}

/// Whether a device of the list has the id.
pub open spec fn has_id(devices: Seq<DeviceView>, id: Seq<char>) -> bool {
    exists|index: int| 0 <= index < devices.len() && (#[trigger] devices[index]).id == id
}

/// The devices of a list by their ids.
pub open spec fn by_id(devices: Seq<DeviceView>) -> Map<Seq<char>, DeviceView> {
    Map::new(
        |id: Seq<char>| has_id(devices, id),
        |id: Seq<char>|
            devices[choose|index: int|
                0 <= index < devices.len() && (#[trigger] devices[index]).id == id],
    )
}

/// Each device of a list without repeated ids is found by its id.
proof fn lemma_found_by_id(devices: Seq<DeviceView>, index: int)
    requires
        distinct_ids(devices),
        0 <= index < devices.len(),
    ensures
        by_id(devices).contains_key(devices[index].id),
        by_id(devices)[devices[index].id] == devices[index],
{
    let id = devices[index].id;
    assert(has_id(devices, id));
    let found = choose|at: int| 0 <= at < devices.len() && (#[trigger] devices[at]).id == id;
    assert(devices[found].id == id);
}

/// A list of devices that has the same ids and devices as a map says is that map by ids.
proof fn lemma_is_by_id(devices: Seq<DeviceView>, map: Map<Seq<char>, DeviceView>)
    requires
        distinct_ids(devices),
        forall|index: int|
            0 <= index < devices.len() ==> map.contains_key((#[trigger] devices[index]).id)
                && map[devices[index].id] == devices[index],
        forall|id: Seq<char>| #[trigger] map.contains_key(id) ==> has_id(devices, id),
    ensures
        by_id(devices) == map,
{
    assert forall|id: Seq<char>| #[trigger] by_id(devices).contains_key(id) implies
        map.contains_key(id) && by_id(devices)[id] == map[id] by {
        let found = choose|at: int| 0 <= at < devices.len() && (#[trigger] devices[at]).id == id;
        assert(devices[found].id == id);
        lemma_found_by_id(devices, found);
    }
    assert(by_id(devices) =~= map);
}

/// The devices that have been seen, each once.
pub struct DeviceTable {
    devices: Vec<DeviceInfo>,
}

impl View for DeviceTable {
    type V = Map<Seq<char>, DeviceView>;

    closed spec fn view(&self) -> Map<Seq<char>, DeviceView> {
        by_id(device_views(self.devices@))
    }
}

/// The devices of a map that are taken to be there at a time.
pub open spec fn live_devices(devices: Map<Seq<char>, DeviceView>, now_ms: u128) -> Map<
    Seq<char>,
    DeviceView,
> {
    devices.restrict(live_ids(devices, now_ms))
}

/// The ids of the devices of a map that are taken to be there at a time.
pub open spec fn live_ids(devices: Map<Seq<char>, DeviceView>, now_ms: u128) -> Set<Seq<char>> {
    devices.dom().filter(|id: Seq<char>| is_live(devices[id], now_ms))
}

impl DeviceTable {
    /// No two devices have the same id.
    pub closed spec fn wf(&self) -> bool {
        distinct_ids(device_views(self.devices@))
    }

    /// A table without devices.
    pub fn new() -> (table: DeviceTable)
        ensures
            table.wf(),
            table@ == Map::<Seq<char>, DeviceView>::empty(),
    {
        let table = DeviceTable { devices: Vec::new() };
        assert(table@ =~= Map::<Seq<char>, DeviceView>::empty());
        table
    }

    /// The place of the device with an id, or the number of devices.
    fn place_of(&self, id: &str) -> (place: usize)
        requires
            self.wf(),
        ensures
            place <= self.devices@.len(),
            place < self.devices@.len() <==> self@.contains_key(id@),
            place < self.devices@.len() ==> self.devices@[place as int].id@ == id@ && self@[id@]
                == self.devices@[place as int]@,
    {
        let mut place: usize = 0;
        while place < self.devices.len() && !text::same_text(self.devices[place].id.as_str(), id)
            invariant
                place <= self.devices@.len(),
                forall|index: int| 0 <= index < place ==> self.devices@[index].id@ != id@,
            decreases self.devices@.len() - place,
        {
            place = place + 1;
        }
        proof {
            let views = device_views(self.devices@);
            if place < views.len() {
                lemma_found_by_id(views, place as int);
                assert(views[place as int].id == id@);
            } else if has_id(views, id@) {
                let at = choose|at: int| 0 <= at < views.len() && (#[trigger] views[at]).id == id@;
                assert(views[at].id == self.devices@[at].id@);
            }
        }
        place
    }

    /// The device with an id, if there is one.
    pub fn get(&self, id: &str) -> (device: Option<DeviceInfo>)
        requires
            self.wf(),
        ensures
            match device {
                Some(found) => self@.contains_key(id@) && found@ == self@[id@],
                None => !self@.contains_key(id@),
            },
    {
        let place: usize = self.place_of(id);
        if place < self.devices.len() {
            Some(self.devices[place].clone())
        } else {
            None
        }
    }

    /// Remembers a device under its id, and says whether there was none under that id.
    pub fn insert(&mut self, device: DeviceInfo) -> (is_new: bool)
        requires
            old(self).wf(),
        ensures
            final(self).wf(),
            final(self)@ == old(self)@.insert(device@.id, device@),
            is_new == !old(self)@.contains_key(device@.id),
    {
        let place: usize = self.place_of(device.id.as_str());
        let ghost before = device_views(self.devices@);
        let ghost map = self@;
        let ghost seen = device@;
        let is_new: bool = place == self.devices.len();
        if is_new {
            self.devices.push(device);
        } else {
            self.devices.set(place, device);
        }
        proof {
            let after = device_views(self.devices@);
            assert(is_new ==> after =~= before.push(seen));
            assert(!is_new ==> after =~= before.update(place as int, seen));
            assert forall|index: int| 0 <= index < before.len() implies map.contains_key(
                (#[trigger] before[index]).id,
            ) && map[before[index].id] == before[index] by {
                lemma_found_by_id(before, index);
            }
            assert(!is_new ==> before[place as int].id == seen.id);
            assert forall|left: int, right: int| 0 <= left < right < after.len() implies (
            #[trigger] after[left]).id != (#[trigger] after[right]).id by {
                if right < before.len() {
                    assert(before[left].id != before[right].id);
                } else {
                    assert(map.contains_key(before[left].id));
                }
            }
            let wanted = map.insert(seen.id, seen);
            assert forall|index: int| 0 <= index < after.len() implies wanted.contains_key(
                (#[trigger] after[index]).id,
            ) && wanted[after[index].id] == after[index] by {
                if index != place {
                    assert(after[index] == before[index]);
                    assert(after[place as int].id == seen.id);
                }
            }
            assert forall|id: Seq<char>| #[trigger] wanted.contains_key(id) implies has_id(
                after,
                id,
            ) by {
                if id == seen.id {
                    assert(after[place as int].id == id);
                } else {
                    let at = choose|at: int|
                        0 <= at < before.len() && (#[trigger] before[at]).id == id;
                    assert(after[at] == before[at]);
                }
            }
            lemma_is_by_id(after, wanted);
        }
        is_new
    }

    /// Forgets the device with an id, and says whether there was one.
    pub fn remove(&mut self, id: &str) -> (removed: bool)
        requires
            old(self).wf(),
        ensures
            final(self).wf(),
            final(self)@ == old(self)@.remove(id@),
            removed == old(self)@.contains_key(id@),
    {
        let place: usize = self.place_of(id);
        let ghost before = device_views(self.devices@);
        let ghost map = self@;
        if place == self.devices.len() {
            assert(map.remove(id@) =~= map);
            return false;
        }
        self.devices.remove(place);
        proof {
            let after = device_views(self.devices@);
            let wanted = map.remove(id@);
            assert(after =~= before.remove(place as int));
            assert forall|index: int| 0 <= index < before.len() implies map.contains_key(
                (#[trigger] before[index]).id,
            ) && map[before[index].id] == before[index] by {
                lemma_found_by_id(before, index);
            }
            assert forall|left: int, right: int| 0 <= left < right < after.len() implies (
            #[trigger] after[left]).id != (#[trigger] after[right]).id by {
                let from = if left < place {
                    left
                } else {
                    left + 1
                };
                let to = if right < place {
                    right
                } else {
                    right + 1
                };
                assert(before[from].id != before[to].id);
            }
            assert forall|index: int| 0 <= index < after.len() implies wanted.contains_key(
                (#[trigger] after[index]).id,
            ) && wanted[after[index].id] == after[index] by {
                let from = if index < place {
                    index
                } else {
                    index + 1
                };
                assert(after[index] == before[from]);
                assert(before[place as int].id == id@);
                if from < place {
                    assert(before[from].id != before[place as int].id);
                } else {
                    assert(before[place as int].id != before[from].id);
                }
            }
            assert forall|key: Seq<char>| #[trigger] wanted.contains_key(key) implies has_id(
                after,
                key,
            ) by {
                let at = choose|at: int| 0 <= at < before.len() && (#[trigger] before[at]).id
                    == key;
                assert(before[at].id == key);
                if at < place {
                    assert(after[at] == before[at]);
                } else {
                    assert(after[at - 1] == before[at]);
                }
            }
            lemma_is_by_id(after, wanted);
        }
        true
    }

    /// Forgets all devices, and lists the ids of those there were.
    pub fn clear(&mut self) -> (lost: Vec<String>)
        requires
            old(self).wf(),
        ensures
            final(self).wf(),
            final(self)@ == Map::<Seq<char>, DeviceView>::empty(),
            lists(text::texts(lost@), old(self)@.dom()),
    {
        let ghost views = device_views(self.devices@);
        let mut lost: Vec<String> = Vec::new();
        let mut index: usize = 0;
        while index < self.devices.len()
            invariant
                index <= self.devices@.len(),
                views == device_views(self.devices@),
                *self == *old(self),
                lost@.len() == index,
                forall|at: int| 0 <= at < index ==> (#[trigger] lost@[at])@ == views[at].id,
            decreases self.devices@.len() - index,
        {
            lost.push(self.devices[index].id.clone());
            index = index + 1;
        }
        self.devices.clear();
        proof {
            let ids = text::texts(lost@);
            assert forall|id: Seq<char>| #[trigger] ids.contains(id) <==> old(
                self,
            )@.dom().contains(id) by {
                if ids.contains(id) {
                    let at = choose|at: int| 0 <= at < ids.len() && ids[at] == id;
                    assert(lost@[at]@ == views[at].id);
                    lemma_found_by_id(views, at);
                }
                if old(self)@.contains_key(id) {
                    let at = choose|at: int|
                        0 <= at < views.len() && (#[trigger] views[at]).id == id;
                    assert(views[at].id == id);
                    assert(ids[at] == lost@[at]@);
                }
            }
            assert forall|left: int, right: int|
                0 <= left < ids.len() && 0 <= right < ids.len() && left != right implies ids[left]
                != ids[right] by {
                assert(lost@[left]@ == views[left].id);
                assert(lost@[right]@ == views[right].id);
            }
            assert(self@ =~= Map::<Seq<char>, DeviceView>::empty());
        }
        lost
    }

    /// Forgets the devices that are no longer taken to be there, and lists their ids.
    pub fn expire(&mut self, now_ms: u128) -> (lost: Vec<String>)
        requires
            old(self).wf(),
        ensures
            final(self).wf(),
            final(self)@ == live_devices(old(self)@, now_ms),
            lists(
                text::texts(lost@),
                old(self)@.dom().difference(live_ids(old(self)@, now_ms)),
            ),
    {
        let ghost start = device_views(self.devices@);
        let ghost map = self@;
        let mut lost: Vec<String> = Vec::new();
        let mut kept: Vec<DeviceInfo> = Vec::new();
        let mut index: usize = 0;
        let ghost mut kept_from: Seq<int> = Seq::empty();
        let ghost mut lost_from: Seq<int> = Seq::empty();
        while index < self.devices.len()
            invariant
                index <= self.devices@.len(),
                start == device_views(self.devices@),
                *self == *old(self),
                split_by_life(start, now_ms, index as int, kept_from, lost_from),
                kept_from.len() == kept@.len(),
                forall|at: int|
                    0 <= at < kept@.len() ==> (#[trigger] kept@[at])@ == start[kept_from[at]],
                lost_from.len() == lost@.len(),
                forall|at: int|
                    0 <= at < lost@.len() ==> (#[trigger] lost@[at])@ == start[lost_from[at]].id,
            decreases self.devices@.len() - index,
        {
            let device = &self.devices[index];
            assert(device@ == start[index as int]);
            let age: u128 = if now_ms > device.last_seen_ms {
                now_ms - device.last_seen_ms
            } else {
                0
            };
            if age > DEVICE_TTL_MS {
                lost.push(device.id.clone());
                proof {
                    lemma_split_step(start, now_ms, index as int, kept_from, lost_from);
                    lost_from = lost_from.push(index as int);
                }
            } else {
                kept.push(device.clone());
                proof {
                    lemma_split_step(start, now_ms, index as int, kept_from, lost_from);
                    kept_from = kept_from.push(index as int);
                }
            }
            index = index + 1;
        }
        self.devices = kept;
        proof {
            let after = device_views(self.devices@);
            let wanted = live_devices(map, now_ms);
            assert(after =~= Seq::new(kept_from.len(), |at: int| start[kept_from[at]]));
            lemma_kept(start, now_ms, kept_from, lost_from);
            let ids = text::texts(lost@);
            assert(ids =~= Seq::new(lost_from.len(), |at: int| start[lost_from[at]].id));
            lemma_lost(start, now_ms, kept_from, lost_from);
        }
        lost
    }

    /// The devices, in the order of their names.
    pub fn sorted(&self) -> (list: Vec<DeviceInfo>)
        requires
            self.wf(),
        ensures
            in_name_order(device_views(list@)),
            distinct_ids(device_views(list@)),
            by_id(device_views(list@)) == self@,
    {
        let ghost views = device_views(self.devices@);
        let mut list: Vec<DeviceInfo> = Vec::new();
        let mut index: usize = 0;
        while index < self.devices.len()
            invariant
                index <= self.devices@.len(),
                self.wf(),
                views == device_views(self.devices@),
                list@.len() == index,
                in_name_order(device_views(list@)),
                distinct_ids(device_views(list@)),
                is_shuffle(device_views(list@), views.take(index as int)),
            decreases self.devices@.len() - index,
        {
            let device = self.devices[index].clone();
            let ghost before = device_views(list@);
            let ghost item = device@;
            let mut place: usize = list.len();
            while place > 0 && !comes_first(list[place - 1].name.as_str(), device.name.as_str())
                invariant
                    place <= list@.len(),
                    before == device_views(list@),
                    item == device@,
                    forall|at: int|
                        place <= at < before.len() ==> !precedes(
                            (#[trigger] before[at]).name,
                            item.name,
                        ),
                decreases place,
            {
                assert(before[place - 1].name == list@[place - 1].name@);
                place = place - 1;
            }
            assert(place > 0 ==> before[place - 1].name == list@[place - 1].name@);
            list.insert(place, device);
            proof {
                let after = device_views(list@);
                assert(after =~= before.insert(place as int, item));
                assert(item == views[index as int]);
                let taken = views.take(index as int);
                assert(views.take(index + 1) =~= taken.push(item));
                assert(distinct_ids(taken.push(item))) by {
                    assert forall|left: int, right: int|
                        0 <= left < right < taken.push(item).len() implies (
                    #[trigger] taken.push(item)[left]).id != (#[trigger] taken.push(
                        item,
                    )[right]).id by {
                        assert(views[left].id != views[right].id);
                    }
                }
                lemma_insert_in_order(before, place as int, item);
                lemma_insert_shuffles(before, taken, place as int, item);
            }
            index = index + 1;
        }
        proof {
            assert(views.take(views.len() as int) =~= views);
            let sorted = device_views(list@);
            assert forall|at: int| 0 <= at < sorted.len() implies self@.contains_key(
                (#[trigger] sorted[at]).id,
            ) && self@[sorted[at].id] == sorted[at] by {
                let from = choose|from: int| 0 <= from < views.len() && views[from] == sorted[at];
                lemma_found_by_id(views, from);
            }
            assert forall|id: Seq<char>| #[trigger] self@.contains_key(id) implies has_id(
                sorted,
                id,
            ) by {
                let from = choose|from: int| 0 <= from < views.len() && (
                #[trigger] views[from]).id == id;
                assert(sorted.contains(views[from]));
                let at = choose|at: int| 0 <= at < sorted.len() && sorted[at] == views[from];
                assert(sorted[at].id == id);
            }
            lemma_is_by_id(sorted, self@);
        }
        list
    }
}

/// Whether two lists hold the same devices.
spec fn is_shuffle(left: Seq<DeviceView>, right: Seq<DeviceView>) -> bool {
    &&& forall|index: int| 0 <= index < left.len() ==> right.contains(#[trigger] left[index])
    &&& forall|index: int| 0 <= index < right.len() ==> left.contains(#[trigger] right[index])
}

/// Putting a device behind those that come before it and before the others keeps the order.
proof fn lemma_insert_in_order(devices: Seq<DeviceView>, place: int, device: DeviceView)
    requires
        in_name_order(devices),
        0 <= place <= devices.len(),
        place > 0 ==> precedes(devices[place - 1].name, device.name),
        forall|at: int|
            place <= at < devices.len() ==> !precedes((#[trigger] devices[at]).name, device.name),
    ensures
        in_name_order(devices.insert(place, device)),
{
    let after = devices.insert(place, device);
    assert forall|left: int, right: int| 0 <= left < right < after.len() implies precedes(
        (#[trigger] after[left]).name,
        (#[trigger] after[right]).name,
    ) by {
        if right < place {
            assert(precedes(devices[left].name, devices[right].name));
        } else if right == place {
            assert(after[left] == devices[left]);
            if left < place - 1 {
                assert(precedes(devices[left].name, devices[place - 1].name));
                lemma_precedes_transitive(
                    devices[left].name,
                    devices[place - 1].name,
                    device.name,
                );
            }
        } else {
            assert(after[right] == devices[right - 1]);
            if left < place {
                assert(precedes(devices[left].name, devices[right - 1].name));
            } else if left == place {
                lemma_precedes_total(devices[right - 1].name, device.name);
            } else {
                assert(precedes(devices[left - 1].name, devices[right - 1].name));
            }
        }
    }
}

/// Putting a device anywhere into a list is as good as putting it at the end.
proof fn lemma_insert_shuffles(
    left: Seq<DeviceView>,
    right: Seq<DeviceView>,
    place: int,
    device: DeviceView,
)
    requires
        is_shuffle(left, right),
        distinct_ids(left),
        distinct_ids(right.push(device)),
        0 <= place <= left.len(),
    ensures
        is_shuffle(left.insert(place, device), right.push(device)),
        distinct_ids(left.insert(place, device)),
{
    let after = left.insert(place, device);
    let longer = right.push(device);
    assert forall|index: int| 0 <= index < after.len() implies longer.contains(
        #[trigger] after[index],
    ) by {
        if index == place {
            assert(longer[right.len() as int] == device);
        } else {
            let from = if index < place {
                index
            } else {
                index - 1
            };
            assert(after[index] == left[from]);
            let at = choose|at: int| 0 <= at < right.len() && right[at] == left[from];
            assert(longer[at] == left[from]);
        }
    }
    assert forall|index: int| 0 <= index < longer.len() implies after.contains(
        #[trigger] longer[index],
    ) by {
        if index == right.len() {
            assert(after[place] == device);
        } else {
            assert(longer[index] == right[index]);
            let at = choose|at: int| 0 <= at < left.len() && left[at] == right[index];
            if at < place {
                assert(after[at] == right[index]);
            } else {
                assert(after[at + 1] == right[index]);
            }
        }
    }
    assert forall|index: int| 0 <= index < left.len() implies (#[trigger] left[index]).id
        != device.id by {
        let at = choose|at: int| 0 <= at < right.len() && right[at] == left[index];
        assert(longer[at].id != longer[right.len() as int].id);
    }
    assert forall|first: int, second: int| 0 <= first < second < after.len() implies (
    #[trigger] after[first]).id != (#[trigger] after[second]).id by {
        let from = if first < place {
            first
        } else {
            first - 1
        };
        let to = if second < place {
            second
        } else {
            second - 1
        };
        if first != place {
            assert(after[first] == left[from]);
        }
        if second != place {
            assert(after[second] == left[to]);
        }
    }
}

/// Whether two lists of places hold those of the live and of the other devices among the first
/// ones of a list, each once, in rising order.
spec fn split_by_life(
    devices: Seq<DeviceView>,
    now_ms: u128,
    upto: int,
    live: Seq<int>,
    other: Seq<int>,
) -> bool {
    &&& 0 <= upto <= devices.len()
    &&& forall|at: int|
        0 <= at < live.len() ==> 0 <= #[trigger] live[at] < upto && is_live(
            devices[live[at]],
            now_ms,
        )
    &&& forall|at: int|
        0 <= at < other.len() ==> 0 <= #[trigger] other[at] < upto && !is_live(
            devices[other[at]],
            now_ms,
        )
    &&& forall|left: int, right: int|
        0 <= left < right < live.len() ==> #[trigger] live[left] < #[trigger] live[right]
    &&& forall|left: int, right: int|
        0 <= left < right < other.len() ==> #[trigger] other[left] < #[trigger] other[right]
    &&& forall|place: int|
        0 <= place < upto ==> #[trigger] live.contains(place) || other.contains(place)
}

/// The next device goes to one of the two lists.
proof fn lemma_split_step(
    devices: Seq<DeviceView>,
    now_ms: u128,
    upto: int,
    live: Seq<int>,
    other: Seq<int>,
)
    requires
        split_by_life(devices, now_ms, upto, live, other),
        upto < devices.len(),
    ensures
        is_live(devices[upto], now_ms) ==> split_by_life(
            devices,
            now_ms,
            upto + 1,
            live.push(upto),
            other,
        ),
        !is_live(devices[upto], now_ms) ==> split_by_life(
            devices,
            now_ms,
            upto + 1,
            live,
            other.push(upto),
        ),
{
    if is_live(devices[upto], now_ms) {
        let more = live.push(upto);
        assert forall|place: int| 0 <= place < upto + 1 implies #[trigger] more.contains(place)
            || other.contains(place) by {
            if place == upto {
                assert(more[live.len() as int] == place);
            } else if live.contains(place) {
                let at = choose|at: int| 0 <= at < live.len() && live[at] == place;
                assert(more[at] == place);
            }
        }
    } else {
        let more = other.push(upto);
        assert forall|place: int| 0 <= place < upto + 1 implies #[trigger] live.contains(place)
            || more.contains(place) by {
            if place == upto {
                assert(more[other.len() as int] == place);
            } else if !live.contains(place) {
                let at = choose|at: int| 0 <= at < other.len() && other[at] == place;
                assert(more[at] == place);
            }
        }
    }
}

/// The devices that are kept are the live ones of the table.
proof fn lemma_kept(devices: Seq<DeviceView>, now_ms: u128, live: Seq<int>, other: Seq<int>)
    requires
        distinct_ids(devices),
        split_by_life(devices, now_ms, devices.len() as int, live, other),
    ensures
        ({
            let kept = Seq::new(live.len(), |at: int| devices[live[at]]);
            &&& distinct_ids(kept)
            &&& by_id(kept) == live_devices(by_id(devices), now_ms)
        }),
{
    let kept = Seq::new(live.len(), |at: int| devices[live[at]]);
    let map = by_id(devices);
    let wanted = live_devices(map, now_ms);
    assert forall|left: int, right: int| 0 <= left < right < kept.len() implies (
    #[trigger] kept[left]).id != (#[trigger] kept[right]).id by {
        assert(live[left] < live[right]);
        assert(devices[live[left]].id != devices[live[right]].id);
    }
    assert forall|at: int| 0 <= at < kept.len() implies wanted.contains_key(
        (#[trigger] kept[at]).id,
    ) && wanted[kept[at].id] == kept[at] by {
        lemma_found_by_id(devices, live[at]);
        assert(live_ids(map, now_ms).contains(kept[at].id));
    }
    assert forall|id: Seq<char>| #[trigger] wanted.contains_key(id) implies has_id(kept, id) by {
        let place = choose|place: int|
            0 <= place < devices.len() && (#[trigger] devices[place]).id == id;
        assert(devices[place].id == id);
        lemma_found_by_id(devices, place);
        assert(live_ids(map, now_ms).contains(id));
        assert(live.contains(place) || other.contains(place));
        if other.contains(place) {
            let at = choose|at: int| 0 <= at < other.len() && other[at] == place;
            assert(!is_live(devices[other[at]], now_ms));
        } else {
            let at = choose|at: int| 0 <= at < live.len() && live[at] == place;
            assert(kept[at].id == id);
        }
    }
    lemma_is_by_id(kept, wanted);
}

/// The ids that are lost are those of the devices of the table that are not live.
proof fn lemma_lost(devices: Seq<DeviceView>, now_ms: u128, live: Seq<int>, other: Seq<int>)
    requires
        distinct_ids(devices),
        split_by_life(devices, now_ms, devices.len() as int, live, other),
    ensures
        lists(
            Seq::new(other.len(), |at: int| devices[other[at]].id),
            by_id(devices).dom().difference(live_ids(by_id(devices), now_ms)),
        ),
{
    let ids = Seq::new(other.len(), |at: int| devices[other[at]].id);
    let map = by_id(devices);
    let gone = map.dom().difference(live_ids(map, now_ms));
    assert forall|left: int, right: int|
        0 <= left < ids.len() && 0 <= right < ids.len() && left != right implies ids[left]
        != ids[right] by {
        let low = if left < right {
            left
        } else {
            right
        };
        let high = if left < right {
            right
        } else {
            left
        };
        assert(other[low] < other[high]);
        assert(devices[other[low]].id != devices[other[high]].id);
    }
    assert forall|id: Seq<char>| #[trigger] ids.contains(id) <==> gone.contains(id) by {
        if ids.contains(id) {
            let at = choose|at: int| 0 <= at < ids.len() && ids[at] == id;
            lemma_found_by_id(devices, other[at]);
            assert(!is_live(devices[other[at]], now_ms));
        }
        if gone.contains(id) {
            let place = choose|place: int|
                0 <= place < devices.len() && (#[trigger] devices[place]).id == id;
            assert(devices[place].id == id);
            lemma_found_by_id(devices, place);
            assert(live.contains(place) || other.contains(place));
            if live.contains(place) {
                let at = choose|at: int| 0 <= at < live.len() && live[at] == place;
                assert(is_live(devices[live[at]], now_ms));
                assert(live_ids(map, now_ms).contains(id));
            } else {
                let at = choose|at: int| 0 <= at < other.len() && other[at] == place;
                assert(ids[at] == id);
            }
        }
    }
}

/// What is said of a device is what stands in its fields.
pub proof fn law_device_is_seen_as_it_is(device: DeviceInfo)
    ensures
        device@.id == device.id@,
        device@.name == device.name@,
        device@.platform == device.platform@,
        device@.address == device.address@,
        device@.port == device.port,
        device@.last_seen_ms == device.last_seen_ms,
        device@.crypto_public_key == device.crypto_public_key@,
{
}

/// A device stays for six seconds after it was last seen, as it was, and is gone after that.
pub proof fn law_devices_stay_for_six_seconds(
    devices: Map<Seq<char>, DeviceView>,
    now_ms: u128,
    id: Seq<char>,
)
    ensures
        ({
            let live = live_devices(devices, now_ms);
            let stays = devices.contains_key(id) && now_ms <= devices[id].last_seen_ms + 6000;
            &&& live.contains_key(id) <==> stays
            &&& stays ==> live[id] == devices[id]
            &&& live_ids(devices, now_ms).contains(id) <==> stays
        }),
{
}

/// A text comes before another if it is the start of it, or has the smaller character where they
/// first differ, and only then.
pub proof fn law_texts_are_ordered_by_the_first_difference(left: Seq<char>, right: Seq<char>)
    ensures
        precedes(left, right) <==> left.is_prefix_of(right) || exists|place: int|
            0 <= place < left.len() && place < right.len() && left.take(place) == right.take(place)
                && #[trigger] left[place] < right[place],
    decreases left.len(),
{
    if left.len() == 0 {
        assert(right.subrange(0, 0) =~= left);
    } else if right.len() == 0 {
    } else if left[0] != right[0] {
        if left.is_prefix_of(right) {
            assert(right.subrange(0, left.len() as int)[0] == left[0]);
        }
        if left[0] < right[0] {
            assert(left.take(0) =~= right.take(0));
        }
        assert forall|place: int|
            0 <= place < left.len() && place < right.len() && left.take(place) == right.take(place)
                && #[trigger] left[place] < right[place] implies place == 0 by {
            if place > 0 {
                assert(left.take(place)[0] == right.take(place)[0]);
            }
        }
    } else {
        let l = left.skip(1);
        let r = right.skip(1);
        law_texts_are_ordered_by_the_first_difference(l, r);
        if l.is_prefix_of(r) {
            assert(right.subrange(0, left.len() as int) =~= left) by {
                assert forall|index: int| 0 <= index < left.len() implies right[index]
                    == left[index] by {
                    if index > 0 {
                        assert(r.subrange(0, l.len() as int)[index - 1] == l[index - 1]);
                    }
                }
            }
        }
        if left.is_prefix_of(right) {
            assert(r.subrange(0, l.len() as int) =~= l) by {
                assert forall|index: int| 0 <= index < l.len() implies r[index] == l[index] by {
                    assert(right.subrange(0, left.len() as int)[index + 1] == left[index + 1]);
                }
            }
        }
        if exists|place: int|
            0 <= place < l.len() && place < r.len() && l.take(place) == r.take(place)
                && #[trigger] l[place] < r[place] {
            let place = choose|place: int|
                0 <= place < l.len() && place < r.len() && l.take(place) == r.take(place)
                    && #[trigger] l[place] < r[place];
            assert(left.take(place + 1) =~= seq![left[0]] + l.take(place));
            assert(right.take(place + 1) =~= seq![right[0]] + r.take(place));
            assert(left[place + 1] < right[place + 1]);
        }
        if exists|place: int|
            0 <= place < left.len() && place < right.len() && left.take(place) == right.take(place)
                && #[trigger] left[place] < right[place] {
            let place = choose|place: int|
                0 <= place < left.len() && place < right.len() && left.take(place) == right.take(
                    place,
                ) && #[trigger] left[place] < right[place];
            assert(l.take(place - 1) =~= left.take(place).skip(1));
            assert(r.take(place - 1) =~= right.take(place).skip(1));
            assert(l[place - 1] < r[place - 1]);
        }
    }
}

/// A list without repeated ids has under an id the one device with that id, if there is one.
pub proof fn law_devices_are_found_by_their_ids(devices: Seq<DeviceView>, index: int, id: Seq<char>)
    requires
        forall|left: int, right: int|
            0 <= left < right < devices.len() ==> (#[trigger] devices[left]).id != (
            #[trigger] devices[right]).id,
        0 <= index < devices.len(),
    ensures
        distinct_ids(devices),
        by_id(devices).contains_key(devices[index].id),
        by_id(devices)[devices[index].id] == devices[index],
        by_id(devices).contains_key(id) <==> exists|at: int|
            0 <= at < devices.len() && (#[trigger] devices[at]).id == id,
{
    lemma_found_by_id(devices, index);
}

} // verus!
