//! Addresses: which belong to the local network, and which ones discovery is sent to.

use crate::digits;
use vstd::prelude::*;

verus! {

/// An IP address: the four bytes of one of version 4, or the eight 16-bit parts of one of
/// version 6.
#[derive(Clone, Copy)]
pub enum IpAddress {
    V4([u8; 4]),
    V6([u16; 8]),
}

/// Whether the first two bytes of an address of version 4 make it one of the local network:
/// 10.0.0.0/8, 172.16.0.0/12, 192.168.0.0/16, 127.0.0.0/8 or 169.254.0.0/16.
pub open spec fn lan_v4(first: u8, second: u8) -> bool {
    ||| first == 10
    ||| first == 172 && 16 <= second <= 31
    ||| first == 192 && second == 168
    ||| first == 127
    ||| first == 169 && second == 254
}

/// Whether an address of version 6 is of a local network by its first part: fc00::/7.
pub open spec fn unique_local(first: u16) -> bool {
    0xfc00 <= first <= 0xfdff
}

/// Whether an address of version 6 is one of the local network: ::1, fe80::/10 or fc00::/7.
pub open spec fn lan_v6(parts: Seq<u16>) -> bool {
    ||| parts == seq![0u16, 0u16, 0u16, 0u16, 0u16, 0u16, 0u16, 1u16]
    ||| 0xfe80 <= parts[0] <= 0xfebf
    ||| unique_local(parts[0])
}

/// Whether an address is one of the local network.
pub open spec fn lan(address: IpAddress) -> bool {
    match address {
        IpAddress::V4(bytes) => lan_v4(bytes@[0], bytes@[1]),
        IpAddress::V6(parts) => lan_v6(parts@),
    }
}

/// Whether an address is one of the local network.
pub fn is_lan_ip(address: &IpAddress) -> (yes: bool)
    ensures
        yes == lan(*address),
{
    match address {
        IpAddress::V4(bytes) => is_lan_ipv4(bytes),
        IpAddress::V6(parts) => is_lan_ipv6(parts),
    }
}

/// Whether an address of version 4 is one of the local network.
pub fn is_lan_ipv4(bytes: &[u8; 4]) -> (yes: bool)
    ensures
        yes == lan_v4(bytes@[0], bytes@[1]),
{
    let first: u8 = bytes[0];
    let second: u8 = bytes[1];
    first == 10 || (first == 172 && 16 <= second && second <= 31) || (first == 192 && second == 168)
        || first == 127 || (first == 169 && second == 254)
}

/// Whether an address of version 6 is one of the local network.
pub fn is_lan_ipv6(parts: &[u16; 8]) -> (yes: bool)
    ensures
        yes == lan_v6(parts@),
{
    let first: u16 = parts[0];
    let loopback: bool = first == 0 && parts[1] == 0 && parts[2] == 0 && parts[3] == 0 && parts[4]
        == 0 && parts[5] == 0 && parts[6] == 0 && parts[7] == 1;
    proof {
        let one = seq![0u16, 0u16, 0u16, 0u16, 0u16, 0u16, 0u16, 1u16];
        assert(loopback ==> parts@ =~= one);
        assert(parts@ == one ==> parts@[0] == one[0] && parts@[1] == one[1] && parts@[2] == one[2]
            && parts@[3] == one[3] && parts@[4] == one[4] && parts@[5] == one[5] && parts@[6]
            == one[6] && parts@[7] == one[7]);
        assert(first & 0xffc0 == 0xfe80 <==> 0xfe80 <= first <= 0xfebf) by (bit_vector);
    }
    loopback || first & 0xffc0 == 0xfe80 || is_unique_local_ipv6(parts)
}

/// Whether an address of version 6 is of a local network by its first part.
pub fn is_unique_local_ipv6(parts: &[u16; 8]) -> (yes: bool)
    ensures
        yes == unique_local(parts@[0]),
{
    let first: u16 = parts[0];
    proof {
        assert(first & 0xfe00 == 0xfc00 <==> 0xfc00 <= first <= 0xfdff) by (bit_vector);
    }
    first & 0xfe00 == 0xfc00
}

/// The address 255.255.255.255.
pub const BROADCAST_ADDRESS: u32 = 0xffff_ffff;

/// The address 239.255.42.99, which devices that look for others listen on.
pub const MULTICAST_ADDRESS: u32 = 0xefff_2a63;

/// Whether numbers go up all the time.
pub open spec fn rising(numbers: Seq<u32>) -> bool {
    forall|left: int, right: int|
        0 <= left < right < numbers.len() ==> #[trigger] numbers[left] < #[trigger] numbers[right]
}

/// Puts a number into its place among rising ones, if it is not there.
fn insert_rising(numbers: &mut Vec<u32>, number: u32)
    requires
        rising(old(numbers)@),
    ensures
        rising(final(numbers)@),
        forall|other: u32| #[trigger]
            final(numbers)@.contains(other) <==> old(numbers)@.contains(other) || other == number,
{
    let mut place: usize = 0;
    while place < numbers.len() && numbers[place] < number
        invariant
            place <= numbers@.len(),
            forall|index: int| 0 <= index < place ==> numbers@[index] < number,
        decreases numbers@.len() - place,
    {
        place = place + 1;
    }
    if place < numbers.len() && numbers[place] == number {
        return ;
    }
    let ghost before = numbers@;
    numbers.insert(place, number);
    proof {
        let after = numbers@;
        assert(after =~= before.insert(place as int, number));
        assert forall|other: u32| #[trigger]
            after.contains(other) <==> before.contains(other) || other == number by {
            if before.contains(other) {
                let at = choose|at: int| 0 <= at < before.len() && before[at] == other;
                if at < place {
                    assert(after[at] == other);
                } else {
                    assert(after[at + 1] == other);
                }
            }
            if other == number {
                assert(after[place as int] == other);
            }
            if after.contains(other) && other != number {
                let at = choose|at: int| 0 <= at < after.len() && after[at] == other;
                if at < place {
                    assert(before[at] == other);
                } else {
                    assert(before[at - 1] == other);
                }
            }
        }
        assert forall|left: int, right: int| 0 <= left < right < after.len() implies #[trigger] after[
        left] < #[trigger] after[right] by {
            let from = if left < place {
                left
            } else {
                left - 1
            };
            let to = if right < place {
                right
            } else {
                right - 1
            };
            if left != place {
                assert(after[left] == before[from]);
            }
            if right != place {
                assert(after[right] == before[to]);
            }
            if left == place && right > place + 1 {
                assert(before[place as int] < before[to]);
            }
        }
    }
}

/// The addresses of version 4 that discovery is sent to: everyone, the listeners, and the given
/// ones, in rising order, each once.
pub fn discovery_targets(broadcasts: &Vec<u32>) -> (targets: Vec<u32>)
    ensures
        rising(targets@),
        forall|address: u32| #[trigger]
            targets@.contains(address) <==> address == BROADCAST_ADDRESS || address
                == MULTICAST_ADDRESS || broadcasts@.contains(address),
{
    let mut targets: Vec<u32> = Vec::new();
    insert_rising(&mut targets, BROADCAST_ADDRESS);
    insert_rising(&mut targets, MULTICAST_ADDRESS);
    let mut index: usize = 0;
    while index < broadcasts.len()
        invariant
            index <= broadcasts@.len(),
            rising(targets@),
            forall|address: u32| #[trigger]
                targets@.contains(address) <==> address == BROADCAST_ADDRESS || address
                    == MULTICAST_ADDRESS || broadcasts@.take(index as int).contains(address),
        decreases broadcasts@.len() - index,
    {
        let ghost known = broadcasts@.take(index as int);
        let ghost more = broadcasts@.take(index + 1);
        insert_rising(&mut targets, broadcasts[index]);
        proof {
            assert(more =~= known.push(broadcasts@[index as int]));
            assert forall|address: u32|
                more.contains(address) <==> known.contains(address) || address
                    == broadcasts@[index as int] by {
                if known.contains(address) {
                    let at = choose|at: int| 0 <= at < known.len() && known[at] == address;
                    assert(more[at] == address);
                }
                assert(more[index as int] == broadcasts@[index as int]);
                if more.contains(address) && address != broadcasts@[index as int] {
                    let at = choose|at: int| 0 <= at < more.len() && more[at] == address;
                    assert(known[at] == address);
                }
            }
        }
        index = index + 1;
    }
    assert(broadcasts@.take(broadcasts@.len() as int) =~= broadcasts@);
    targets
}

/// A network interface with an address of version 4.
pub struct Interface {
    pub name: Vec<u8>,
    pub address: u32,
    pub netmask: u32,
    pub up: bool,
    pub loopback: bool,
}

/// Whether a byte string begins with the letters "wlan" or "ap".
pub open spec fn is_wireless(name: Seq<u8>) -> bool {
    ||| name.len() >= 4 && name[0] == 0x77 && name[1] == 0x6c && name[2] == 0x61 && name[3] == 0x6e
    ||| name.len() >= 2 && name[0] == 0x61 && name[1] == 0x70
}

/// The broadcast addresses of the interfaces that are up, not the loopback, and wireless by their
/// names.
pub open spec fn broadcasts_of(interfaces: Seq<Interface>) -> Seq<u32>
    decreases interfaces.len(),
{
    if interfaces.len() == 0 {
        Seq::empty()
    } else {
        let front = broadcasts_of(interfaces.drop_last());
        let item = interfaces.last();
        if item.up && !item.loopback && is_wireless(item.name@) {
            front.push(item.address | !item.netmask)
        } else {
            front
        }
    }
}

/// The broadcast addresses of the interfaces that are up, not the loopback, and wireless by their
/// names.
pub fn ipv4_broadcast_addresses(interfaces: &Vec<Interface>) -> (addresses: Vec<u32>)
    ensures
        addresses@ == broadcasts_of(interfaces@),
{
    let mut addresses: Vec<u32> = Vec::new();
    let mut index: usize = 0;
    assert(broadcasts_of(interfaces@.take(0)) =~= Seq::<u32>::empty());
    while index < interfaces.len()
        invariant
            index <= interfaces@.len(),
            addresses@ == broadcasts_of(interfaces@.take(index as int)),
        decreases interfaces@.len() - index,
    {
        let item = &interfaces[index];
        let name: &Vec<u8> = &item.name;
        let wireless: bool = (name.len() >= 4 && name[0] == 0x77 && name[1] == 0x6c && name[2]
            == 0x61 && name[3] == 0x6e) || (name.len() >= 2 && name[0] == 0x61 && name[1] == 0x70);
        if item.up && !item.loopback && wireless {
            addresses.push(item.address | !item.netmask);
        }
        proof {
            let upto = interfaces@.take(index + 1);
            assert(upto.drop_last() =~= interfaces@.take(index as int));
            assert(upto.last() == interfaces@[index as int]);
        }
        index = index + 1;
    }
    assert(interfaces@.take(interfaces@.len() as int) =~= interfaces@);
    addresses
}

/// The text of a host and a port.
pub open spec fn host_and_port(host: Seq<char>, port: u16) -> Seq<char> {
    host + ":"@ + digits::decimal(port as nat)
}

/// The text of a host and a port.
pub fn socket_address(host: &str, port: u16) -> (out: String)
    ensures
        out@ == host_and_port(host@, port),
{
    let mut out = host.to_string();
    out.append(":");
    digits::push_decimal(&mut out, port as u64);
    out
}

/// The addresses of version 4 of the local network are those of five ranges: 10.0.0.0 to
/// 10.255.255.255, 127.0.0.0 to 127.255.255.255, 169.254.0.0 to 169.254.255.255, 172.16.0.0 to
/// 172.31.255.255 and 192.168.0.0 to 192.168.255.255.
pub proof fn law_local_addresses_are_of_five_ranges(bytes: [u8; 4])
    ensures
        ({
            let number = ((bytes@[0] * 256 + bytes@[1]) * 256 + bytes@[2]) * 256 + bytes@[3];
            lan(IpAddress::V4(bytes)) <==> {
                ||| 0x0a00_0000 <= number <= 0x0aff_ffff
                ||| 0x7f00_0000 <= number <= 0x7fff_ffff
                ||| 0xa9fe_0000 <= number <= 0xa9fe_ffff
                ||| 0xac10_0000 <= number <= 0xac1f_ffff
                ||| 0xc0a8_0000 <= number <= 0xc0a8_ffff
            }
        }),
{
}

/// The addresses of version 6 of the local network are ::1, those whose first ten bits are those of
/// fe80, and those whose first seven bits are those of fc00.
pub proof fn law_local_addresses_of_version_6(parts: [u16; 8])
    ensures
        lan(IpAddress::V6(parts)) <==> {
            ||| 0xfe80 <= parts@[0] < 0xfe80 + 64
            ||| 0xfc00 <= parts@[0] < 0xfc00 + 512
            ||| parts@[7] == 1 && forall|index: int|
                0 <= index < 7 ==> #[trigger] parts@[index] == 0
        },
{
    let one = seq![0u16, 0u16, 0u16, 0u16, 0u16, 0u16, 0u16, 1u16];
    if parts@ == one {
        assert(one[7] == 1);
        assert forall|index: int| 0 <= index < 7 implies #[trigger] parts@[index] == 0 by {
            assert(one[index] == 0);
        }
    }
    if parts@[7] == 1 && (forall|index: int| 0 <= index < 7 ==> #[trigger] parts@[index] == 0) {
        assert(parts@ =~= one);
    }
}

/// Interfaces are gone through one by one: one that is up, is not the loopback, and has a name that
/// begins with "wlan" or "ap" adds its address with every bit set that its netmask leaves out, and
/// any other adds nothing.
pub proof fn law_interfaces_add_their_broadcast_addresses(front: Seq<Interface>, item: Interface)
    ensures
        broadcasts_of(Seq::<Interface>::empty()).len() == 0,
        ({
            let wlan = item.name@.len() >= 4 && item.name@.take(4) == seq![119u8, 108u8, 97u8, 110u8];
            let ap = item.name@.len() >= 2 && item.name@.take(2) == seq![97u8, 112u8];
            broadcasts_of(front.push(item)) == (if item.up && !item.loopback && (wlan || ap) {
                broadcasts_of(front).push(item.address | !item.netmask)
            } else {
                broadcasts_of(front)
            })
        }),
{
    let name = item.name@;
    let wlan = seq![119u8, 108u8, 97u8, 110u8];
    let ap = seq![97u8, 112u8];
    assert(front.push(item).drop_last() =~= front);
    if name.len() >= 4 {
        if name.take(4) == wlan {
            assert(name.take(4)[0] == wlan[0] && name.take(4)[1] == wlan[1] && name.take(4)[2]
                == wlan[2] && name.take(4)[3] == wlan[3]);
        } else if name[0] == 119 && name[1] == 108 && name[2] == 97 && name[3] == 110 {
            assert(name.take(4) =~= wlan);
        }
    }
    if name.len() >= 2 {
        if name.take(2) == ap {
            assert(name.take(2)[0] == ap[0] && name.take(2)[1] == ap[1]);
        } else if name[0] == 97 && name[1] == 112 {
            assert(name.take(2) =~= ap);
        }
    }
}

/// The text of a host and a port begins with the host, then comes a colon, and what stands behind it
/// is read as the port.
pub proof fn law_host_and_port_can_be_read(host: Seq<char>, port: u16)
    ensures
        ({
            let out = host_and_port(host, port);
            &&& out.len() > host.len() + 1
            &&& out.take(host.len() as int) == host
            &&& out[host.len() as int] == ':'
            &&& digits::parsed_u64(out.skip(host.len() as int + 1)) == Some(port as u64)
        }),
{
    reveal_strlit(":");
    let out = host_and_port(host, port);
    let number = digits::decimal(port as nat);
    digits::lemma_decimal_digits(port as nat);
    digits::law_decimal_reads_back(port as u64);
    assert(out.take(host.len() as int) =~= host);
    assert(out.skip(host.len() as int + 1) =~= number);
}

/// Numbers that go up all the time are in order, and none occurs twice.
pub proof fn law_rising_numbers_go_up(numbers: Seq<u32>, left: int, right: int)
    requires
        rising(numbers),
        0 <= left < right < numbers.len(),
    ensures
        numbers[left] < numbers[right],
{
}

} // verus!
