//! What the functions of the library give for what they are given, whoever calls them.

use crate::address;
use crate::address::{Interface, IpAddress};
use crate::bytes;
use crate::chacha;
use crate::chacha::StreamCipher;
use crate::crypto;
use crate::crypto::{KeyPair, SenderSession, TransferCrypto};
use crate::devices::DeviceInfo;
use crate::digits;
use crate::discovery;
use crate::discovery::{Beacon, Goodbye, Packet, Probe};
use crate::encoding;
use crate::files;
use crate::files::{KnownDirectory, PublishedFile, ReceivePlace, SavedPlace};
use crate::hmac;
use crate::hmac::HmacSha256;
use crate::http;
use crate::http::{RequestHead, Response, UploadHead};
use crate::identity;
use crate::identity::Identity;
use crate::modular;
use crate::names;
use crate::overlay;
use crate::overlay::{DragAction, DragMonitor, DragSight};
use crate::receiving;
use crate::receiving::{Refusal, RefusalView, UploadRequest};
use crate::sending;
use crate::sending::SendError;
use crate::text;
use crate::transfer;
use crate::transfer::FileMac;
use vstd::hash_map::StringHashMap;
use vstd::prelude::*;
use vstd::utf8::*;

verus! {

/// A block of key stream is made for its counter, all 32 bits of it: its sixteen words are those that
/// ten double rounds make of the start, added to the start, which has the counter as its thirteenth
/// word.
pub proof fn law_block_is_made_for_its_counter(
    key: [u8; 32],
    counter: u32,
    nonce: [u8; 16],
    out: [u8; 64],
    word: int,
)
    requires
        call_ensures(chacha::chacha20_block, (&key, counter, &nonce), out),
        0 <= word < 16,
    ensures
        ({
            let start = chacha::initial_state(key@, counter, nonce@);
            let end = chacha::rounds(start, 10);
            &&& start[12] == counter
            &&& out@[4 * word] + 256 * out@[4 * word + 1] + 65536 * out@[4 * word + 2] + 16777216
                * out@[4 * word + 3] == (end[word] + start[word]) % 0x1_0000_0000
        }),
{
    chacha::law_block_is_the_start_and_ten_double_rounds(key@, counter, nonce@);
    chacha::law_block_starts_from_its_inputs(key@, counter, nonce@);
    let start = chacha::initial_state(key@, counter, nonce@);
    let end = chacha::rounds(start, 10);
    assert(end[word] == end[word]);
}

/// A cipher lays over every byte the byte of key stream that belongs to its place, and moves on by as
/// many places, under the same key and nonce.
pub proof fn law_cipher_lays_the_key_stream_over_data(
    cipher: &mut StreamCipher,
    data: &mut [u8],
    index: int,
)
    requires
        call_ensures(StreamCipher::apply, (cipher, data), ()),
        0 <= index < old(data)@.len(),
        0 <= old(cipher).position(),
        old(cipher).position() + old(data)@.len() <= 0x40_0000_0000,
    ensures
        ({
            let place = old(cipher).position() + index;
            &&& final(data)@.len() == old(data)@.len()
            &&& final(data)@[index] == old(data)@[index] ^ chacha::block(
                old(cipher).key(),
                (place / 64) as u32,
                old(cipher).nonce(),
            )[place % 64]
            &&& final(cipher).key() == old(cipher).key()
            &&& final(cipher).nonce() == old(cipher).nonce()
            &&& final(cipher).position() == (old(cipher).position() + old(data)@.len())
                % 0x40_0000_0000
        }),
{
    chacha::law_data_meets_the_blocks_in_turn(
        old(cipher).key(),
        old(cipher).nonce(),
        old(cipher).position(),
        old(data)@,
        index,
    );
}

/// Whether an address is local is told by its number, and a connection is accepted from a local
/// address or an unknown one.
pub proof fn law_local_addresses_are_told_apart(address: IpAddress, yes: bool, accepted: bool)
    requires
        call_ensures(address::is_lan_ip, (&address,), yes),
        call_ensures(discovery::accepts_connection, (Some(address),), accepted),
    ensures
        accepted == yes,
        address matches IpAddress::V4(parts) ==> ({
            let number = ((parts@[0] * 256 + parts@[1]) * 256 + parts@[2]) * 256 + parts@[3];
            yes <==> {
                ||| 0x0a00_0000 <= number <= 0x0aff_ffff
                ||| 0x7f00_0000 <= number <= 0x7fff_ffff
                ||| 0xa9fe_0000 <= number <= 0xa9fe_ffff
                ||| 0xac10_0000 <= number <= 0xac1f_ffff
                ||| 0xc0a8_0000 <= number <= 0xc0a8_ffff
            }
        }),
        address matches IpAddress::V6(parts) ==> (yes <==> {
            ||| 0xfe80 <= parts@[0] < 0xfe80 + 64
            ||| 0xfc00 <= parts@[0] < 0xfc00 + 512
            ||| parts@[7] == 1 && forall|index: int|
                0 <= index < 7 ==> #[trigger] parts@[index] == 0
        }),
{
    match address {
        IpAddress::V4(parts) => address::law_local_addresses_are_of_five_ranges(parts),
        IpAddress::V6(parts) => address::law_local_addresses_of_version_6(parts),
    }
}

/// A connection whose peer is not known is accepted.
pub proof fn law_unknown_peers_are_accepted(accepted: bool)
    requires
        call_ensures(discovery::accepts_connection, (None::<IpAddress>,), accepted),
    ensures
        accepted,
{
}

/// Discovery goes to everyone, to the listeners and to the given addresses, to each once and to no
/// others.
pub proof fn law_discovery_goes_to_everyone(
    broadcasts: Vec<u32>,
    targets: Vec<u32>,
    number: u32,
    left: int,
    right: int,
)
    requires
        call_ensures(address::discovery_targets, (&broadcasts,), targets),
    ensures
        targets@.contains(number) <==> number == 0xffff_ffff || number == 0xefff_2a63
            || broadcasts@.contains(number),
        0 <= left < right < targets@.len() ==> targets@[left] < targets@[right],
{
    assert(targets@.contains(number) <==> targets@.contains(number));
}

/// The interfaces' broadcast addresses are those that are collected one by one.
pub proof fn law_broadcast_addresses_are_collected(interfaces: Vec<Interface>, out: Vec<u32>)
    requires
        call_ensures(address::ipv4_broadcast_addresses, (&interfaces,), out),
    ensures
        out@ == address::broadcasts_of(interfaces@),
{
}

/// The text of a host and a port holds both.
pub proof fn law_socket_address_holds_host_and_port(host: &str, port: u16, out: String)
    requires
        call_ensures(address::socket_address, (host, port), out),
    ensures
        out@.len() > host@.len() + 1,
        out@.take(host@.len() as int) == host@,
        out@[host@.len() as int] == ':',
        digits::parsed_u64(out@.skip(host@.len() as int + 1)) == Some(port as u64),
{
    address::law_host_and_port_can_be_read(host@, port);
}

/// A file name that is safe already is kept to the last character.
pub proof fn law_sanitizing_keeps_safe_file_names(name: &str, out: String)
    requires
        call_ensures(names::sanitize_file_name, (name,), out),
        forall|index: int|
            0 <= index < name@.len() ==> {
                let c = #[trigger] name@[index];
                c != '/' && c != '\\' && c != ':' && c != '*' && c != '?' && c != '"' && c != '<' && c
                    != '>' && c != '|' && !(c <= '\u{1f}') && !('\u{7f}' <= c <= '\u{9f}')
            },
        name@.len() > 0 ==> name@[0] != '.' && name@.last() != '.' && !text::is_white(name@[0])
            && !text::is_white(name@.last()),
    ensures
        out@ == name@,
{
    names::law_safe_file_names_stay(name@);
}

/// Whatever it is given, sanitizing a file name gives one that is made of the middle of the text.
pub proof fn law_sanitizing_makes_a_file_name(name: &str, out: String)
    requires
        call_ensures(names::sanitize_file_name, (name,), out),
    ensures
        out@ == names::safe_file_name(name@),
        out@.len() > 0 ==> names::is_safe(out@),
{
    names::law_file_name_is_safe(name@);
}

/// A device name of up to 32 characters, with single spaces between its words and without control
/// characters, is kept; any other is made one.
pub proof fn law_sanitizing_makes_a_device_name(name: &str, out: String)
    requires
        call_ensures(names::sanitize_device_name, (name,), out),
    ensures
        out@ == names::clean_device_name(name@),
        out@.len() <= 32,
        (name@.len() <= 32 && forall|index: int|
            0 <= index < name@.len() ==> {
                &&& ' ' <= #[trigger] name@[index]
                &&& !('\u{7f}' <= name@[index] <= '\u{9f}')
                &&& text::is_white(name@[index]) ==> {
                    &&& name@[index] == ' '
                    &&& 0 < index < name@.len() - 1
                    &&& !text::is_white(name@[index - 1])
                }
            }) ==> out@ == name@,
{
    names::law_device_name_has_no_stray_characters(name@);
    if name@.len() <= 32 && forall|index: int|
        0 <= index < name@.len() ==> {
            &&& ' ' <= #[trigger] name@[index]
            &&& !('\u{7f}' <= name@[index] <= '\u{9f}')
            &&& text::is_white(name@[index]) ==> {
                &&& name@[index] == ' '
                &&& 0 < index < name@.len() - 1
                &&& !text::is_white(name@[index - 1])
            }
        } {
        names::law_device_name_is_the_start_of_the_words(name@);
    }
}

/// A text that is percent-encoded and then decoded is the text; and what cannot be decoded is refused
/// with what is wrong.
pub proof fn law_percent_encoding_can_be_undone(
    value: &str,
    encoded: String,
    other: &str,
    read: Result<String, String>,
)
    requires
        call_ensures(names::percent_encode, (value,), encoded),
        call_ensures(names::percent_decode, (other,), read),
    ensures
        encoded@ == names::percent_text(encode_utf8(value@)),
        other@ == encoded@ ==> (read matches Ok(back) && back@ == value@),
        match names::percent_bytes(encode_utf8(other@)) {
            None => read matches Err(error) && error@ == "invalid percent encoding"@,
            Some(content) => if valid_utf8(content) {
                read matches Ok(found) && found@ == decode_utf8(content)
            } else {
                read matches Err(error) && error@ == "invalid utf-8"@
            },
        },
{
    names::law_percent_reads_back(value@);
}

/// An escaped text is the one that stands for the text inside a JSON string.
pub proof fn law_escaping_gives_json(value: &str, out: String, error: &str, body: String)
    requires
        call_ensures(names::json_escape, (value,), out),
        call_ensures(http::error_body_text, (error,), body),
    ensures
        out@ == names::json_text(value@),
        body@ == "{\"ok\":false,\"error\":\""@ + names::json_text(error@) + "\"}"@,
{
}

/// A device is called after the computer, or else the host, or else the user by either name, whatever
/// is known first; and its id goes by its user, by either name, whatever is known first.
pub proof fn law_device_is_called_after_what_is_known_first(
    computer: Option<String>,
    host: Option<String>,
    user: Option<String>,
    username: Option<String>,
    os: &str,
    name: String,
    platform: &str,
    given: &str,
    id: String,
)
    requires
        call_ensures(identity::device_name, (computer, host, user, username, os), name),
        call_ensures(identity::stable_device_id, (given, platform, user, username), id),
    ensures
        ({
            let called = |owner: String| names::clean_device_name(owner@ + "'s "@ + os@);
            &&& computer matches Some(owner) ==> name@ == called(owner)
            &&& host matches Some(owner) ==> computer is None ==> name@ == called(owner)
            &&& user matches Some(owner) ==> computer is None && host is None ==> name@ == called(
                owner,
            )
            &&& username matches Some(owner) ==> computer is None && host is None && user is None
                ==> name@ == called(owner)
            &&& computer is None && host is None && user is None && username is None ==> name@
                == names::clean_device_name("File Sharer "@ + os@)
        }),
        user matches Some(who) ==> id@ == identity::device_id(given@, platform@, Some(who)),
        username matches Some(who) ==> user is None ==> id@ == identity::device_id(
            given@,
            platform@,
            Some(who),
        ),
        user is None && username is None ==> id@ == identity::device_id(given@, platform@, None),
{
}

/// The id of a transfer is that of its sender, its receiver, its file and its time, in this order.
pub proof fn law_transfer_has_an_id(
    sender_id: &str,
    target_id: &str,
    file_name: &str,
    now_ms: u128,
    id: String,
)
    requires
        call_ensures(identity::transfer_id, (sender_id, target_id, file_name, now_ms), id),
    ensures
        id@ == identity::transfer_id_of(sender_id@, target_id@, file_name@, now_ms),
        id@.len() == 16,
{
    identity::law_ids_are_hexadecimal(
        (identity::text_writes(sender_id@) + identity::text_writes(target_id@)
            + identity::text_writes(file_name@)).push(vstd::bytes::spec_u128_to_le_bytes(now_ms)),
    );
}

/// The packets of discovery are marked as what they are and say who sends them, each thing under its
/// own name.
pub proof fn law_packets_say_who_sends_them(
    identity: Identity,
    beacon: Beacon,
    goodbye: Goodbye,
    probe: Probe,
)
    requires
        call_ensures(Beacon::of, (&identity,), beacon),
        call_ensures(Goodbye::of, (&identity,), goodbye),
        call_ensures(Probe::new, (), probe),
    ensures
        beacon.protocol@ == "file-sharer.v2"@,
        beacon.id@ == identity.id@,
        beacon.name@ == identity.name@,
        beacon.platform@ == identity.platform@,
        beacon.port == identity.port,
        beacon.crypto_public_key@ == identity.crypto_public_key@,
        goodbye.protocol@ == "file-sharer.v2.goodbye"@,
        goodbye.id@ == identity.id@,
        probe.protocol@ == "file-sharer.v2.probe"@,
{
}

/// A packet is read as what it is marked as.
pub proof fn law_packets_are_read_as_marked(
    source: IpAddress,
    probe: Option<Probe>,
    goodbye: Option<Goodbye>,
    beacon: Option<Beacon>,
    own_id: &str,
    packet: Packet,
)
    requires
        call_ensures(discovery::read_packet, (&source, probe, goodbye, beacon, own_id), packet),
    ensures
        ({
            let probes = probe matches Some(asked) && asked.protocol@ == "file-sharer.v2.probe"@;
            let leaves = goodbye matches Some(left) && left.protocol@ == "file-sharer.v2.goodbye"@;
            let shows = beacon matches Some(seen) && seen.protocol@ == "file-sharer.v2"@;
            let local = address::lan(source);
            &&& !local ==> packet is Ignored
            &&& local && probes ==> packet is Probed
            &&& goodbye matches Some(left) ==> local && !probes && leaves ==> (if left.id@
                == own_id@ {
                packet is Ignored
            } else {
                packet matches Packet::Left(id) && id@ == left.id@
            })
            &&& beacon matches Some(seen) ==> local && !probes && !leaves && shows ==> (if seen.id@
                == own_id@ {
                packet is Ignored
            } else {
                &&& packet matches Packet::Seen(read)
                &&& read.id@ == seen.id@
                &&& read.name@ == seen.name@
                &&& read.platform@ == seen.platform@
                &&& read.port == seen.port
                &&& read.crypto_public_key@ == seen.crypto_public_key@
            })
            &&& !probes && !leaves && !shows ==> packet is Ignored
        }),
{
}

/// The device that a beacon tells of has what the beacon says, each thing under its own name.
pub proof fn law_device_is_what_the_beacon_says(
    beacon: Beacon,
    source: &str,
    now_ms: u128,
    device: DeviceInfo,
)
    requires
        call_ensures(discovery::seen_device, (beacon, source, now_ms), device),
    ensures
        device.id@ == beacon.id@,
        device.name@ == beacon.name@,
        device.platform@ == beacon.platform@,
        device.address@ == source@,
        device.port == beacon.port,
        device.last_seen_ms == now_ms,
        device.crypto_public_key@ == beacon.crypto_public_key@,
{
}

/// The names to try for a file are its own, and then its stem with a number and its extension.
pub proof fn law_names_to_try_are_numbered(file_name: &str, attempt: u32, name: Option<String>)
    requires
        call_ensures(files::destination_candidate, (file_name, attempt), name),
    ensures
        attempt == 0 ==> (name matches Some(found) && found@ == file_name@),
        attempt >= 10_000 ==> name is None,
        0 < attempt < 10_000 ==> name is Some,
        0 < attempt < 10_000 && !file_name@.contains('\\') && !file_name@.contains(':')
            && !file_name@.contains('/') ==> (name matches Some(found)
            && found@ == files::numbered_with(
            files::stem(file_name@),
            files::extension(file_name@),
            attempt,
        )),
{
}

/// A numbered name is its stem, the number in brackets, and its extension, if there is one.
pub proof fn law_number_is_put_into_the_name(
    stem: String,
    extension: String,
    number: u32,
    name: String,
    bare: String,
)
    requires
        extension@.len() > 0,
        call_ensures(files::numbered_name, (Some(stem), Some(extension), number), name),
        call_ensures(files::numbered_name, (None::<String>, None::<String>, number), bare),
    ensures
        name@ == stem@ + " ("@ + digits::decimal(number as nat) + ")"@ + "."@ + extension@,
        bare@ == "file"@ + " ("@ + digits::decimal(number as nat) + ")"@,
{
    reveal_strlit("");
}

/// A file may be opened exactly if it lies in the directory and is a file.
pub proof fn law_files_of_the_directory_are_opened(
    directory: Vec<String>,
    file: Vec<String>,
    is_file: bool,
    allowed: Result<(), String>,
)
    requires
        call_ensures(
            files::ensure_saved_file_path,
            (Ok::<Vec<String>, String>(directory), Ok::<Vec<String>, String>(file), is_file),
            allowed,
        ),
    ensures
        allowed is Ok <==> is_file && directory@.len() <= file@.len() && forall|index: int|
            0 <= index < directory@.len() ==> (#[trigger] directory@[index])@ == file@[index]@,
{
    files::law_only_files_in_the_directory_are_opened(
        directory,
        file,
        is_file,
        arbitrary(),
        arbitrary(),
    );
}

/// Where a saved file is, and where received files go, is told by what there is.
pub proof fn law_places_are_told_by_what_there_is(
    place: &str,
    kind: SavedPlace,
    first: bool,
    second: bool,
    default: ReceivePlace,
    resolved: ReceivePlace,
)
    requires
        call_ensures(files::saved_place, (place,), kind),
        call_ensures(files::default_receive_dir, (first, second), default),
        call_ensures(files::resolve_receive_dir, (first, second), resolved),
    ensures
        "content://media/"@.is_prefix_of(place@) ==> kind == SavedPlace::Published,
        !"content://media/"@.is_prefix_of(place@) && "content://"@.is_prefix_of(place@) ==> kind
            == SavedPlace::Foreign,
        !"content://media/"@.is_prefix_of(place@) && !"content://"@.is_prefix_of(place@) ==> kind
            == SavedPlace::Path,
        first ==> default.base == KnownDirectory::Home && default.parts@.len() == 2
            && default.parts@[0]@ == "Downloads"@ && default.parts@[1]@ == "File Sharer"@,
        !first ==> default.parts@.len() == 1 && default.parts@[0]@ == "received"@,
        !first && second ==> default.base == KnownDirectory::Working,
        !first && !second ==> default.base == KnownDirectory::Temporary,
        resolved.parts@.len() == 1 && resolved.parts@[0]@ == "File Sharer"@,
        first ==> resolved.base == KnownDirectory::Downloads,
        !first && second ==> resolved.base == KnownDirectory::AppData,
        !first && !second ==> resolved.base == KnownDirectory::Temporary,
{
    let two = seq!["Downloads"@, "File Sharer"@];
    let own = seq!["File Sharer"@];
    let received = seq!["received"@];
    assert(two[0] == "Downloads"@ && two[1] == "File Sharer"@);
    assert(own[0] == "File Sharer"@);
    assert(received[0] == "received"@);
    let shown = text::texts(default.parts@);
    assert(shown == default@.1);
    assert(first ==> shown.len() == 2 && shown[0] == default.parts@[0]@ && shown[1]
        == default.parts@[1]@);
    assert(!first ==> shown.len() == 1 && shown[0] == default.parts@[0]@);
    let other = text::texts(resolved.parts@);
    assert(other == resolved@.1);
    assert(other.len() == 1 && other[0] == resolved.parts@[0]@);
}

/// An upload is refused unless the answer begins with the status 200, and the refusal tells the first
/// line.
pub proof fn law_answers_are_told_apart(response: &str, error: Option<String>)
    requires
        call_ensures(http::upload_refusal, (response,), error),
    ensures
        error is None <==> "HTTP/1.1 200"@.is_prefix_of(response@),
        error matches Some(message) ==> http::refusal(response@) == Some(message@),
{
}

/// Responses and heads are written in full.
pub proof fn law_texts_are_written_in_full(
    response: Response,
    answer: String,
    head: UploadHead,
    request: String,
)
    requires
        call_ensures(Response::text, (&response,), answer),
        call_ensures(UploadHead::text, (&head,), request),
    ensures
        answer@ == http::response_text(response@),
        response@.status == response.status,
        response@.reason == response.reason@,
        response@.body == response.body@,
        request@ == "POST /upload HTTP/1.1\r\nHost: "@ + head.address@ + "\r\nContent-Length: "@
            + digits::decimal(head.length as nat)
            + "\r\nX-File-Sharer-Protocol: file-sharer.v2\r\nX-Sender-Id: "@ + head.sender_id@
            + "\r\nX-Sender-Name: "@ + names::percent_text(encode_utf8(head.sender_name@))
            + "\r\nX-File-Name: "@ + names::percent_text(encode_utf8(head.file_name@))
            + "\r\nX-Transfer-Id: "@ + names::percent_text(encode_utf8(head.transfer_id@))
            + "\r\nX-Crypto-Mode: dh-sha256-stream-v1\r\nX-Crypto-Sender-Public: "@
            + head.sender_public@ + "\r\nX-Crypto-Nonce: "@ + head.nonce@ + "\r\nX-Crypto-Mac: "@
            + head.mac@ + "\r\nConnection: close\r\n\r\n"@,
{
    http::law_upload_head_is_written_in_full(head@);
}

/// A line is read into the head as the head was before.
pub proof fn law_line_is_read_into_the_head(head: &mut RequestHead, line: &str, name: &str, value:
    Option<String>)
    requires
        call_ensures(RequestHead::read_line, (head, line), ()),
        call_ensures(RequestHead::header, (&*head, name), value),
    ensures
        final(head)@ == http::after_line(old(head)@, line@),
        old(head)@.headers.contains_key(name@) ==> (value matches Some(found) && found@
            == old(head)@.headers[name@]),
        !old(head)@.headers.contains_key(name@) ==> value is None,
{
}

/// A request is read as what its head asks for, each thing from its own header, or refused for the
/// first fault.
pub proof fn law_request_is_what_the_head_asks_for(
    head: RequestHead,
    own_id: &str,
    now_ms: u128,
    request: Result<UploadRequest, Refusal>,
)
    requires
        call_ensures(receiving::read_request, (&head, own_id, now_ms), request),
    ensures
        match receiving::requested(head@, own_id@, now_ms) {
            Ok(asked) => {
                &&& request matches Ok(found)
                &&& found.transfer_id@ == asked.transfer_id
                &&& found.file_name@ == asked.file_name
                &&& found.sender_name@ == asked.sender_name
                &&& found.content_length == asked.content_length
                &&& found.sender_public@ == asked.sender_public
                &&& found.nonce@ == asked.nonce
                &&& found.mac@ == asked.mac
            },
            Err(RefusalView::Answer(answer)) => {
                &&& request matches Err(Refusal::Answer(found))
                &&& found.status == answer.status
                &&& found.reason@ == answer.reason
                &&& found.body@ == answer.body
            },
            Err(RefusalView::Abort(reason)) => request matches Err(Refusal::Abort(found)) && found@
                == reason,
        },
{
}

/// The window has its size for what it shows, in the upper right corner of the screen, as long as the
/// numbers fit.
pub proof fn law_window_sits_in_the_corner(
    mode: &str,
    size: (u32, u32),
    left: i32,
    top: i32,
    screen_width: u32,
    width: u32,
    place: (i32, i32),
)
    requires
        call_ensures(overlay::overlay_size, (mode,), size),
        call_ensures(overlay::overlay_position, (left, top, screen_width, width), place),
    ensures
        size == overlay::size_for(mode@),
        -0x8000_0000 <= left + screen_width - width - 24 < 0x8000_0000 ==> place.0 == left
            + screen_width - width - 24,
        top + 32 < 0x8000_0000 ==> place.1 == top + 32,
        (left + screen_width - width - 24 - place.0) % 0x1_0000_0000 == 0,
        (top + 32 - place.1) % 0x1_0000_0000 == 0,
{
    overlay::law_numbers_wrap_around(left + screen_width - width - 24);
    overlay::law_numbers_wrap_around(top + 32);
}

/// A look at the mouse does what is due about a drag.
pub proof fn law_look_does_what_is_due(
    monitor: &mut DragMonitor,
    sight: DragSight,
    busy: bool,
    now_ns: u128,
    action: DragAction,
)
    requires
        call_ensures(DragMonitor::look, (monitor, sight, busy, now_ns), action),
    ensures
        *final(monitor) == overlay::after_look(*old(monitor), sight, busy, now_ns),
        action == overlay::action_of(*old(monitor), sight, busy, now_ns),
{
}

/// A key pair is made of the random number, with the public key that belongs to it.
pub proof fn law_key_pair_is_made_of_randomness(
    random: [u8; 16],
    pair: Result<KeyPair, String>,
    error: String,
    missing: Result<KeyPair, String>,
)
    requires
        call_ensures(KeyPair::generate, (Ok::<[u8; 16], String>(random),), pair),
        call_ensures(KeyPair::generate, (Err::<[u8; 16], String>(error),), missing),
    ensures
        pair matches Ok(keys) && keys.private() == bytes::be_value(random@)
            % 0x8000_0000_0000_0000_0000_0000_0000_0000 % 0x7fff_ffff_ffff_ffff_ffff_ffff_ffff_fffc
            + 2 && keys.public() == modular::power(5, keys.private()) && keys.header()
            == encoding::base64_text(bytes::be_bytes(keys.public(), 16)),
        missing == Err::<KeyPair, String>(error),
{
    crypto::law_private_key_is_made_of_the_random_number(random@);
}

/// A sender's session is made with the receiver's public key, and the receiver makes the same keys of
/// its headers: what is handed out at one end is understood at the other.
pub proof fn law_sessions_of_both_ends_agree(
    sender: KeyPair,
    receiver: KeyPair,
    header: &str,
    private_random: [u8; 16],
    nonce_random: [u8; 16],
    session: SenderSession,
    key_header: &str,
    nonce_header: &str,
    crypto: Result<TransferCrypto, String>,
)
    requires
        receiver.wf(),
        receiver.public() != 1,
        header@ == receiver.header(),
        call_ensures(
            KeyPair::create_sender_session,
            (
                &sender,
                header,
                Ok::<[u8; 16], String>(private_random),
                Ok::<[u8; 16], String>(nonce_random),
            ),
            Ok(session),
        ),
        key_header@ == session.sender_public_header@,
        nonce_header@ == session.nonce_header@,
        crypto::public_of(crypto::private_of(private_random@)) != 1,
        call_ensures(
            KeyPair::create_receiver_session,
            (&receiver, key_header, nonce_header),
            crypto,
        ),
    ensures
        crypto matches Ok(made) && made.keys() == session.crypto.keys(),
        session.crypto.keys().nonce == nonce_random@,
{
    crypto::law_own_header_is_accepted(receiver);
    crypto::law_both_ends_derive_the_same_keys(
        receiver.private(),
        crypto::private_of(private_random@),
        nonce_random@,
        session@,
    );
}

/// The keys of a transfer are hashed from what both ends know.
pub proof fn law_transfer_keys_are_hashed(
    shared: u128,
    sender_public: u128,
    receiver_public: u128,
    nonce: [u8; 16],
    crypto: TransferCrypto,
)
    requires
        call_ensures(
            crypto::derive_transfer_crypto,
            (shared, sender_public, receiver_public, nonce),
            crypto,
        ),
    ensures
        ({
            let hashed = hmac::sha256(
                encode_utf8("file-sharer-transfer-v2"@) + bytes::be_bytes(shared as nat, 16)
                    + bytes::be_bytes(sender_public as nat, 16) + bytes::be_bytes(
                    receiver_public as nat,
                    16,
                ),
            );
            &&& crypto.keys().cipher_key == hmac::sha256(
                encode_utf8("file-sharer-cipher-v2"@) + hashed,
            )
            &&& crypto.keys().mac_key == hmac::sha256(encode_utf8("file-sharer-mac-v2"@) + hashed)
            &&& crypto.keys().nonce == nonce@
        }),
{
}

/// The arithmetic of the key exchange is that modulo 2^127 - 1.
pub proof fn law_exchange_is_computed_modulo_the_prime(
    left: u128,
    right: u128,
    sum: u128,
    product: u128,
    raised: u128,
    public: u128,
    shared: u128,
)
    requires
        call_ensures(modular::mod_add, (left, right), sum),
        call_ensures(modular::mod_mul, (left, right), product),
        call_ensures(modular::mod_pow, (left, right), raised),
        call_ensures(modular::dh_public, (right,), public),
        call_ensures(modular::dh_shared, (left, right), shared),
    ensures
        sum == (left + right) % 0x7fff_ffff_ffff_ffff_ffff_ffff_ffff_ffff,
        product == (left * right) % 0x7fff_ffff_ffff_ffff_ffff_ffff_ffff_ffff,
        raised == modular::power(left as nat, right as nat),
        public == modular::power(5, right as nat),
        shared == modular::power(left as nat, right as nat),
{
    modular::law_arithmetic_is_modulo_the_mersenne_prime(left + right, 0, 0);
    modular::law_arithmetic_is_modulo_the_mersenne_prime(left * right, 0, 0);
}

/// A code is that of all that was taken in since the start, in its order, under the key.
pub proof fn law_codes_cover_all_that_was_taken_in(
    key: &[u8],
    code: HmacSha256,
    running: &mut HmacSha256,
    data: &[u8],
    done: HmacSha256,
    out: [u8; 32],
)
    requires
        call_ensures(HmacSha256::new, (key,), code),
        call_ensures(HmacSha256::update, (running, data), ()),
        call_ensures(HmacSha256::finalize, (done,), out),
    ensures
        code.message().len() == 0,
        code.block() == hmac::block_key(key@),
        final(running).message() == old(running).message() + data@,
        final(running).block() == old(running).block(),
        done.block() == hmac::block_key(key@) ==> out@ == hmac::hmac_sha256(key@, done.message()),
{
}

/// The code of a file starts from its names and its length.
pub proof fn law_file_code_starts_from_the_names(
    crypto: TransferCrypto,
    transfer_id: &str,
    file_name: &str,
    sender_name: &str,
    total_bytes: u64,
    mac: FileMac,
    length: Seq<u8>,
)
    requires
        call_ensures(
            FileMac::new,
            (&crypto, transfer_id, file_name, sender_name, total_bytes),
            mac,
        ),
        length.len() == 8,
        bytes::be_value(length) == total_bytes,
    ensures
        mac.message() == encode_utf8("file-sharer.v2"@) + encode_utf8(transfer_id@) + encode_utf8(
            file_name@,
        ) + encode_utf8(sender_name@) + length,
        mac.block() == hmac::block_key(crypto.keys().mac_key),
{
    bytes::law_be_value_write_back(length);
}

/// Two byte strings are found to be the same exactly if they are.
pub proof fn law_comparison_is_exact(left: &[u8], right: &[u8], same: bool)
    requires
        call_ensures(hmac::constant_time_eq, (left, right), same),
    ensures
        same <==> left@.len() == right@.len() && forall|index: int|
            0 <= index < left@.len() ==> #[trigger] left@[index] == right@[index],
{
    if left@.len() == right@.len() && (forall|index: int|
        0 <= index < left@.len() ==> #[trigger] left@[index] == right@[index]) {
        assert(left@ =~= right@);
    }
}

/// A header is read as a key, a nonce or a code exactly if it is the text that stands for one.
pub proof fn law_headers_are_read_exactly(
    header: &str,
    key: Result<u128, String>,
    nonce: Result<[u8; 16], String>,
    code: Result<[u8; 32], String>,
    number: u128,
    content: [u8; 16],
    long: [u8; 32],
    other: Seq<u8>,
)
    requires
        call_ensures(encoding::decode_u128, (header,), key),
        call_ensures(encoding::decode_nonce, (header,), nonce),
        call_ensures(encoding::decode_mac, (header,), code),
    ensures
        (key matches Ok(found) && found == number) <==> 2 <= number
            < 0x7fff_ffff_ffff_ffff_ffff_ffff_ffff_ffff && header@ == encoding::base64_text(
            bytes::be_bytes(number as nat, 16),
        ),
        (nonce matches Ok(found) && found@ == content@) <==> header@ == encoding::base64_text(
            content@,
        ),
        (code matches Ok(found) && found@ == long@) <==> header@ == encoding::base64_text(long@),
        header@ == encoding::base64_text(other) && other.len() != 32 ==> (code matches Err(told)
            && told@ == "加密校验值长度无效"@),
{
    assert(bytes::be_bytes(number as nat, 16) == bytes::be_bytes(number as nat, 16));
    assert(encoding::base64_text(content@) == encoding::base64_text(content@));
    assert(encoding::base64_text(long@) == encoding::base64_text(long@));
    assert(content@.len() == 16);
    assert(long@.len() == 32);
}

/// A number is written in decimal and read back, and in sixteen hexadecimal digits.
pub proof fn law_numbers_are_written_and_read(
    value: u64,
    out: String,
    text: &str,
    read: Option<u64>,
    hex: String,
)
    requires
        call_ensures(digits::decimal_text, (value,), out),
        call_ensures(digits::parse_u64, (text,), read),
        call_ensures(digits::hex16, (value,), hex),
    ensures
        out@ == digits::decimal(value as nat),
        read == digits::parsed_u64(text@),
        text@ == out@ ==> read == Some(value),
        hex@ == digits::hex(value as nat, 16),
{
    digits::law_decimal_reads_back(value);
}

/// What is told of an error is its message.
pub proof fn law_message_tells_the_error(error: SendError, out: String)
    requires
        call_ensures(SendError::message, (&error,), out),
    ensures
        out@ == sending::send_error_text(error),
{
}

/// Texts are compared, searched, cut and lowered as they should be.
pub proof fn law_texts_are_handled_exactly(
    left: &str,
    right: &str,
    same: bool,
    begins: bool,
    both: String,
    trimmed: String,
    low: String,
    is_blank: bool,
)
    requires
        call_ensures(text::same_text, (left, right), same),
        call_ensures(text::begins_with, (left, right), begins),
        call_ensures(text::concat, (left, right), both),
        call_ensures(text::trim_white, (left,), trimmed),
        call_ensures(text::ascii_lowercase, (left,), low),
        call_ensures(text::blank, (left,), is_blank),
    ensures
        same <==> left@ == right@,
        begins <==> right@.is_prefix_of(left@),
        both@ == left@ + right@,
        trimmed@ == text::trimmed(left@, text::Trim::White),
        low@ == text::lowered(left@),
        is_blank <==> forall|index: int|
            0 <= index < left@.len() ==> text::is_white(#[trigger] left@[index]),
{
    text::law_blank_texts_are_white_space(left@);
}

/// Names and a content can be authenticated together if they are short enough.
pub proof fn law_room_for_authentication_is_found(
    transfer_id: &str,
    file_name: &str,
    sender_name: &str,
    length: u64,
    yes: bool,
)
    requires
        call_ensures(transfer::authenticates, (transfer_id, file_name, sender_name, length), yes),
    ensures
        yes <==> 64 + 14 + encode_utf8(transfer_id@).len() + encode_utf8(file_name@).len()
            + encode_utf8(sender_name@).len() + 8 + length < 0x2000_0000_0000_0000,
{
}

/// The parts of an address that say whether it is local are told apart alike.
pub proof fn law_address_ranges_are_told_apart(
    four: [u8; 4],
    is_four: bool,
    six: [u16; 8],
    is_six: bool,
    unique: bool,
)
    requires
        call_ensures(address::is_lan_ipv4, (&four,), is_four),
        call_ensures(address::is_lan_ipv6, (&six,), is_six),
        call_ensures(address::is_unique_local_ipv6, (&six,), unique),
    ensures
        is_four == address::lan(IpAddress::V4(four)),
        is_six == address::lan(IpAddress::V6(six)),
        unique <==> six@[0] / 512 == 126,
{
}

/// A quarter round changes the four words that it is about and no others.
pub proof fn law_quarter_round_leaves_the_others(
    state: &mut [u32; 16],
    a: usize,
    b: usize,
    c: usize,
    d: usize,
    other: int,
)
    requires
        call_ensures(chacha::quarter_round, (state, a, b, c, d), ()),
        a < 16 && b < 16 && c < 16 && d < 16,
        a != b && a != c && a != d && b != c && b != d && c != d,
        0 <= other < 16,
        other != a && other != b && other != c && other != d,
    ensures
        final(state)@[other] == old(state)@[other],
        final(state)@ == chacha::quartered(
            old(state)@,
            a as int,
            b as int,
            c as int,
            d as int,
        ),
{
    chacha::law_quarter_round_turns_four_words(
        old(state)@,
        a as int,
        b as int,
        c as int,
        d as int,
        other,
    );
}

/// A private key is made of the random number, which has to be there.
pub proof fn law_private_key_needs_randomness(
    random: [u8; 16],
    private: Result<u128, String>,
    error: String,
    missing: Result<u128, String>,
)
    requires
        call_ensures(crypto::random_private, (Ok::<[u8; 16], String>(random),), private),
        call_ensures(crypto::random_private, (Err::<[u8; 16], String>(error),), missing),
    ensures
        private matches Ok(number) && number == bytes::be_value(random@)
            % 0x8000_0000_0000_0000_0000_0000_0000_0000 % 0x7fff_ffff_ffff_ffff_ffff_ffff_ffff_fffc
            + 2,
        missing == Err::<u128, String>(error),
{
    crypto::law_private_key_is_made_of_the_random_number(random@);
}

/// Numbers and bytes are written behind one another or on their own, and a received file is said to be
/// where it was published, or else at its path.
pub proof fn law_texts_stand_for_what_they_are_made_of(
    out: &mut String,
    value: u64,
    number: u128,
    key: String,
    path: &str,
    plain: String,
    uri: String,
    published: String,
    text: &str,
    rest: String,
)
    requires
        call_ensures(digits::push_decimal, (out, value), ()),
        call_ensures(encoding::encode_u128, (number,), key),
        call_ensures(files::saved_path, (None::<PublishedFile>, path), plain),
        call_ensures(files::saved_path, (Some(PublishedFile { uri }), path), published),
        call_ensures(text::trim_white_end, (text,), rest),
    ensures
        final(out)@ == old(out)@ + digits::decimal(value as nat),
        key@ == encoding::base64_text(bytes::be_bytes(number as nat, 16)),
        plain@ == path@,
        published@ == uri@,
        rest@.is_prefix_of(text@),
        rest@.len() > 0 ==> !text::is_white(rest@.last()),
        forall|index: int| rest@.len() <= index < text@.len() ==> text::is_white(text@[index]),
{
    lemma_white_end(text@);
}

/// What is cut off the end of a text is white, and what is left does not end with any.
proof fn lemma_white_end(text: Seq<char>)
    ensures
        ({
            let rest = text::trimmed_end(text, text::Trim::White);
            &&& rest.is_prefix_of(text)
            &&& rest.len() > 0 ==> !text::is_white(rest.last())
            &&& forall|index: int|
                rest.len() <= index < text.len() ==> text::is_white(#[trigger] text[index])
        }),
    decreases text.len(),
{
    if text.len() > 0 && text::is_white(text.last()) {
        lemma_white_end(text.drop_last());
        assert forall|index: int|
            text::trimmed_end(text, text::Trim::White).len() <= index < text.len() implies
            text::is_white(#[trigger] text[index]) by {
            if index < text.len() - 1 {
                assert(text[index] == text.drop_last()[index]);
            }
        }
    }
}

/// Whoever may not open a file is told why: what could not be found, or that the file lies elsewhere, or
/// that it is none.
pub proof fn law_refused_files_are_refused_with_a_reason(
    directory: Vec<String>,
    file: Vec<String>,
    is_file: bool,
    allowed: Result<(), String>,
    error: String,
    other: Result<Vec<String>, String>,
    nowhere: Result<(), String>,
    missing: Result<(), String>,
)
    requires
        call_ensures(
            files::ensure_saved_file_path,
            (Ok::<Vec<String>, String>(directory), Ok::<Vec<String>, String>(file), is_file),
            allowed,
        ),
        call_ensures(
            files::ensure_saved_file_path,
            (Err::<Vec<String>, String>(error), other, is_file),
            nowhere,
        ),
        call_ensures(
            files::ensure_saved_file_path,
            (Ok::<Vec<String>, String>(directory), Err::<Vec<String>, String>(error), is_file),
            missing,
        ),
    ensures
        ({
            let inside = directory@.len() <= file@.len() && forall|index: int|
                0 <= index < directory@.len() ==> (#[trigger] directory@[index])@ == file@[index]@;
            &&& !inside ==> (allowed matches Err(told) && told@ == "只能打开本应用接收到的文件"@)
            &&& inside && !is_file ==> (allowed matches Err(told) && told@ == "只能打开文件"@)
        }),
        nowhere matches Err(told) && told@ == "接收目录无效："@ + error@,
        missing matches Err(told) && told@ == "文件不存在："@ + error@,
{
    files::law_only_files_in_the_directory_are_opened(directory, file, is_file, error, other);
}

/// Headers are found by their names, and characters are cut off both ends of a text.
pub proof fn law_headers_are_found_and_texts_are_cut(
    headers: StringHashMap<String>,
    name: &str,
    value: Option<String>,
    chars: Vec<char>,
    trim: text::Trim,
    rest: Vec<char>,
)
    requires
        call_ensures(http::header_value, (&headers, name), value),
        call_ensures(text::trim_chars, (&chars, trim), rest),
    ensures
        value is Some <==> headers@.contains_key(name@),
        value matches Some(found) ==> found@ == headers@[name@]@,
        rest@ == text::trimmed(chars@, trim),
{
}

} // verus!
