//! What holds of a transfer from one end to the other.

use crate::address;
use crate::address::IpAddress;
use crate::chacha;
use crate::crypto;
use crate::crypto::{KeyPair, TransferKeys};
use crate::devices;
use crate::devices::DeviceView;
use crate::digits;
use crate::discovery;
use crate::discovery::Beacon;
use crate::encoding;
use crate::http;
use crate::http::{HeadView, UploadView};
use crate::identity;
use crate::identity::IdentityView;
use crate::incoming;
use crate::incoming::IncomingView;
use crate::modular;
use crate::names;
use crate::outgoing;
use crate::outgoing::{OutgoingActionView, OutgoingEvent, OutgoingView, PlanView};
use crate::receiving;
use crate::receiving::{ReceivingView, RequestView};
use crate::sending;
use crate::sending::SendingView;
use crate::service;
use crate::service::ServiceView;
use crate::text;
use crate::text::Trim;
use crate::transfer;
use vstd::prelude::*;

verus! {

/// Pieces of data, joined.
pub open spec fn joined(pieces: Seq<Seq<u8>>) -> Seq<u8>
    decreases pieces.len(),
{
    if pieces.len() == 0 {
        Seq::empty()
    } else {
        joined(pieces.drop_last()) + pieces.last()
    }
}

/// What comes out where data goes through a cipher piece by piece.
pub open spec fn encrypted_in_pieces(key: Seq<u8>, nonce: Seq<u8>, pieces: Seq<Seq<u8>>) -> Seq<u8>
    decreases pieces.len(),
{
    if pieces.len() == 0 {
        Seq::empty()
    } else {
        let front = pieces.drop_last();
        encrypted_in_pieces(key, nonce, front) + chacha::encrypted(
            key,
            nonce,
            joined(front).len() as int,
            pieces.last(),
        )
    }
}

/// However a file is cut into pieces, the encrypted pieces make up the encrypted file; so the two
/// ends of a transfer need not cut it up in the same way.
pub proof fn law_pieces_do_not_matter(key: Seq<u8>, nonce: Seq<u8>, pieces: Seq<Seq<u8>>)
    ensures
        encrypted_in_pieces(key, nonce, pieces) == chacha::encrypted(key, nonce, 0, joined(pieces)),
    decreases pieces.len(),
{
    if pieces.len() == 0 {
        assert(chacha::encrypted(key, nonce, 0, joined(pieces)) =~= Seq::<u8>::empty());
    } else {
        let front = joined(pieces.drop_last());
        law_pieces_do_not_matter(key, nonce, pieces.drop_last());
        chacha::law_pieces_make_the_whole(key, nonce, 0, front, pieces.last());
        chacha::lemma_encrypted_wraps(key, nonce, front.len() as int, pieces.last());
    }
}

/// What a receiver reads of a request with a head.
pub open spec fn head_read(upload: UploadView) -> HeadView {
    http::after_text(http::empty_head(), http::upload_text(upload))
}

/// Whether a file name comes through: it is not changed by sanitizing it, and it is not empty.
pub open spec fn comes_through(name: Seq<char>) -> bool {
    name.len() > 0 && names::safe_file_name(name) == name
}

/// A receiver understands the head of an upload as the sender meant it, if the file's name comes
/// through and the names of the sender and of the transfer are not blank.
pub proof fn law_upload_is_understood(upload: UploadView, own_id: Seq<char>, now_ms: u128)
    requires
        http::is_one_line(upload.address),
        http::is_one_line(upload.sender_id),
        encoding::is_base64(upload.sender_public),
        encoding::is_base64(upload.nonce),
        encoding::is_base64(upload.mac),
        comes_through(upload.file_name),
        !text::is_blank(upload.sender_name),
        !text::is_blank(upload.transfer_id),
    ensures
        receiving::requested(head_read(upload), own_id, now_ms) matches Ok(request) && request == (
        RequestView {
            transfer_id: upload.transfer_id,
            file_name: upload.file_name,
            sender_name: upload.sender_name,
            content_length: upload.length,
            sender_public: upload.sender_public,
            nonce: upload.nonce,
            mac: upload.mac,
        }),
{
    let head = head_read(upload);
    http::law_upload_head_is_read_back(upload);
    names::law_percent_reads_back(upload.sender_name);
    names::law_percent_reads_back(upload.file_name);
    names::law_percent_reads_back(upload.transfer_id);
    digits::law_decimal_reads_back(upload.length);
    let line = "POST /upload HTTP/1.1"@;
    assert(http::asks_for(head, "POST /upload "@)) by {
        reveal_strlit("POST /upload HTTP/1.1");
        reveal_strlit("POST /upload ");
        assert(line.subrange(0, 13) =~= "POST /upload "@);
    }
    assert(!http::asks_for(head, "OPTIONS "@)) by {
        reveal_strlit("POST /upload HTTP/1.1");
        reveal_strlit("OPTIONS ");
        assert(line.subrange(0, 8)[0] != "OPTIONS "@[0]);
    }
}

/// An id is not blank.
proof fn lemma_id_is_not_blank(writes: Seq<Seq<u8>>)
    ensures
        !text::is_blank(identity::hash_text(writes)),
{
    let id = identity::hash_text(writes);
    identity::law_ids_are_hexadecimal(writes);
    assert(digits::is_hex_digit(id[0]));
    assert(digits::is_hex_digit(id[15]));
    text::lemma_trimmed_id(id, Trim::White);
}

/// A host and a port are of one line if the host is.
proof fn lemma_address_is_one_line(host: Seq<char>, port: u16)
    requires
        http::is_one_line(host),
    ensures
        http::is_one_line(address::host_and_port(host, port)),
{
    reveal_strlit(":");
    digits::lemma_decimal_digits(port as nat);
    let out = address::host_and_port(host, port);
    let number = digits::decimal(port as nat);
    assert forall|index: int| 0 <= index < out.len() implies #[trigger] out[index] != '\n' by {
        if index < host.len() {
            assert(out[index] == host[index]);
        } else if index > host.len() {
            assert(out[index] == number[index - host.len() - 1]);
            assert(digits::is_digit(number[index - host.len() - 1]));
        }
    }
}

/// What a sender sends to a receiver that it addressed is what the receiver saves. The receiver
/// understands the request, derives the sender's keys, decrypts the content to what it was, and
/// finds the code of the request to be that of the names and the content, so that it accepts the
/// file. This is so for every file whose sanitized name comes through, from a sender whose name is
/// not blank, whose id and the receiver's address are of one line, and whose public key for the
/// transfer is not 1.
pub proof fn law_sent_file_is_received(
    sending: SendingView,
    sender_private: nat,
    nonce: Seq<u8>,
    receiver: KeyPair,
    sender: IdentityView,
    target: DeviceView,
    file_name: Seq<char>,
    content: Seq<u8>,
    sent_ms: u128,
    mac: Seq<char>,
    own_id: Seq<char>,
    received_ms: u128,
)
    requires
        receiver.wf(),
        content.len() <= u64::MAX,
        sending::is_begun(
            sending,
            sender_private,
            receiver.public(),
            nonce,
            sender,
            target,
            file_name,
            content.len() as u64,
            sent_ms,
        ),
        nonce.len() == 16,
        crypto::public_of(sender_private) != 1,
        http::is_one_line(sender.id),
        http::is_one_line(target.address),
        !text::is_blank(sender.name),
        comes_through(names::safe_file_name(file_name)),
        transfer::is_code_header(mac, sending::sending_code(sending, content)),
    ensures
        ({
            let sent = chacha::encrypted(
                sending.keys.cipher_key,
                sending.keys.nonce,
                0,
                content,
            );
            let head = head_read(sending::sending_head(sending, mac));
            &&& receiving::requested(head, own_id, received_ms) matches Ok(request)
            &&& request.file_name == names::safe_file_name(file_name)
            &&& request.sender_name == sender.name
            &&& request.transfer_id == sending.transfer_id
            &&& request.content_length == sent.len()
            &&& crypto::receiver_keys(
                receiver.private(),
                request.sender_public,
                request.nonce,
            ) matches Ok(keys)
            &&& chacha::encrypted(keys.cipher_key, keys.nonce, 0, sent) == content
            &&& encoding::mac_of(encoding::base64_decoded(request.mac)) matches Ok(code)
            &&& code == receiving::request_code(request, keys, content)
        }),
{
    let upload = sending::sending_head(sending, mac);
    lemma_address_is_one_line(target.address, target.port);
    lemma_id_is_not_blank(
        (identity::text_writes(sender.id) + identity::text_writes(target.id)
            + identity::text_writes(file_name)).push(vstd::bytes::spec_u128_to_le_bytes(sent_ms)),
    );
    law_upload_is_understood(upload, own_id, received_ms);
    crypto::law_both_ends_derive_the_same_keys(
        receiver.private(),
        sender_private,
        nonce,
        crypto::session_of(sender_private, receiver.public(), nonce),
    );
    chacha::law_decrypts_what_it_encrypts(
        sending.keys.cipher_key,
        sending.keys.nonce,
        0,
        content,
    );
}

/// A file that is being received after parts of its content have come in.
pub open spec fn taken_in(file: ReceivingView, pieces: Seq<Seq<u8>>) -> ReceivingView
    decreases pieces.len(),
{
    if pieces.len() == 0 {
        file
    } else {
        match incoming::after_content(taken_in(file, pieces.drop_last()), pieces.last()).next {
            IncomingView::Writing(longer) => longer,
            _ => file,
        }
    }
}

/// However the content of a file comes in, as long as no more comes than was announced and can be
/// authenticated, all of it is decrypted and taken in.
pub proof fn law_content_is_taken_in(file: ReceivingView, pieces: Seq<Seq<u8>>)
    requires
        file.content.len() == 0,
        joined(pieces).len() <= file.request.content_length,
        receiving::request_fits(file.request, joined(pieces).len() as int),
    ensures
        taken_in(file, pieces) == (ReceivingView {
            content: chacha::encrypted(
                file.keys.cipher_key,
                file.keys.nonce,
                0,
                joined(pieces),
            ),
            ..file
        }),
    decreases pieces.len(),
{
    let key = file.keys.cipher_key;
    let nonce = file.keys.nonce;
    if pieces.len() == 0 {
        assert(chacha::encrypted(key, nonce, 0, joined(pieces)) =~= file.content);
    } else {
        let front = pieces.drop_last();
        law_content_is_taken_in(file, front);
        chacha::law_pieces_make_the_whole(key, nonce, 0, joined(front), pieces.last());
        chacha::lemma_encrypted_wraps(key, nonce, joined(front).len() as int, pieces.last());
    }
}

/// The contents of parts of a file.
pub open spec fn contents(chunks: Seq<Vec<u8>>) -> Seq<Seq<u8>> {
    Seq::new(chunks.len(), |index: int| chunks[index]@)
}

/// A file that is being sent after parts of it have been read and written.
pub open spec fn sent_on(file: SendingView, chunks: Seq<Vec<u8>>) -> SendingView
    decreases chunks.len(),
{
    if chunks.len() == 0 {
        file
    } else {
        match outgoing::after_read(sent_on(file, chunks.drop_last()), Ok(chunks.last())).next {
            OutgoingView::Writing(longer) => longer,
            _ => file,
        }
    }
}

/// What is written of a file as parts of it are read.
pub open spec fn written(file: SendingView, chunks: Seq<Vec<u8>>) -> Seq<u8>
    decreases chunks.len(),
{
    if chunks.len() == 0 {
        Seq::empty()
    } else {
        let front = chunks.drop_last();
        written(file, front) + match outgoing::after_read(
            sent_on(file, front),
            Ok(chunks.last()),
        ).action {
            OutgoingActionView::Write(bytes) => bytes,
            _ => Seq::empty(),
        }
    }
}

/// However a file is read, as long as it is not longer than can be counted, all of it is written,
/// encrypted, and counted.
pub proof fn law_content_is_sent_whole(file: SendingView, chunks: Seq<Vec<u8>>)
    requires
        file.sent_bytes == 0,
        forall|index: int| 0 <= index < chunks.len() ==> (#[trigger] chunks[index])@.len() > 0,
        joined(contents(chunks)).len() <= u64::MAX,
    ensures
        written(file, chunks) == chacha::encrypted(
            file.keys.cipher_key,
            file.keys.nonce,
            0,
            joined(contents(chunks)),
        ),
        sent_on(file, chunks) == (SendingView {
            sent_bytes: joined(contents(chunks)).len() as u64,
            ..file
        }),
    decreases chunks.len(),
{
    let key = file.keys.cipher_key;
    let nonce = file.keys.nonce;
    let all = contents(chunks);
    if chunks.len() == 0 {
        assert(chacha::encrypted(key, nonce, 0, joined(all)) =~= Seq::<u8>::empty());
    } else {
        let front = chunks.drop_last();
        assert(all.drop_last() =~= contents(front));
        assert forall|index: int| 0 <= index < front.len() implies (
        #[trigger] front[index])@.len() > 0 by {
            assert(front[index] == chunks[index]);
        }
        assert(chunks[chunks.len() - 1]@.len() > 0);
        law_content_is_sent_whole(file, front);
        let before = joined(contents(front));
        chacha::law_pieces_make_the_whole(key, nonce, 0, before, chunks.last()@);
        chacha::lemma_encrypted_wraps(key, nonce, before.len() as int, chunks.last()@);
    }
}

/// A receiver that is sent a file by a sender that addressed it goes on to receive it, and however
/// the encrypted content comes in, it takes in the content that the sender sent and comes to keep
/// it, if the names and the content are short enough to be authenticated.
pub proof fn law_sent_file_is_kept(
    sending: SendingView,
    sender_private: nat,
    nonce: Seq<u8>,
    receiver: KeyPair,
    sender: IdentityView,
    target: DeviceView,
    file_name: Seq<char>,
    content: Seq<u8>,
    sent_ms: u128,
    mac: Seq<char>,
    own_id: Seq<char>,
    received_ms: u128,
    pieces: Seq<Seq<u8>>,
)
    requires
        receiver.wf(),
        content.len() <= u64::MAX,
        sending::is_begun(
            sending,
            sender_private,
            receiver.public(),
            nonce,
            sender,
            target,
            file_name,
            content.len() as u64,
            sent_ms,
        ),
        nonce.len() == 16,
        crypto::public_of(sender_private) != 1,
        http::is_one_line(sender.id),
        http::is_one_line(target.address),
        !text::is_blank(sender.name),
        comes_through(names::safe_file_name(file_name)),
        transfer::is_code_header(mac, sending::sending_code(sending, content)),
        transfer::can_authenticate(
            sending.transfer_id,
            sending.sent_name,
            sending.sender_name,
            content.len() as int,
        ),
        joined(pieces) == chacha::encrypted(
            sending.keys.cipher_key,
            sending.keys.nonce,
            0,
            content,
        ),
    ensures
        ({
            let head = head_read(sending::sending_head(sending, mac));
            let step = incoming::after_head(head, receiver.private(), own_id, received_ms);
            &&& step.action is Prepare
            &&& step.next matches IncomingView::Directory(file)
            &&& file.request.file_name == names::safe_file_name(file_name)
            &&& file.request.sender_name == sender.name
            &&& taken_in(file, pieces).content == content
            &&& incoming::after_flush(taken_in(file, pieces)).action is Publish
        }),
{
    law_sent_file_is_received(
        sending,
        sender_private,
        nonce,
        receiver,
        sender,
        target,
        file_name,
        content,
        sent_ms,
        mac,
        own_id,
        received_ms,
    );
    let head = head_read(sending::sending_head(sending, mac));
    let step = incoming::after_head(head, receiver.private(), own_id, received_ms);
    let file = step.next->Directory_0;
    law_content_is_taken_in(file, pieces);
}

/// A device that hears the beacon of a receiver with sound keys can send to it what it then lists: it
/// addresses the receiver where it was heard, under the receiver's name, and makes the session with
/// the receiver's public key; from the headers of that session the receiver derives the same keys.
/// This is so unless one of the two public keys is 1.
pub proof fn law_heard_receiver_can_be_sent_to(
    known: ServiceView,
    receiver: ServiceView,
    beacon: Beacon,
    source: IpAddress,
    source_text: Seq<char>,
    heard_ms: u128,
    file_name: Seq<char>,
    length: u64,
    private_random: [u8; 16],
    nonce_random: [u8; 16],
    cancelled: bool,
    now_ms: u128,
)
    requires
        address::lan(source),
        receiver.identity.id != known.identity.id,
        receiver.keys.wf(),
        receiver.identity.crypto_public_key == receiver.keys.header(),
        receiver.keys.public() != 1,
        beacon@ == discovery::beacon_of(receiver.identity),
        now_ms <= heard_ms + 6000,
    ensures
        ({
            let packet = discovery::meaning(source, None, None, Some(beacon), known.identity.id);
            let heard = service::after_packet(known, packet, source_text, heard_ms);
            let live = devices::live_devices(heard.devices, now_ms);
            let device = live[receiver.identity.id];
            let private = crypto::private_of(private_random@);
            let nonce = nonce_random@;
            let session = crypto::session_of(private, receiver.keys.public(), nonce);
            let step = outgoing::sent_step(
                OutgoingView::Drawing(PlanView { target: device, file_name, length }),
                OutgoingEvent::Drawn(Ok(private_random), Ok(nonce_random)),
                known.identity,
                cancelled,
                now_ms,
            );
            &&& live.contains_key(receiver.identity.id)
            &&& step.next matches OutgoingView::Reopening(file)
            &&& file.peer_name == receiver.identity.name
            &&& file.address == address::host_and_port(source_text, receiver.identity.port)
            &&& file.sender_name == known.identity.name
            &&& file.file_name == file_name
            &&& file.total_bytes == length
            &&& file.keys == crypto::derived_keys(
                modular::power(receiver.keys.public(), private),
                modular::power(5, private),
                receiver.keys.public(),
                nonce,
            )
            &&& session.is_for(private, receiver.keys.public(), nonce) && modular::power(5, private)
                != 1 ==> crypto::receiver_keys(
                receiver.keys.private(),
                file.sender_public,
                file.nonce,
            ) == Ok::<TransferKeys, Seq<char>>(file.keys)
        }),
{
    let packet = discovery::meaning(source, None, None, Some(beacon), known.identity.id);
    let heard = service::after_packet(known, packet, source_text, heard_ms);
    let private = crypto::private_of(private_random@);
    let nonce = nonce_random@;
    let session = crypto::session_of(private, receiver.keys.public(), nonce);
    devices::law_devices_stay_for_six_seconds(heard.devices, now_ms, receiver.identity.id);
    crypto::law_own_header_is_accepted(receiver.keys);
    if session.is_for(private, receiver.keys.public(), nonce) && modular::power(5, private) != 1 {
        crypto::law_both_ends_derive_the_same_keys(
            receiver.keys.private(),
            private,
            nonce,
            session,
        );
    }
}

} // verus!
