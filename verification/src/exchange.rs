//! What the two ends of a transfer do, and the tables that a device keeps, from one call to the next.

use crate::address;
use crate::batch;
use crate::batch::{Batch, BatchAction};
use crate::bytes;
use crate::chacha;
use crate::crypto;
use crate::crypto::{KeyPair, SenderSession, TransferCrypto};
use crate::devices;
use crate::devices::{DeviceInfo, DeviceTable};
use crate::digits;
use crate::discovery;
use crate::encoding;
use crate::files::PublishedFile;
use crate::history;
use crate::history::{TransferDirection, TransferEvent, TransferHistory};
use crate::hmac;
use crate::http;
use crate::http::{RequestHead, Response};
use crate::identity;
use crate::identity::Identity;
use crate::incoming;
use crate::incoming::{Incoming, IncomingAction, IncomingEvent};
use crate::modular;
use crate::names;
use crate::outgoing;
use crate::outgoing::{Outgoing, OutgoingAction, OutgoingEvent};
use crate::overlay::{DragMonitor, OverlayState};
use crate::receiving;
use crate::receiving::{ReceivedFile, Receiving, UnreceivedFile, UploadRequest, VerifiedFile};
use crate::sending;
use crate::sending::{SendError, Sending, SentFile, UnsentFile};
use crate::service;
use crate::service::NetworkService;
use crate::text;
use crate::transfer;
use crate::transfer::{TransferPhase, TransferProgress};
use vstd::prelude::*;
use vstd::utf8::*;

verus! {

/// What a sender does next, and what it is then, is what follows from what it was, what has happened,
/// who it is, and whether the transfer was cancelled; the service lets it know the last two.
pub proof fn law_sender_goes_on_as_it_should(
    outgoing: Outgoing,
    event: OutgoingEvent,
    keys: KeyPair,
    sender: Identity,
    cancelled: bool,
    now_ms: u128,
    step: (Outgoing, OutgoingAction),
    service: NetworkService,
    served: (Outgoing, OutgoingAction),
)
    requires
        call_ensures(Outgoing::step, (outgoing, event, &keys, &sender, cancelled, now_ms), step),
        call_ensures(NetworkService::send_file, (&service, outgoing, event, now_ms), served),
    ensures
        ({
            let next = outgoing::sent_step(outgoing@, event, sender@, cancelled, now_ms);
            &&& step.0.wf()
            &&& step.0@ == next.next
            &&& step.1@ == next.action
        }),
        ({
            let next = outgoing::sent_step(
                outgoing@,
                event,
                service@.identity,
                service::sending_cancelled(service@, outgoing@),
                now_ms,
            );
            &&& served.0.wf()
            &&& served.0@ == next.next
            &&& served.1@ == next.action
        }),
{
}

/// What a receiver does next, and what it is then, is what follows from what it was, what has happened,
/// its keys and its id, and whether the transfer was cancelled; the service lets it know the rest.
pub proof fn law_receiver_goes_on_as_it_should(
    incoming: Incoming,
    event: IncomingEvent,
    keys: KeyPair,
    own_id: &str,
    cancelled: bool,
    now_ms: u128,
    step: (Incoming, IncomingAction),
    service: NetworkService,
    served: (Incoming, IncomingAction),
)
    requires
        call_ensures(Incoming::step, (incoming, event, &keys, own_id, cancelled, now_ms), step),
        call_ensures(NetworkService::handle_upload, (&service, incoming, event, now_ms), served),
    ensures
        ({
            let next = incoming::stepped(
                incoming@,
                event,
                keys.private(),
                own_id@,
                cancelled,
                now_ms,
            );
            &&& step.0.wf()
            &&& step.0@ == next.next
            &&& step.1@ == next.action
        }),
        ({
            let next = incoming::stepped(
                incoming@,
                event,
                service@.keys.private(),
                service@.identity.id,
                service::receiving_cancelled(service@, incoming@),
                now_ms,
            );
            &&& served.0.wf()
            &&& served.0@ == next.next
            &&& served.1@ == next.action
        }),
{
}

/// A batch goes on as follows from the step of its file, and remembers a transfer only where there is
/// one to remember.
pub proof fn law_batch_goes_on_as_it_should(
    batch: Batch,
    event: OutgoingEvent,
    keys: KeyPair,
    sender: Identity,
    cancelled: bool,
    now_ms: u128,
    step: (Batch, BatchAction, Option<TransferEvent>),
    service: &mut NetworkService,
    served: (Batch, BatchAction),
)
    requires
        call_ensures(Batch::step, (batch, event, &keys, &sender, cancelled, now_ms), step),
        call_ensures(NetworkService::send_next, (service, batch, event, now_ms), served),
    ensures
        ({
            let next = batch::after_work(
                batch@,
                outgoing::sent_step(
                    batch@.current,
                    event,
                    old(service)@.identity,
                    service::sending_cancelled(old(service)@, batch@.current),
                    now_ms,
                ),
            );
            &&& served.0.wf()
            &&& served.0@ == next.next
            &&& served.1@ == next.action
        }),
        ({
            let next = batch::after_work(
                batch@,
                outgoing::sent_step(batch@.current, event, sender@, cancelled, now_ms),
            );
            &&& step.0.wf()
            &&& step.0@ == next.next
            &&& step.1@ == next.action
            &&& next.remembered matches Some(sent) ==> (step.2 matches Some(event) && event@ == sent)
            &&& next.remembered is None ==> step.2 is None
        }),
{
}

/// A transfer has an id by which it can be cancelled where a part of the file is read next: on the
/// sender's side before the file is scanned and sent, on the receiver's before its content is read.
pub proof fn law_transfers_are_known_by_their_ids(
    outgoing: Outgoing,
    sent: Option<String>,
    batch: Batch,
    batched: Option<String>,
    incoming: Incoming,
    received: Option<String>,
)
    requires
        call_ensures(Outgoing::transfer_id, (&outgoing,), sent),
        call_ensures(Batch::transfer_id, (&batch,), batched),
        call_ensures(Incoming::transfer_id, (&incoming,), received),
    ensures
        outgoing matches Outgoing::Reopening(file) ==> (sent matches Some(id) && id@
            == file@.transfer_id),
        outgoing matches Outgoing::Scanning(scan) ==> (sent matches Some(id) && id@
            == scan@.sending.transfer_id),
        outgoing matches Outgoing::Greeting(file) ==> (sent matches Some(id) && id@
            == file@.transfer_id),
        outgoing matches Outgoing::Writing(file) ==> (sent matches Some(id) && id@
            == file@.transfer_id),
        !(outgoing is Reopening || outgoing is Scanning || outgoing is Greeting || outgoing is Writing)
            ==> sent is None,
        batch@.current == outgoing@ ==> (batched is Some <==> sent is Some),
        sent matches Some(id) ==> batch@.current == outgoing@ ==> (batched matches Some(other)
            && other@ == id@),
        incoming matches Incoming::Creating(file) ==> (received matches Some(id) && id@
            == file@.request.transfer_id),
        incoming matches Incoming::Writing(file) ==> (received matches Some(id) && id@
            == file@.request.transfer_id),
        !(incoming is Creating || incoming is Writing) ==> received is None,
{
}

/// A transfer starts with the device and the path, and a connection with nothing.
pub proof fn law_transfers_start_with_nothing_done(
    target: DeviceInfo,
    path: String,
    outgoing: Outgoing,
    incoming: Incoming,
    head: RequestHead,
)
    requires
        call_ensures(Outgoing::new, (target, path), outgoing),
        call_ensures(Incoming::new, (), incoming),
        call_ensures(RequestHead::new, (), head),
    ensures
        outgoing matches Outgoing::Finding(known, place) && known@ == target@ && place@ == path@,
        incoming matches Incoming::Head(read) && read@ == head@,
        !head@.complete,
        head@.headers == Map::<Seq<char>, Seq<char>>::empty(),
{
}

/// A file is received under the keys of its session and checked against the code that was sent along;
/// one without a code is a bad request, and so is one without keys, with what is wrong.
pub proof fn law_file_is_received_over_a_session(
    request: UploadRequest,
    code: [u8; 32],
    crypto: TransferCrypto,
    begun: Result<Receiving, Response>,
    error: String,
    keyless: Result<Receiving, Response>,
    codeless: Result<Receiving, Response>,
)
    requires
        call_ensures(
            Receiving::over,
            (request, Ok::<[u8; 32], String>(code), Ok::<TransferCrypto, String>(crypto)),
            begun,
        ),
        call_ensures(
            Receiving::over,
            (request, Ok::<[u8; 32], String>(code), Err::<TransferCrypto, String>(error)),
            keyless,
        ),
        call_ensures(
            Receiving::over,
            (request, Err::<[u8; 32], String>(error), Ok::<TransferCrypto, String>(crypto)),
            codeless,
        ),
    ensures
        begun matches Ok(file) && file@.request == request@ && file@.keys == crypto.keys()
            && file@.expected == code@ && file@.content.len() == 0,
        keyless matches Err(answer) && answer.status == 400 && answer.reason@ == "Bad Request"@
            && answer.body@ == "{\"ok\":false,\"error\":\""@ + names::json_text(error@) + "\"}"@,
        codeless matches Err(answer) && answer.status == 400 && answer.reason@ == "Bad Request"@
            && answer.body@ == "{}"@,
{
}

/// What is received is decrypted in its place, and what was received before is not touched.
pub proof fn law_received_content_is_decrypted_in_its_place(
    file: &mut Receiving,
    chunk: &mut [u8],
    index: int,
)
    requires
        call_ensures(Receiving::decrypt, (file, chunk), ()),
        0 <= index < old(chunk)@.len(),
        old(file)@.content.len() + old(chunk)@.len() <= 0x40_0000_0000,
    ensures
        ({
            let place = old(file)@.content.len() + index;
            &&& final(chunk)@.len() == old(chunk)@.len()
            &&& final(chunk)@[index] == old(chunk)@[index] ^ chacha::block(
                old(file)@.keys.cipher_key,
                (place / 64) as u32,
                old(file)@.keys.nonce,
            )[place % 64]
            &&& final(file)@.content == old(file)@.content + final(chunk)@
            &&& final(file)@.request == old(file)@.request
            &&& final(file)@.keys == old(file)@.keys
            &&& final(file)@.expected == old(file)@.expected
        }),
{
    chacha::law_data_meets_the_blocks_in_turn(
        old(file)@.keys.cipher_key,
        old(file)@.keys.nonce,
        old(file)@.content.len() as int,
        old(chunk)@,
        index,
    );
}

/// What is sent is encrypted in its place and counted.
pub proof fn law_sent_content_is_encrypted_in_its_place(
    file: &mut Sending,
    chunk: &mut [u8],
    index: int,
)
    requires
        call_ensures(Sending::encrypt, (file, chunk), ()),
        0 <= index < old(chunk)@.len(),
        old(file)@.sent_bytes + old(chunk)@.len() <= 0x40_0000_0000,
    ensures
        ({
            let place = old(file)@.sent_bytes + index;
            &&& final(chunk)@.len() == old(chunk)@.len()
            &&& final(chunk)@[index] == old(chunk)@[index] ^ chacha::block(
                old(file)@.keys.cipher_key,
                (place / 64) as u32,
                old(file)@.keys.nonce,
            )[place % 64]
            &&& final(file)@.sent_bytes == old(file)@.sent_bytes + old(chunk)@.len()
            &&& final(file)@.total_bytes == old(file)@.total_bytes
            &&& final(file)@.transfer_id == old(file)@.transfer_id
            &&& final(file)@.file_name == old(file)@.file_name
            &&& final(file)@.sent_name == old(file)@.sent_name
            &&& final(file)@.sender_id == old(file)@.sender_id
            &&& final(file)@.sender_name == old(file)@.sender_name
            &&& final(file)@.peer_name == old(file)@.peer_name
            &&& final(file)@.address == old(file)@.address
            &&& final(file)@.keys == old(file)@.keys
        }),
{
    chacha::law_data_meets_the_blocks_in_turn(
        old(file)@.keys.cipher_key,
        old(file)@.keys.nonce,
        old(file)@.sent_bytes as int,
        old(chunk)@,
        index,
    );
}

/// The parts of the content are of 64 kibibytes, but for the last; and no more is taken in than was
/// announced.
pub proof fn law_content_is_taken_in_as_announced(
    file: Receiving,
    size: usize,
    more: usize,
    fits: bool,
    room: bool,
)
    requires
        call_ensures(Receiving::wanted, (&file,), size),
        call_ensures(Receiving::announced, (&file, more), fits),
        call_ensures(Receiving::authenticates, (&file, more), room),
    ensures
        file@.request.content_length - file@.content.len() >= 65_536 ==> size == 65_536,
        file@.request.content_length - file@.content.len() < 65_536 ==> size
            == file@.request.content_length - file@.content.len(),
        fits <==> file@.content.len() + more <= file@.request.content_length,
        room <==> 64 + 14 + encode_utf8(file@.request.transfer_id).len() + encode_utf8(
            file@.request.file_name,
        ).len() + encode_utf8(file@.request.sender_name).len() + 8 + file@.content.len() + more
            < 0x2000_0000_0000_0000,
{
    transfer::law_authentication_has_room(
        file@.request.transfer_id,
        file@.request.file_name,
        file@.request.sender_name,
        (file@.content.len() + more) as int,
    );
}

/// A file is taken as verified exactly if the code that was sent along is the one of its names, its
/// length and its content under the key of the session; otherwise it is answered that the verification
/// failed.
pub proof fn law_only_authentic_files_are_verified(
    file: Receiving,
    outcome: Result<VerifiedFile, UnreceivedFile>,
    length: Seq<u8>,
)
    requires
        call_ensures(Receiving::verify, (file,), outcome),
        length.len() == 8,
        bytes::be_value(length) == file@.request.content_length,
    ensures
        outcome is Ok <==> file@.expected == hmac::hmac_sha256(
            file@.keys.mac_key,
            encode_utf8("file-sharer.v2"@) + encode_utf8(file@.request.transfer_id) + encode_utf8(
                file@.request.file_name,
            ) + encode_utf8(file@.request.sender_name) + length + file@.content,
        ),
        outcome matches Ok(verified) ==> verified@ == file@.request,
        outcome matches Err(failed) ==> failed.response.status == 400 && failed.response.reason@
            == "Bad Request"@ && failed.response.body@
            == "{\"ok\":false,\"error\":\"crypto verification failed\"}"@ && failed.progress@.phase
            == TransferPhase::Failed && failed.progress@.error == Some("加密校验失败"@),
{
    transfer::law_file_code_covers_names_length_and_content(
        file@.keys.mac_key,
        file@.request.transfer_id,
        file@.request.file_name,
        file@.request.sender_name,
        file@.request.content_length,
        length,
        file@.content,
    );
}

/// A file that was saved is remembered as received from its sender, with the place that it was
/// published at or else its path, and answered with its path.
pub proof fn law_saved_file_is_remembered(
    file: VerifiedFile,
    path: &str,
    now_ms: u128,
    received: ReceivedFile,
    uri: String,
    published: ReceivedFile,
)
    requires
        call_ensures(VerifiedFile::saved, (file, path, None::<PublishedFile>, now_ms), received),
        call_ensures(
            VerifiedFile::saved,
            (file, path, Some(PublishedFile { uri }), now_ms),
            published,
        ),
    ensures
        received.event.direction == TransferDirection::Received,
        received.event.file_name@ == file@.file_name,
        received.event.peer_name@ == file@.sender_name,
        received.event.bytes == file@.content_length,
        received.event.saved_path matches Some(place) && place@ == path@,
        published.event.saved_path matches Some(place) && place@ == uri@,
        received.event.timestamp_ms == now_ms,
        received.progress.transfer_id@ == file@.transfer_id,
        received.progress.direction == TransferDirection::Received,
        received.progress.phase == TransferPhase::Finished,
        received.progress.file_name@ == file@.file_name,
        received.progress.peer_name@ == file@.sender_name,
        received.progress.bytes_transferred == file@.content_length,
        received.progress.total_bytes == file@.content_length,
        received.response.status == 200,
        received.response.reason@ == "OK"@,
        received.response.body@ == "{\"ok\":true,\"file\":\""@ + names::json_text(path@) + "\"}"@,
        published.response.body@ == received.response.body@,
{
    assert(received.event@.saved_path is Some);
    assert(published.event@.saved_path is Some);
}

/// What is told of a file while it is received is how far it has come, of all that was announced.
pub proof fn law_receiving_is_told_as_it_goes(
    file: Receiving,
    started: TransferProgress,
    progressed: TransferProgress,
    cancelled: UnreceivedFile,
    id: String,
    name: String,
    error: &str,
    failed: Response,
)
    requires
        file@.content.len() <= u64::MAX,
        call_ensures(Receiving::started, (&file,), started),
        call_ensures(Receiving::progressed, (&file,), progressed),
        call_ensures(Receiving::cancelled, (&file,), cancelled),
        call_ensures(Receiving::transfer_id, (&file,), id),
        call_ensures(Receiving::file_name, (&file,), name),
        call_ensures(receiving::server_error, (error,), failed),
    ensures
        id@ == file@.request.transfer_id,
        name@ == file@.request.file_name,
        started.transfer_id@ == id@,
        started.file_name@ == name@,
        started.peer_name@ == file@.request.sender_name,
        started.direction == TransferDirection::Received,
        started.phase == TransferPhase::Started,
        started.bytes_transferred == 0,
        started.total_bytes == file@.request.content_length,
        started.encrypted,
        started.error is None,
        progressed.transfer_id@ == id@,
        progressed.direction == TransferDirection::Received,
        progressed.phase == TransferPhase::Progress,
        progressed.bytes_transferred == file@.content.len(),
        progressed.total_bytes == file@.request.content_length,
        progressed.error is None,
        cancelled.progress.transfer_id@ == id@,
        cancelled.progress.phase == TransferPhase::Failed,
        cancelled.progress.bytes_transferred == file@.content.len(),
        cancelled.progress.error matches Some(told) && told@ == "传输已取消"@,
        cancelled.response.status == 499,
        cancelled.response.reason@ == "Client Closed Request"@,
        cancelled.response.body@ == "{\"ok\":false,\"error\":\"cancelled\"}"@,
        failed.status == 500,
        failed.reason@ == "Internal Server Error"@,
        failed.body@ == "{\"ok\":false,\"error\":\""@ + names::json_text(error@) + "\"}"@,
{
    assert(cancelled.progress@.error is Some);
    assert(started@.error is None);
    assert(progressed@.error is None);
}

/// A file is sent under a new id to the device that was chosen, under its safe name, in the name of the
/// sender, over the session that was made; and without a session it is not sent.
pub proof fn law_file_is_sent_over_a_session(
    session: SenderSession,
    sender: Identity,
    target: DeviceInfo,
    file_name: String,
    total_bytes: u64,
    now_ms: u128,
    begun: Result<Sending, SendError>,
    error: String,
    failed: Result<Sending, SendError>,
)
    requires
        call_ensures(
            Sending::over,
            (
                Ok::<SenderSession, String>(session),
                &sender,
                &target,
                file_name,
                total_bytes,
                now_ms,
            ),
            begun,
        ),
        call_ensures(
            Sending::over,
            (Err::<SenderSession, String>(error), &sender, &target, file_name, total_bytes, now_ms),
            failed,
        ),
    ensures
        begun is Ok,
        begun matches Ok(file) ==> {
            &&& file@.transfer_id == identity::transfer_id_of(
                sender.id@,
                target.id@,
                file_name@,
                now_ms,
            )
            &&& file@.file_name == file_name@
            &&& file@.sent_name == names::safe_file_name(file_name@)
            &&& file@.sender_id == sender.id@
            &&& file@.sender_name == sender.name@
            &&& file@.peer_name == target.name@
            &&& file@.address == address::host_and_port(target.address@, target.port)
            &&& file@.total_bytes == total_bytes
            &&& file@.sent_bytes == 0
            &&& file@.sender_public == session.sender_public_header@
            &&& file@.nonce == session.nonce_header@
            &&& file@.keys == session.crypto.keys()
        },
        failed == Err::<Sending, SendError>(SendError::SessionFailed(error)),
{
}

/// The head of a request says what is sent: the names, the length, and what the receiver needs to
/// decrypt and check it.
pub proof fn law_head_says_what_is_sent(file: Sending, mac: String, out: String)
    requires
        call_ensures(Sending::head, (&file, mac), out),
    ensures
        out@ == "POST /upload HTTP/1.1\r\nHost: "@ + file@.address + "\r\nContent-Length: "@
            + digits::decimal(file@.total_bytes as nat)
            + "\r\nX-File-Sharer-Protocol: file-sharer.v2\r\nX-Sender-Id: "@ + file@.sender_id
            + "\r\nX-Sender-Name: "@ + names::percent_text(encode_utf8(file@.sender_name))
            + "\r\nX-File-Name: "@ + names::percent_text(encode_utf8(file@.sent_name))
            + "\r\nX-Transfer-Id: "@ + names::percent_text(encode_utf8(file@.transfer_id))
            + "\r\nX-Crypto-Mode: dh-sha256-stream-v1\r\nX-Crypto-Sender-Public: "@
            + file@.sender_public + "\r\nX-Crypto-Nonce: "@ + file@.nonce + "\r\nX-Crypto-Mac: "@
            + mac@ + "\r\nConnection: close\r\n\r\n"@,
{
    http::law_upload_head_is_written_in_full(sending::sending_head(file@, mac@));
}

/// A file counts as sent exactly if the receiver answered with the status 200. It is then remembered
/// and told of as sent in full; otherwise what the receiver answered is told.
pub proof fn law_file_counts_as_sent_if_it_was_accepted(
    file: Sending,
    response: &str,
    now_ms: u128,
    outcome: Result<SentFile, UnsentFile>,
)
    requires
        call_ensures(Sending::conclude, (&file, response, now_ms), outcome),
    ensures
        outcome is Ok <==> "HTTP/1.1 200"@.is_prefix_of(response@),
        outcome matches Ok(sent) ==> {
            &&& sent.receipt.file_name@ == file@.file_name
            &&& sent.receipt.target_name@ == file@.peer_name
            &&& sent.receipt.bytes == file@.total_bytes
            &&& sent.event.direction == TransferDirection::Sent
            &&& sent.event.file_name@ == file@.file_name
            &&& sent.event.peer_name@ == file@.peer_name
            &&& sent.event.bytes == file@.total_bytes
            &&& sent.event.saved_path is None
            &&& sent.event.timestamp_ms == now_ms
            &&& sent.progress.transfer_id@ == file@.transfer_id
            &&& sent.progress.direction == TransferDirection::Sent
            &&& sent.progress.phase == TransferPhase::Finished
            &&& sent.progress.bytes_transferred == file@.total_bytes
            &&& sent.progress.total_bytes == file@.total_bytes
        },
        outcome matches Err(unsent) ==> {
            &&& unsent.error matches SendError::Refused(answer)
            &&& http::refusal(response@) == Some(answer@)
            &&& unsent.progress.transfer_id@ == file@.transfer_id
            &&& unsent.progress.phase == TransferPhase::Failed
            &&& unsent.progress.bytes_transferred == file@.sent_bytes
            &&& unsent.progress.error matches Some(told)
            &&& told@ == answer@
        },
{
    if let Ok(sent) = outcome {
        assert(sent.event@.saved_path is None);
    }
    if let Err(unsent) = outcome {
        assert(unsent.progress@.error is Some);
    }
}

/// What is told of a file while it is sent is how far it has come, of its whole length.
pub proof fn law_sending_is_told_as_it_goes(
    file: Sending,
    started: TransferProgress,
    progressed: TransferProgress,
    cancelled: UnsentFile,
    cause: String,
    unread: UnsentFile,
    id: String,
    count: u64,
    name: Option<String>,
    found: Result<String, SendError>,
)
    requires
        call_ensures(Sending::started, (&file,), started),
        call_ensures(Sending::progressed, (&file,), progressed),
        call_ensures(Sending::cancelled, (&file,), cancelled),
        call_ensures(Sending::mac_failed, (&file, cause), unread),
        call_ensures(Sending::transfer_id, (&file,), id),
        call_ensures(Sending::sent_bytes, (&file,), count),
        call_ensures(sending::send_name, (name,), found),
    ensures
        id@ == file@.transfer_id,
        count == file@.sent_bytes,
        started.transfer_id@ == id@,
        started.file_name@ == file@.file_name,
        started.peer_name@ == file@.peer_name,
        started.direction == TransferDirection::Sent,
        started.phase == TransferPhase::Started,
        started.bytes_transferred == 0,
        started.total_bytes == file@.total_bytes,
        started.encrypted,
        started.error is None,
        progressed.transfer_id@ == id@,
        progressed.direction == TransferDirection::Sent,
        progressed.phase == TransferPhase::Progress,
        progressed.bytes_transferred == count,
        progressed.total_bytes == file@.total_bytes,
        progressed.error is None,
        cancelled.error == SendError::Cancelled,
        cancelled.progress.transfer_id@ == id@,
        cancelled.progress.phase == TransferPhase::Failed,
        cancelled.progress.bytes_transferred == count,
        cancelled.progress.error matches Some(told) && told@ == "传输已取消"@,
        unread.error == SendError::MacFailed(cause),
        unread.progress.phase == TransferPhase::Failed,
        unread.progress.bytes_transferred == 0,
        unread.progress.error matches Some(told) && told@ == sending::send_error_text(
            SendError::MacFailed(cause),
        ),
        name matches Some(known) ==> found == Ok::<String, SendError>(known),
        name is None ==> found == Err::<String, SendError>(SendError::NameInvalid),
{
    assert(cancelled.progress@.error is Some);
    assert(unread.progress@.error is Some);
    assert(started@.error is None);
    assert(progressed@.error is None);
}

/// The code of a file is computed under the key of the session, from its names and its length on, over
/// the parts of its content in their order, and told in base64.
pub proof fn law_code_is_computed_part_by_part(
    file: Sending,
    mac: transfer::FileMac,
    running: &mut transfer::FileMac,
    chunk: &[u8],
    done: transfer::FileMac,
    code: [u8; 32],
    header: String,
    length: Seq<u8>,
)
    requires
        call_ensures(Sending::file_mac, (&file,), mac),
        call_ensures(transfer::FileMac::update, (running, chunk), ()),
        call_ensures(transfer::FileMac::finalize, (done,), code),
        call_ensures(transfer::FileMac::header, (done,), header),
        length.len() == 8,
        bytes::be_value(length) == file@.total_bytes,
    ensures
        mac.block() == hmac::block_key(file@.keys.mac_key),
        mac.message() == encode_utf8("file-sharer.v2"@) + encode_utf8(file@.transfer_id)
            + encode_utf8(file@.sent_name) + encode_utf8(file@.sender_name) + length,
        final(running).block() == old(running).block(),
        final(running).message() == old(running).message() + chunk@,
        done.block() == mac.block() ==> code@ == hmac::hmac_sha256(
            file@.keys.mac_key,
            done.message(),
        ),
        header@ == encoding::base64_text(code@),
{
    bytes::law_be_value_write_back(length);
}

/// A device that is put into the table is found under its id from then on, as it is, and the others as
/// they were; one that is taken out is not found any more.
pub proof fn law_devices_are_put_in_and_taken_out(
    table: &mut DeviceTable,
    device: DeviceInfo,
    is_new: bool,
    later: DeviceTable,
    id: &str,
    found: Option<DeviceInfo>,
    other: &mut DeviceTable,
    gone: &str,
    removed: bool,
    rest: DeviceTable,
    left: Option<DeviceInfo>,
)
    requires
        call_ensures(DeviceTable::insert, (table, device), is_new),
        later@ == final(table)@,
        call_ensures(DeviceTable::get, (&later, id), found),
        call_ensures(DeviceTable::remove, (other, gone), removed),
        rest@ == final(other)@,
        call_ensures(DeviceTable::get, (&rest, id), left),
    ensures
        is_new == !old(table)@.contains_key(device.id@),
        id@ == device.id@ ==> (found matches Some(same) && same@ == device@),
        id@ != device.id@ ==> (found is Some <==> old(table)@.contains_key(id@)),
        found matches Some(same) ==> id@ != device.id@ ==> same@ == old(table)@[id@],
        removed == old(other)@.contains_key(gone@),
        id@ == gone@ ==> left is None,
        id@ != gone@ ==> (left is Some <==> old(other)@.contains_key(id@)),
        left matches Some(same) ==> id@ != gone@ ==> same@ == old(other)@[id@],
{
}

/// The devices of a table are listed by their names, each of them once and as it is.
pub proof fn law_table_lists_its_devices(
    table: DeviceTable,
    list: Vec<DeviceInfo>,
    id: Seq<char>,
    index: int,
    later: int,
)
    requires
        call_ensures(DeviceTable::sorted, (&table,), list),
        0 <= index < later < list@.len(),
    ensures
        list@[index].id@ != list@[later].id@,
        devices::precedes(list@[index].name@, list@[later].name@),
        table@.contains_key(list@[index].id@) && table@[list@[index].id@] == list@[index]@,
        table@.contains_key(id) ==> exists|place: int|
            0 <= place < list@.len() && (#[trigger] list@[place]).id@ == id,
{
    let views = devices::device_views(list@);
    assert(views[index] == list@[index]@);
    assert(views[later] == list@[later]@);
    devices::law_devices_are_found_by_their_ids(views, index, id);
    if table@.contains_key(id) {
        let place = choose|place: int| 0 <= place < views.len() && views[place].id == id;
        assert(views[place] == list@[place]@);
    }
}

/// The window is in use and shows what it was last told, and at first is not in use and shows nothing
/// special.
pub proof fn law_window_is_as_it_was_told(
    fresh: OverlayState,
    used: &mut OverlayState,
    busy: bool,
    shown: &mut OverlayState,
    mode: &str,
    later: OverlayState,
    told_busy: bool,
    told_mode: String,
    change_count: i64,
    now_ns: u128,
    monitor: DragMonitor,
)
    requires
        call_ensures(OverlayState::new, (), fresh),
        call_ensures(OverlayState::set_busy, (used, busy), ()),
        call_ensures(OverlayState::set_mode, (shown, mode), ()),
        call_ensures(OverlayState::is_busy, (&later,), told_busy),
        call_ensures(OverlayState::mode, (&later,), told_mode),
        call_ensures(DragMonitor::new, (change_count, now_ns), monitor),
    ensures
        later == fresh ==> !told_busy && told_mode@ == "normal"@,
        later == *final(used) ==> told_busy == busy && told_mode@ == old(used).shown(),
        later == *final(shown) ==> told_busy == old(shown).in_use() && told_mode@ == mode@,
        !monitor.visible,
        monitor.last_seen_ns == now_ns,
        monitor.seen_change_count == change_count,
        monitor.active_change_count is None,
{
}

/// A session is made of the receiver's public key, a private key and a nonce; if one of them is missing
/// there is none, and the first error is told.
pub proof fn law_sessions_need_keys_and_a_nonce(
    public: u128,
    private: [u8; 16],
    nonce: [u8; 16],
    error: String,
    second: String,
    made: Result<SenderSession, String>,
    keyless: Result<SenderSession, String>,
    dull: Result<SenderSession, String>,
    nonceless: Result<SenderSession, String>,
)
    requires
        call_ensures(
            KeyPair::sender_session,
            (
                Ok::<u128, String>(public),
                Ok::<[u8; 16], String>(private),
                Ok::<[u8; 16], String>(nonce),
            ),
            made,
        ),
        call_ensures(
            KeyPair::sender_session,
            (
                Err::<u128, String>(error),
                Err::<[u8; 16], String>(second),
                Ok::<[u8; 16], String>(nonce),
            ),
            keyless,
        ),
        call_ensures(
            KeyPair::sender_session,
            (
                Ok::<u128, String>(public),
                Err::<[u8; 16], String>(error),
                Err::<[u8; 16], String>(second),
            ),
            dull,
        ),
        call_ensures(
            KeyPair::sender_session,
            (
                Ok::<u128, String>(public),
                Ok::<[u8; 16], String>(private),
                Err::<[u8; 16], String>(error),
            ),
            nonceless,
        ),
    ensures
        made matches Ok(session) && ({
            let own = crypto::private_of(private@);
            &&& session.sender_public_header@ == encoding::base64_text(
                bytes::be_bytes(modular::power(5, own), 16),
            )
            &&& session.nonce_header@ == encoding::base64_text(nonce@)
            &&& session.crypto.keys() == crypto::derived_keys(
                modular::power(public as nat, own),
                modular::power(5, own),
                public as nat,
                nonce@,
            )
        }),
        keyless == Err::<SenderSession, String>(error),
        dull == Err::<SenderSession, String>(error),
        nonceless == Err::<SenderSession, String>(error),
{
}

/// A receiver makes its keys of the sender's public key and the nonce, with its own private key; if one
/// of the two is missing it makes none, and the first error is told.
pub proof fn law_receivers_need_a_key_and_a_nonce(
    pair: KeyPair,
    public: u128,
    nonce: [u8; 16],
    error: String,
    second: String,
    made: Result<TransferCrypto, String>,
    keyless: Result<TransferCrypto, String>,
    nonceless: Result<TransferCrypto, String>,
    header: String,
)
    requires
        pair.wf(),
        call_ensures(
            KeyPair::receiver_session,
            (&pair, Ok::<u128, String>(public), Ok::<[u8; 16], String>(nonce)),
            made,
        ),
        call_ensures(
            KeyPair::receiver_session,
            (&pair, Err::<u128, String>(error), Err::<[u8; 16], String>(second)),
            keyless,
        ),
        call_ensures(
            KeyPair::receiver_session,
            (&pair, Ok::<u128, String>(public), Err::<[u8; 16], String>(error)),
            nonceless,
        ),
        call_ensures(KeyPair::public_header, (&pair,), header),
    ensures
        made matches Ok(crypto) && crypto.keys() == crypto::derived_keys(
            modular::power(public as nat, pair.private()),
            public as nat,
            modular::power(5, pair.private()),
            nonce@,
        ),
        keyless matches Err(told) && told@ == error@,
        nonceless matches Err(told) && told@ == error@,
        header@ == encoding::base64_text(
            bytes::be_bytes(modular::power(5, pair.private()), 16),
        ),
{
    crypto::law_key_pair_belongs_together(pair);
}

/// What was decoded is taken as a key if it is sixteen bytes that stand for a number from 2 to below
/// 2^127 - 1, as a nonce if it is sixteen bytes, and as a code if it is 32; otherwise it is said what is
/// wrong.
pub proof fn law_decoded_bytes_are_taken_as_what_they_are(
    content: Vec<u8>,
    key: Result<u128, String>,
    nonce: Result<[u8; 16], String>,
    code: Result<[u8; 32], String>,
    error: String,
    no_key: Result<u128, String>,
    no_nonce: Result<[u8; 16], String>,
    no_code: Result<[u8; 32], String>,
)
    requires
        call_ensures(encoding::public_key_from, (Ok::<Vec<u8>, String>(content),), key),
        call_ensures(encoding::nonce_from, (Ok::<Vec<u8>, String>(content),), nonce),
        call_ensures(encoding::mac_from, (Ok::<Vec<u8>, String>(content),), code),
        call_ensures(encoding::public_key_from, (Err::<Vec<u8>, String>(error),), no_key),
        call_ensures(encoding::nonce_from, (Err::<Vec<u8>, String>(error),), no_nonce),
        call_ensures(encoding::mac_from, (Err::<Vec<u8>, String>(error),), no_code),
    ensures
        ({
            let number = bytes::be_value(content@);
            let fit = 2 <= number < 0x7fff_ffff_ffff_ffff_ffff_ffff_ffff_ffff;
            &&& content@.len() == 16 && fit ==> (key matches Ok(found) && found == number)
            &&& content@.len() == 16 && !fit ==> (key matches Err(told) && told@
                == "设备加密公钥范围无效"@)
            &&& content@.len() != 16 ==> (key matches Err(told) && told@ == "设备加密公钥长度无效"@)
        }),
        content@.len() == 16 ==> (nonce matches Ok(found) && found@ == content@),
        content@.len() != 16 ==> (nonce matches Err(told) && told@ == "加密 nonce 长度无效"@),
        content@.len() == 32 ==> (code matches Ok(found) && found@ == content@),
        content@.len() != 32 ==> (code matches Err(told) && told@ == "加密校验值长度无效"@),
        no_key matches Err(told) && told@ == "设备加密公钥无效："@ + error@,
        no_nonce matches Err(told) && told@ == "加密 nonce 无效："@ + error@,
        no_code matches Err(told) && told@ == "加密校验值无效："@ + error@,
{
}

/// A session's keys are used for what they are meant for: one encrypts, from the start of the key
/// stream on, and the other authenticates, with nothing taken in at first.
pub proof fn law_keys_are_used_as_they_are_meant(
    cipher_key: [u8; 32],
    mac_key: [u8; 32],
    nonce: [u8; 16],
    crypto: TransferCrypto,
    cipher: chacha::StreamCipher,
    code: hmac::HmacSha256,
    first: &[u8],
    second: &[u8],
    digest: [u8; 32],
)
    requires
        call_ensures(TransferCrypto::from_keys, (cipher_key, mac_key, nonce), crypto),
        call_ensures(TransferCrypto::stream_cipher, (&crypto,), cipher),
        call_ensures(TransferCrypto::hmac, (&crypto,), code),
        call_ensures(hmac::sha256_pair, (first, second), digest),
    ensures
        cipher.key() == cipher_key@,
        cipher.nonce() == nonce@,
        cipher.position() == 0,
        code.block() == hmac::block_key(mac_key@),
        code.message().len() == 0,
        digest@ == hmac::sha256(first@ + second@),
{
}

/// A number is written as its bytes, the highest first, and read from them again; a word is read from
/// its bytes, the lowest first.
pub proof fn law_numbers_are_made_of_bytes(
    value: u128,
    out: [u8; 16],
    back: u128,
    short: u64,
    eight: [u8; 8],
    content: &[u8],
    at: usize,
    word: u32,
)
    requires
        call_ensures(bytes::u128_to_be, (value,), out),
        call_ensures(bytes::u128_from_be, (&out,), back),
        call_ensures(bytes::u64_to_be, (short,), eight),
        at + 4 <= content@.len(),
        call_ensures(bytes::u32_from_le, (content, at), word),
    ensures
        back == value,
        bytes::be_value(out@) == value,
        bytes::be_value(eight@) == short,
        word == content@[at as int] + 256 * content@[at + 1] + 65536 * content@[at + 2] + 16777216
            * content@[at + 3],
{
    bytes::lemma_u128_width();
    bytes::law_be_bytes_read_back(value as nat, 16);
    assert(vstd::arithmetic::power::pow(256, 8) == 0x1_0000_0000_0000_0000) by {
        reveal_with_fuel(vstd::arithmetic::power::pow, 9);
    }
    bytes::law_be_bytes_read_back(short as nat, 8);
    bytes::law_word_is_read_from_its_bytes(content@, at as int);
}

/// Texts are taken apart and put together again character by character.
pub proof fn law_texts_are_made_of_characters(
    text: &str,
    chars: Vec<char>,
    list: Vec<char>,
    from: usize,
    to: usize,
    part: String,
    mark: char,
    place: usize,
    c: char,
    space: bool,
    control: bool,
)
    requires
        call_ensures(text::chars_of, (text,), chars),
        from <= to <= list@.len(),
        call_ensures(text::text_of, (&list, from, to), part),
        call_ensures(text::find, (&list, mark), place),
        call_ensures(text::white, (c,), space),
        call_ensures(text::control, (c,), control),
    ensures
        chars@ == text@,
        part@ == list@.subrange(from as int, to as int),
        place <= list@.len(),
        place < list@.len() ==> list@[place as int] == mark,
        forall|index: int| 0 <= index < place ==> list@[index] != mark,
        space == text::is_white(c),
        control == text::is_control(c),
{
}

/// A head tells whether it has ended, what it asks for and what its headers say; a response is made of
/// what it is given.
pub proof fn law_head_tells_what_was_read(
    head: RequestHead,
    complete: bool,
    start: &str,
    asks: bool,
    name: &str,
    value: Option<String>,
    status: u16,
    reason: &str,
    body: &str,
    response: Response,
)
    requires
        call_ensures(RequestHead::is_complete, (&head,), complete),
        call_ensures(RequestHead::asks, (&head, start), asks),
        call_ensures(RequestHead::header, (&head, name), value),
        call_ensures(Response::new, (status, reason, body), response),
    ensures
        complete == head@.complete,
        asks == http::asks_for(head@, start@),
        value is Some <==> head@.headers.contains_key(name@),
        value matches Some(found) ==> found@ == head@.headers[name@],
        response.status == status,
        response.reason@ == reason@,
        response.body@ == body@,
{
}

/// What is told of a transfer is what it is told of with, each thing in its place, and that it is
/// encrypted.
pub proof fn law_progress_is_made_of_what_it_is_given(
    transfer_id: &str,
    direction: TransferDirection,
    phase: TransferPhase,
    file_name: &str,
    peer_name: &str,
    bytes_transferred: u64,
    total_bytes: u64,
    error: String,
    progress: TransferProgress,
)
    requires
        call_ensures(
            transfer::progress_of,
            (
                transfer_id,
                direction,
                phase,
                file_name,
                peer_name,
                bytes_transferred,
                total_bytes,
                Some(error),
            ),
            progress,
        ),
    ensures
        progress.transfer_id@ == transfer_id@,
        progress.direction == direction,
        progress.phase == phase,
        progress.file_name@ == file_name@,
        progress.peer_name@ == peer_name@,
        progress.bytes_transferred == bytes_transferred,
        progress.total_bytes == total_bytes,
        progress.encrypted,
        progress.error matches Some(told) && told@ == error@,
{
    assert(progress@.error is Some);
}

/// The numbers that devices agree on.
pub proof fn law_devices_agree_on_their_numbers()
    ensures
        discovery::DISCOVERY_PORT == 45891,
        discovery::TRANSFER_PORT == 45892,
        discovery::DISCOVERY_BURST_COUNT == 5,
        discovery::DISCOVERY_BURST_INTERVAL_MS == 60,
        address::BROADCAST_ADDRESS == 0xffff_ffff,
        address::MULTICAST_ADDRESS == 0xefff_2a63,
        chacha::STREAM_PERIOD == 64 * 0x1_0000_0000,
        transfer::TRANSFER_CHUNK_SIZE == 64 * 1024,
        modular::DH_GENERATOR == 5,
        modular::DH_PRIME == 0x8000_0000_0000_0000_0000_0000_0000_0000 - 1,
{
}

/// A file is sent to a device over a new session with its public key; if that cannot be read, or there
/// is no randomness, it is not sent, and the first thing that is wrong is told.
pub proof fn law_sending_starts_with_a_new_session(
    keys: KeyPair,
    sender: Identity,
    target: DeviceInfo,
    file_name: String,
    total_bytes: u64,
    private: [u8; 16],
    nonce: [u8; 16],
    now_ms: u128,
    begun: Result<Sending, SendError>,
    public: nat,
    error: String,
    second: String,
    dull: Result<Sending, SendError>,
    nonceless: Result<Sending, SendError>,
)
    requires
        call_ensures(
            Sending::start,
            (
                &keys,
                &sender,
                &target,
                file_name,
                total_bytes,
                Ok::<[u8; 16], String>(private),
                Ok::<[u8; 16], String>(nonce),
                now_ms,
            ),
            begun,
        ),
        call_ensures(
            Sending::start,
            (
                &keys,
                &sender,
                &target,
                file_name,
                total_bytes,
                Err::<[u8; 16], String>(error),
                Err::<[u8; 16], String>(second),
                now_ms,
            ),
            dull,
        ),
        call_ensures(
            Sending::start,
            (
                &keys,
                &sender,
                &target,
                file_name,
                total_bytes,
                Ok::<[u8; 16], String>(private),
                Err::<[u8; 16], String>(error),
                now_ms,
            ),
            nonceless,
        ),
        encoding::public_key_of(encoding::base64_decoded(target.crypto_public_key@)) == Ok::<
            nat,
            Seq<char>,
        >(public),
    ensures
        begun is Ok,
        begun matches Ok(file) ==> ({
            let own = crypto::private_of(private@);
            &&& file@.transfer_id == identity::transfer_id_of(
                sender.id@,
                target.id@,
                file_name@,
                now_ms,
            )
            &&& file@.file_name == file_name@
            &&& file@.sent_name == names::safe_file_name(file_name@)
            &&& file@.sender_id == sender.id@
            &&& file@.sender_name == sender.name@
            &&& file@.peer_name == target.name@
            &&& file@.address == address::host_and_port(target.address@, target.port)
            &&& file@.total_bytes == total_bytes
            &&& file@.sent_bytes == 0
            &&& file@.sender_public == encoding::base64_text(
                bytes::be_bytes(modular::power(5, own), 16),
            )
            &&& file@.nonce == encoding::base64_text(nonce@)
            &&& file@.keys == crypto::derived_keys(
                modular::power(public, own),
                modular::power(5, own),
                public,
                nonce@,
            )
        }),
        dull == Err::<Sending, SendError>(SendError::SessionFailed(error)),
        nonceless == Err::<Sending, SendError>(SendError::SessionFailed(error)),
{
}

/// A file is received under the keys that follow from the headers of its request and the receiver's
/// private key, and is checked against the code of its request.
pub proof fn law_receiving_starts_with_the_headers(
    keys: KeyPair,
    request: UploadRequest,
    begun: Result<Receiving, Response>,
    code: Seq<u8>,
    public: nat,
    nonce: Seq<u8>,
)
    requires
        keys.wf(),
        call_ensures(Receiving::start, (&keys, request), begun),
        encoding::mac_of(encoding::base64_decoded(request.mac@)) == Ok::<Seq<u8>, Seq<char>>(code),
        encoding::public_key_of(encoding::base64_decoded(request.sender_public@)) == Ok::<
            nat,
            Seq<char>,
        >(public),
        encoding::nonce_of(encoding::base64_decoded(request.nonce@)) == Ok::<Seq<u8>, Seq<char>>(
            nonce,
        ),
    ensures
        begun matches Ok(file) && file@.request == request@ && file@.expected == code
            && file@.content.len() == 0 && file@.keys == crypto::derived_keys(
            modular::power(public, keys.private()),
            public,
            modular::power(5, keys.private()),
            nonce,
        ),
{
}

/// A request whose code, public key or nonce cannot be read is a bad request; where the code can be
/// read, what is wrong with the others is told.
pub proof fn law_requests_with_bad_headers_are_refused(
    keys: KeyPair,
    request: UploadRequest,
    begun: Result<Receiving, Response>,
    error: Seq<char>,
)
    requires
        call_ensures(Receiving::start, (&keys, request), begun),
    ensures
        encoding::mac_of(encoding::base64_decoded(request.mac@)) is Err ==> (begun matches Err(answer)
            && answer.status == 400 && answer.reason@ == "Bad Request"@ && answer.body@ == "{}"@),
        encoding::mac_of(encoding::base64_decoded(request.mac@)) is Ok && encoding::public_key_of(
            encoding::base64_decoded(request.sender_public@),
        ) == Err::<nat, Seq<char>>(error) ==> (begun matches Err(answer) && answer.status == 400
            && answer.reason@ == "Bad Request"@ && answer.body@ == "{\"ok\":false,\"error\":\""@
            + names::json_text(error) + "\"}"@),
        encoding::mac_of(encoding::base64_decoded(request.mac@)) is Ok && encoding::public_key_of(
            encoding::base64_decoded(request.sender_public@),
        ) is Ok && encoding::nonce_of(encoding::base64_decoded(request.nonce@)) == Err::<
            Seq<u8>,
            Seq<char>,
        >(error) ==> (begun matches Err(answer) && answer.status == 400 && answer.reason@
            == "Bad Request"@ && answer.body@ == "{\"ok\":false,\"error\":\""@ + names::json_text(
            error,
        ) + "\"}"@),
{
}

/// Names and contents are measured before they are authenticated.
pub proof fn law_room_is_measured(
    request: UploadRequest,
    fits: bool,
    file: Sending,
    length: u64,
    room: bool,
)
    requires
        call_ensures(UploadRequest::fits, (&request,), fits),
        call_ensures(Sending::authenticates, (&file, length), room),
    ensures
        fits <==> 64 + 14 + encode_utf8(request.transfer_id@).len() + encode_utf8(
            request.file_name@,
        ).len() + encode_utf8(request.sender_name@).len() + 8 < 0x2000_0000_0000_0000,
        room <==> 64 + 14 + encode_utf8(file@.transfer_id).len() + encode_utf8(
            file@.sent_name,
        ).len() + encode_utf8(file@.sender_name).len() + 8 + length < 0x2000_0000_0000_0000,
{
    transfer::law_authentication_has_room(
        request.transfer_id@,
        request.file_name@,
        request.sender_name@,
        0,
    );
    transfer::law_authentication_has_room(
        file@.transfer_id,
        file@.sent_name,
        file@.sender_name,
        length as int,
    );
}

/// A table that is cleared is empty and names each device that was in it as lost once; one that expires
/// keeps the devices that were seen within the last six seconds, as they are, and names the others.
pub proof fn law_tables_name_what_they_lose(
    fresh: DeviceTable,
    cleared: &mut DeviceTable,
    lost: Vec<String>,
    expired: &mut DeviceTable,
    now_ms: u128,
    old_ones: Vec<String>,
    id: Seq<char>,
)
    requires
        call_ensures(DeviceTable::new, (), fresh),
        call_ensures(DeviceTable::clear, (cleared,), lost),
        call_ensures(DeviceTable::expire, (expired, now_ms), old_ones),
    ensures
        !fresh@.contains_key(id),
        !final(cleared)@.contains_key(id),
        old(cleared)@.contains_key(id) <==> text::texts(lost@).contains(id),
        text::texts(lost@).no_duplicates(),
        final(expired)@.contains_key(id) <==> old(expired)@.contains_key(id) && now_ms - old(
            expired,
        )@[id].last_seen_ms <= 6000,
        final(expired)@.contains_key(id) ==> final(expired)@[id] == old(expired)@[id],
        old(expired)@.contains_key(id) && !final(expired)@.contains_key(id) <==> text::texts(
            old_ones@,
        ).contains(id),
        text::texts(old_ones@).no_duplicates(),
{
    assert(old(cleared)@.dom().contains(id) <==> old(cleared)@.contains_key(id));
    assert(old(expired)@.dom().contains(id) <==> old(expired)@.contains_key(id));
    let live = devices::live_ids(old(expired)@, now_ms);
    assert(old(expired)@.dom().difference(live).contains(id) <==> old(expired)@.contains_key(id)
        && !live.contains(id));
}

/// The list of transfers grows at its end, gives way at its start when it is full, and is told in its
/// order or the other way round.
pub proof fn law_list_of_transfers_grows_at_its_end(
    fresh: TransferHistory,
    list: &mut TransferHistory,
    event: TransferEvent,
    later: TransferHistory,
    events: Vec<TransferEvent>,
    newest: Vec<TransferEvent>,
    cleared: &mut TransferHistory,
    index: int,
)
    requires
        old(list)@.len() <= 100,
        call_ensures(TransferHistory::new, (), fresh),
        call_ensures(TransferHistory::push, (list, event), ()),
        later@ == final(list)@,
        call_ensures(TransferHistory::events, (&later,), events),
        call_ensures(TransferHistory::newest_first, (&later,), newest),
        call_ensures(TransferHistory::clear, (cleared,), ()),
    ensures
        fresh@.len() == 0,
        final(cleared)@.len() == 0,
        events@.len() == newest@.len(),
        events@.len() == (if old(list)@.len() < 100 {
            old(list)@.len() + 1
        } else {
            100
        }),
        events@.last()@ == event@,
        0 <= index < events@.len() ==> newest@[index]@ == events@[events@.len() - 1 - index]@,
        0 < index < events@.len() ==> newest@[index]@ == old(list)@[old(list)@.len() - index],
{
    let kept = history::event_views(events@);
    let shown = history::event_views(newest@);
    let count = kept.len() as int;
    assert(kept == final(list)@);
    assert(shown == final(list)@.reverse());
    assert(kept.len() == events@.len() && shown.len() == newest@.len());
    assert(kept[count - 1] == events@[count - 1]@);
    if 0 <= index < count {
        assert(shown[index] == newest@[index]@);
        assert(kept[count - 1 - index] == events@[count - 1 - index]@);
    }
}

/// A list of transfers that is loaded keeps the last hundred in their order.
pub proof fn law_loaded_list_keeps_the_last_hundred(
    events: Vec<TransferEvent>,
    list: TransferHistory,
    index: int,
)
    requires
        call_ensures(TransferHistory::from_events, (events,), list),
    ensures
        events@.len() <= 100 ==> list@.len() == events@.len(),
        events@.len() > 100 ==> list@.len() == 100,
        0 <= index < list@.len() ==> list@[index] == events@[events@.len() - list@.len() + index]@,
{
    let views = history::event_views(events@);
    assert(views.len() == events@.len());
    if 0 <= index < list@.len() {
        assert(views[events@.len() - list@.len() + index] == events@[events@.len() - list@.len()
            + index]@);
    }
}

/// A batch starts with its first path and nothing sent, and a cipher at the start of its key stream.
pub proof fn law_batches_and_ciphers_start_at_the_start(
    target: DeviceInfo,
    paths: Vec<String>,
    made: (Batch, BatchAction),
    key: [u8; 32],
    nonce: [u8; 16],
    cipher: chacha::StreamCipher,
    index: int,
)
    requires
        paths@.len() > 0,
        0 <= index < paths@.len(),
        call_ensures(Batch::new, (target, paths), made),
        call_ensures(chacha::StreamCipher::new, (key, nonce), cipher),
    ensures
        made.0@.target == target@,
        made.0@.paths.len() == paths@.len(),
        made.0@.paths[index] == paths@[index]@,
        made.0@.receipts.len() == 0,
        made.1 matches BatchAction::Find(told, path) && told is None && path@ == paths@[0]@,
        cipher.key() == key@,
        cipher.nonce() == nonce@,
        cipher.position() == 0,
{
    assert(text::texts(paths@)[0] == paths@[0]@);
    assert(text::texts(paths@)[index] == paths@[index]@);
    match made.1 {
        BatchAction::Find(told, _) => {
            assert(incoming::told(told) is None);
        },
        _ => {},
    }
}

} // verus!
