//! The receiver's end of a transfer.

use crate::chacha;
use crate::chacha::{StreamCipher, STREAM_PERIOD};
use crate::crypto;
use crate::crypto::{KeyPair, TransferCrypto, TransferKeys, CRYPTO_MODE};
use crate::digits;
use crate::encoding;
use crate::files;
use crate::files::PublishedFile;
use crate::history::{EventView, TransferDirection, TransferEvent};
use crate::hmac;
use crate::http;
use crate::http::{HeadView, RequestHead, Response, ResponseView, PROTOCOL};
use crate::identity;
use crate::names;
use crate::text;
use crate::transfer;
use crate::transfer::{
    FileMac, ProgressView, TransferPhase, TransferProgress, CANCELLED, TRANSFER_CHUNK_SIZE,
};
use vstd::prelude::*;

verus! {

/// An upload that is asked for, by its texts.
#[verifier::ext_equal]
pub struct RequestView {
    pub transfer_id: Seq<char>,
    pub file_name: Seq<char>,
    pub sender_name: Seq<char>,
    pub content_length: u64,
    pub sender_public: Seq<char>,
    pub nonce: Seq<char>,
    pub mac: Seq<char>,
}

/// An upload that is asked for: the names of the transfer, the file and the sender, the file's
/// length, and the sender's public key, the nonce and the code as they stand in the headers.
pub struct UploadRequest {
    pub transfer_id: String,
    pub file_name: String,
    pub sender_name: String,
    pub content_length: u64,
    pub sender_public: String,
    pub nonce: String,
    pub mac: String,
}

impl View for UploadRequest {
    type V = RequestView;

    open spec fn view(&self) -> RequestView {
        RequestView {
            transfer_id: self.transfer_id@,
            file_name: self.file_name@,
            sender_name: self.sender_name@,
            content_length: self.content_length,
            sender_public: self.sender_public@,
            nonce: self.nonce@,
            mac: self.mac@,
        }
    }
}

impl UploadRequest {
    /// Whether the names of the request are short enough together to be authenticated.
    pub fn fits(&self) -> (yes: bool)
        ensures
            yes == request_fits(self@, 0),
    {
        transfer::authenticates(
            self.transfer_id.as_str(),
            self.file_name.as_str(),
            self.sender_name.as_str(),
            0,
        )
    }
}

/// How a request that no file is received for is dealt with.
pub enum Refusal {
    /// It is answered.
    Answer(Response),
    /// The connection is given up, for a reason.
    Abort(String),
}

/// How a request that no file is received for is dealt with, by its texts.
pub enum RefusalView {
    Answer(ResponseView),
    Abort(Seq<char>),
}

impl View for Refusal {
    type V = RefusalView;

    open spec fn view(&self) -> RefusalView {
        match self {
            Refusal::Answer(response) => RefusalView::Answer(response@),
            Refusal::Abort(reason) => RefusalView::Abort(reason@),
        }
    }
}

/// What a header comes to once it has been percent-decoded, if it is there and can be.
pub open spec fn decoded_header(head: HeadView, name: Seq<char>) -> Option<Seq<char>> {
    match http::header_in(head.headers, name) {
        Some(value) => match names::percent_decoded(value) {
            Ok(decoded) => Some(decoded),
            Err(_) => None,
        },
        None => None,
    }
}

/// The name that a file is received under: the sanitized one of the header, if anything is left
/// of it.
pub open spec fn received_file_name(head: HeadView) -> Seq<char> {
    match decoded_header(head, "x-file-name"@) {
        Some(name) => if names::safe_file_name(name).len() > 0 {
            names::safe_file_name(name)
        } else {
            "shared-file"@
        },
        None => "shared-file"@,
    }
}

/// A decoded header, unless it is missing or blank; then something else.
pub open spec fn filled_header(head: HeadView, name: Seq<char>, otherwise: Seq<char>) -> Seq<char> {
    match decoded_header(head, name) {
        Some(value) => if text::is_blank(value) {
            otherwise
        } else {
            value
        },
        None => otherwise,
    }
}

/// The length of the content, if the head says it.
pub open spec fn received_length(head: HeadView) -> Option<u64> {
    match http::header_in(head.headers, "content-length"@) {
        Some(value) => digits::parsed_u64(value),
        None => None,
    }
}

/// An answer without anything to say.
pub open spec fn empty_answer(status: u16, reason: Seq<char>) -> RefusalView {
    RefusalView::Answer(ResponseView { status, reason, body: "{}"@ })
}

/// What a head asks for, of a device with an id at a time, or how it is dealt with: an OPTIONS
/// request is answered, and any other than an upload is not found; an upload is a bad request if
/// it is of another protocol or cryptography, or leaves out the sender's public key, the nonce or
/// the code, and it is given up if it does not say its length.
pub open spec fn requested(head: HeadView, own_id: Seq<char>, now_ms: u128) -> Result<
    RequestView,
    RefusalView,
> {
    if http::asks_for(head, "OPTIONS "@) {
        Err(empty_answer(204, "No Content"@))
    } else if !http::asks_for(head, "POST /upload "@) {
        Err(empty_answer(404, "Not Found"@))
    } else if http::header_in(head.headers, "x-file-sharer-protocol"@) != Some(PROTOCOL@)
        || http::header_in(head.headers, "x-crypto-mode"@) != Some(CRYPTO_MODE@) {
        Err(empty_answer(400, "Bad Request"@))
    } else {
        match received_length(head) {
            None => Err(RefusalView::Abort("missing content-length"@)),
            Some(content_length) => match (
                http::header_in(head.headers, "x-crypto-sender-public"@),
                http::header_in(head.headers, "x-crypto-nonce"@),
                http::header_in(head.headers, "x-crypto-mac"@),
            ) {
                (Some(sender_public), Some(nonce), Some(mac)) => {
                    let file_name = received_file_name(head);
                    Ok(
                        RequestView {
                            transfer_id: filled_header(
                                head,
                                "x-transfer-id"@,
                                identity::transfer_id_of("remote"@, own_id, file_name, now_ms),
                            ),
                            file_name,
                            sender_name: filled_header(
                                head,
                                "x-sender-name"@,
                                "Unknown device"@,
                            ),
                            content_length,
                            sender_public,
                            nonce,
                            mac,
                        },
                    )
                },
                _ => Err(empty_answer(400, "Bad Request"@)),
            },
        }
    }
}

/// Whatever a head says, the file that it asks to be received has a safe name.
pub proof fn law_requested_name_is_safe(head: HeadView, own_id: Seq<char>, now_ms: u128)
    ensures
        requested(head, own_id, now_ms) matches Ok(request) ==> names::is_safe(request.file_name),
{
    reveal_strlit("shared-file");
    if let Some(name) = decoded_header(head, "x-file-name"@) {
        names::law_file_name_is_safe(name);
    }
}

/// Whether a request was read as it should be.
pub open spec fn request_read(
    found: Result<UploadRequest, Refusal>,
    expected: Result<RequestView, RefusalView>,
) -> bool {
    match expected {
        Ok(request) => found matches Ok(read) && read@ == request,
        Err(refusal) => found matches Err(refused) && refused@ == refusal,
    }
}

/// What a header comes to once it has been percent-decoded, if it is there and can be.
fn decode_header(head: &RequestHead, name: &str) -> (value: Option<String>)
    ensures
        http::optional_view(value) == decoded_header(head@, name@),
{
    match head.header(name) {
        Some(value) => match names::percent_decode(value.as_str()) {
            Ok(decoded) => Some(decoded),
            Err(_) => None,
        },
        None => None,
    }
}

/// A header that has to have one value.
fn header_is(head: &RequestHead, name: &str, wanted: &str) -> (yes: bool)
    ensures
        yes == (http::header_in(head@.headers, name@) == Some(wanted@)),
{
    match head.header(name) {
        Some(value) => text::same_text(value.as_str(), wanted),
        None => false,
    }
}

/// An answer without anything to say.
fn answer(status: u16, reason: &str) -> (refusal: Refusal)
    ensures
        refusal@ == empty_answer(status, reason@),
{
    Refusal::Answer(Response::new(status, reason, "{}"))
}

/// What a head asks for, of a device with an id at a time, or how it is dealt with.
pub fn read_request(head: &RequestHead, own_id: &str, now_ms: u128) -> (request: Result<
    UploadRequest,
    Refusal,
>)
    ensures
        request_read(request, requested(head@, own_id@, now_ms)),
        request matches Ok(read) ==> names::is_safe(read@.file_name),
{
    proof {
        law_requested_name_is_safe(head@, own_id@, now_ms);
    }
    if head.asks("OPTIONS ") {
        return Err(answer(204, "No Content"));
    }
    if !head.asks("POST /upload ") {
        return Err(answer(404, "Not Found"));
    }
    if !header_is(head, "x-file-sharer-protocol", PROTOCOL) {
        return Err(answer(400, "Bad Request"));
    }
    if !header_is(head, "x-crypto-mode", CRYPTO_MODE) {
        return Err(answer(400, "Bad Request"));
    }
    let file_name = match decode_header(head, "x-file-name") {
        Some(name) => {
            let safe = names::sanitize_file_name(name.as_str());
            if text::chars_of(safe.as_str()).len() > 0 {
                safe
            } else {
                "shared-file".to_string()
            }
        },
        None => "shared-file".to_string(),
    };
    let sender_name = match decode_header(head, "x-sender-name") {
        Some(name) => if text::blank(name.as_str()) {
            "Unknown device".to_string()
        } else {
            name
        },
        None => "Unknown device".to_string(),
    };
    let length: Option<u64> = match head.header("content-length") {
        Some(value) => digits::parse_u64(value.as_str()),
        None => None,
    };
    let content_length: u64 = match length {
        Some(number) => number,
        None => return Err(Refusal::Abort("missing content-length".to_string())),
    };
    let named = match decode_header(head, "x-transfer-id") {
        Some(id) => if text::blank(id.as_str()) {
            None
        } else {
            Some(id)
        },
        None => None,
    };
    let transfer_id = match named {
        Some(id) => id,
        None => identity::transfer_id("remote", own_id, file_name.as_str(), now_ms),
    };
    let sender_public = match head.header("x-crypto-sender-public") {
        Some(value) => value,
        None => return Err(answer(400, "Bad Request")),
    };
    let nonce = match head.header("x-crypto-nonce") {
        Some(value) => value,
        None => return Err(answer(400, "Bad Request")),
    };
    let mac = match head.header("x-crypto-mac") {
        Some(value) => value,
        None => return Err(answer(400, "Bad Request")),
    };
    Ok(
        UploadRequest {
            transfer_id,
            file_name,
            sender_name,
            content_length,
            sender_public,
            nonce,
            mac,
        },
    )
}

/// A file that is being received, by its texts, keys and bytes.
#[verifier::ext_equal]
pub struct ReceivingView {
    pub request: RequestView,
    pub keys: TransferKeys,
    /// The code that the sender gave.
    pub expected: Seq<u8>,
    /// What has been received of the content, decrypted.
    pub content: Seq<u8>,
}

/// A file that is being received.
pub struct Receiving {
    request: UploadRequest,
    crypto: TransferCrypto,
    expected: [u8; 32],
    cipher: StreamCipher,
    mac: FileMac,
    received: u64,
}

/// What is authenticated in front of the content of a file that is asked for.
pub open spec fn request_prefix(request: RequestView) -> Seq<u8> {
    transfer::mac_prefix(
        request.transfer_id,
        request.file_name,
        request.sender_name,
        request.content_length,
    )
}

impl View for Receiving {
    type V = ReceivingView;

    closed spec fn view(&self) -> ReceivingView {
        ReceivingView {
            request: self.request@,
            keys: self.crypto.keys(),
            expected: self.expected@,
            content: self.mac.message().skip(request_prefix(self.request@).len() as int),
        }
    }
}

/// What is told of a file that is being received.
pub open spec fn receiving_progress(
    request: RequestView,
    phase: TransferPhase,
    bytes_transferred: u64,
    error: Option<Seq<char>>,
) -> ProgressView {
    ProgressView {
        transfer_id: request.transfer_id,
        direction: TransferDirection::Received,
        phase,
        file_name: request.file_name,
        peer_name: request.sender_name,
        bytes_transferred,
        total_bytes: request.content_length,
        encrypted: true,
        error,
    }
}

/// The code that authenticates the content of a file that is asked for.
pub open spec fn request_code(request: RequestView, keys: TransferKeys, content: Seq<u8>) -> Seq<
    u8,
> {
    transfer::file_code(
        keys.mac_key,
        request.transfer_id,
        request.file_name,
        request.sender_name,
        request.content_length,
        content,
    )
}

/// Whether the names of a request and a content of a length can be authenticated.
pub open spec fn request_fits(request: RequestView, length: int) -> bool {
    transfer::can_authenticate(
        request.transfer_id,
        request.file_name,
        request.sender_name,
        length,
    )
}

/// The answer to an upload whose keys are wrong.
pub open spec fn bad_request(error: Seq<char>) -> ResponseView {
    ResponseView { status: 400, reason: "Bad Request"@, body: http::error_body(error) }
}

/// The answer to an upload that could not be saved.
pub open spec fn internal_error(error: Seq<char>) -> ResponseView {
    ResponseView { status: 500, reason: "Internal Server Error"@, body: http::error_body(error) }
}

/// The answer to an upload that was saved at a path.
pub open spec fn saved_answer(path: Seq<char>) -> ResponseView {
    ResponseView {
        status: 200,
        reason: "OK"@,
        body: "{\"ok\":true,\"file\":\""@ + names::json_text(path) + "\"}"@,
    }
}

/// The answer to an upload that could not be saved.
pub fn server_error(error: &str) -> (response: Response)
    ensures
        response@ == internal_error(error@),
{
    Response::new(500, "Internal Server Error", http::error_body_text(error).as_str())
}

/// What is told, and what is answered, of a file that was not received.
pub struct UnreceivedFile {
    pub progress: TransferProgress,
    pub response: Response,
}

/// A file that was received and is what the sender sent.
pub struct VerifiedFile {
    request: UploadRequest,
}

/// What there is of a file that was received: what is remembered, what is told, and what is
/// answered.
pub struct ReceivedFile {
    pub event: TransferEvent,
    pub progress: TransferProgress,
    pub response: Response,
}

/// The words that tell that the code did not match.
pub const VERIFICATION_FAILED: &'static str = "加密校验失败";

impl Receiving {
    /// The cipher is as far on as bytes have been received, which are no more than the request
    /// says, the names and the content have been taken into the code, and the file has a safe name.
    pub closed spec fn wf(&self) -> bool {
        &&& self.cipher.wf()
        &&& self.cipher.key() == self.crypto.keys().cipher_key
        &&& self.cipher.nonce() == self.crypto.keys().nonce
        &&& self.cipher.position() == self.received as int % STREAM_PERIOD as int
        &&& self.mac.wf()
        &&& self.mac.block() == hmac::block_key(self.crypto.keys().mac_key)
        &&& self.mac.message() == request_prefix(self.request@) + self@.content
        &&& self.received == self@.content.len()
        &&& self.received <= self.request.content_length
        &&& names::is_safe(self.request.file_name@)
    }

    /// The receiving of a file that is asked for, with the code and the session that its headers
    /// came to; a wrong code is a bad request, and so is a session that could not be made, which
    /// says why.
    pub fn over(
        request: UploadRequest,
        mac: Result<[u8; 32], String>,
        session: Result<TransferCrypto, String>,
    ) -> (receiving: Result<Receiving, Response>)
        requires
            request_fits(request@, 0),
            names::is_safe(request@.file_name),
        ensures
            match (mac, session) {
                (Err(_), _) => receiving matches Err(response) && response@ == (ResponseView {
                    status: 400,
                    reason: "Bad Request"@,
                    body: "{}"@,
                }),
                (_, Err(error)) => receiving matches Err(response) && response@ == bad_request(
                    error@,
                ),
                (Ok(code), Ok(crypto)) => receiving matches Ok(begun) && begun.wf() && begun@ == (
                ReceivingView {
                    request: request@,
                    keys: crypto.keys(),
                    expected: code@,
                    content: Seq::empty(),
                }),
            },
    {
        let expected: [u8; 32] = match mac {
            Ok(code) => code,
            Err(_) => return Err(Response::new(400, "Bad Request", "{}")),
        };
        let crypto = match session {
            Ok(made) => made,
            Err(error) => {
                let body = http::error_body_text(error.as_str());
                return Err(Response::new(400, "Bad Request", body.as_str()));
            },
        };
        let mac = FileMac::new(
            &crypto,
            request.transfer_id.as_str(),
            request.file_name.as_str(),
            request.sender_name.as_str(),
            request.content_length,
        );
        let cipher = crypto.stream_cipher();
        let receiving = Receiving { request, crypto, expected, cipher, mac, received: 0 };
        proof {
            let prefix = request_prefix(receiving.request@);
            assert(receiving@.content =~= Seq::<u8>::empty());
            assert(prefix + Seq::<u8>::empty() =~= prefix);
        }
        Ok(receiving)
    }

    /// The receiving of a file that is asked for, with the code and the keys that its headers
    /// hold for the holder of a key pair.
    pub fn start(keys: &KeyPair, request: UploadRequest) -> (receiving: Result<Receiving, Response>)
        requires
            keys.wf(),
            request_fits(request@, 0),
            names::is_safe(request@.file_name),
        ensures
            match (
                encoding::mac_of(encoding::base64_decoded(request@.mac)),
                crypto::receiver_keys(keys.private(), request@.sender_public, request@.nonce),
            ) {
                (Err(_), _) => receiving matches Err(response) && response@ == (ResponseView {
                    status: 400,
                    reason: "Bad Request"@,
                    body: "{}"@,
                }),
                (_, Err(error)) => receiving matches Err(response) && response@ == bad_request(
                    error,
                ),
                (Ok(code), Ok(derived)) => receiving matches Ok(begun) && begun.wf() && begun@ == (
                ReceivingView {
                    request: request@,
                    keys: derived,
                    expected: code,
                    content: Seq::empty(),
                }),
            },
    {
        let mac = encoding::decode_mac(request.mac.as_str());
        let session = keys.create_receiver_session(
            request.sender_public.as_str(),
            request.nonce.as_str(),
        );
        Receiving::over(request, mac, session)
    }

    /// The id of the transfer.
    pub fn transfer_id(&self) -> (id: String)
        ensures
            id@ == self@.request.transfer_id,
    {
        self.request.transfer_id.clone()
    }

    /// The name that the file is received under.
    pub fn file_name(&self) -> (name: String)
        ensures
            name@ == self@.request.file_name,
    {
        self.request.file_name.clone()
    }

    /// How many bytes are to be read next: none once all have been received.
    pub fn wanted(&self) -> (size: usize)
        requires
            self.wf(),
        ensures
            size == chunk_size(self@.request.content_length - self@.content.len()),
    {
        let remaining: u64 = self.request.content_length - self.received;
        if remaining < TRANSFER_CHUNK_SIZE as u64 {
            remaining as usize
        } else {
            TRANSFER_CHUNK_SIZE
        }
    }

    /// Whether another part of the content of a size was announced.
    pub fn announced(&self, size: usize) -> (yes: bool)
        requires
            self.wf(),
        ensures
            yes == (self@.content.len() + size <= self@.request.content_length),
    {
        size as u64 <= self.request.content_length - self.received
    }

    /// Whether another part of the content of a size can be authenticated.
    pub fn authenticates(&self, size: usize) -> (yes: bool)
        requires
            self.wf(),
        ensures
            yes == request_fits(self@.request, self@.content.len() + size),
    {
        let sum: u128 = self.received as u128 + size as u128;
        if sum > u64::MAX as u128 {
            return false;
        }
        transfer::authenticates(
            self.request.transfer_id.as_str(),
            self.request.file_name.as_str(),
            self.request.sender_name.as_str(),
            sum as u64,
        )
    }

    /// Decrypts the next part of the content and takes it in.
    pub fn decrypt(&mut self, chunk: &mut [u8])
        requires
            old(self).wf(),
            old(self)@.content.len() + old(chunk)@.len() <= old(self)@.request.content_length,
            request_fits(old(self)@.request, (old(self)@.content.len() + old(chunk)@.len()) as int),
        ensures
            final(self).wf(),
            final(chunk)@ == chacha::encrypted(
                old(self)@.keys.cipher_key,
                old(self)@.keys.nonce,
                old(self)@.content.len() as int,
                old(chunk)@,
            ),
            final(self)@ == (ReceivingView {
                content: old(self)@.content + final(chunk)@,
                ..old(self)@
            }),
    {
        let ghost received = self.received as int;
        let ghost before = self@;
        let ghost secret = chunk@;
        let ghost prefix = request_prefix(self.request@);
        let size: usize = chunk.len();
        proof {
            transfer::lemma_mac_prefix_len(
                before.request.transfer_id,
                before.request.file_name,
                before.request.sender_name,
                before.request.content_length,
            );
        }
        self.cipher.apply(chunk);
        self.mac.update(chunk);
        self.received = self.received + size as u64;
        proof {
            let keys = self.crypto.keys();
            chacha::lemma_encrypted_wraps(keys.cipher_key, keys.nonce, received, secret);
            vstd::arithmetic::div_mod::lemma_add_mod_noop(
                received,
                secret.len() as int,
                STREAM_PERIOD as int,
            );
            vstd::arithmetic::div_mod::lemma_add_mod_noop(
                received % STREAM_PERIOD as int,
                secret.len() as int,
                STREAM_PERIOD as int,
            );
            vstd::arithmetic::div_mod::lemma_mod_twice(received, STREAM_PERIOD as int);
            assert(self.mac.message() =~= prefix + (before.content + chunk@));
            assert(self@.content =~= before.content + chunk@);
        }
    }

    /// What is told of the receiving.
    fn progress(
        &self,
        phase: TransferPhase,
        bytes_transferred: u64,
        error: Option<String>,
    ) -> (progress: TransferProgress)
        ensures
            progress@ == receiving_progress(
                self@.request,
                phase,
                bytes_transferred,
                http::optional_view(error),
            ),
    {
        transfer::progress_of(
            self.request.transfer_id.as_str(),
            TransferDirection::Received,
            phase,
            self.request.file_name.as_str(),
            self.request.sender_name.as_str(),
            bytes_transferred,
            self.request.content_length,
            error,
        )
    }

    /// What is told when the receiving starts.
    pub fn started(&self) -> (progress: TransferProgress)
        ensures
            progress@ == receiving_progress(self@.request, TransferPhase::Started, 0, None),
    {
        self.progress(TransferPhase::Started, 0, None)
    }

    /// What is told while the receiving goes on.
    pub fn progressed(&self) -> (progress: TransferProgress)
        requires
            self.wf(),
        ensures
            progress@ == receiving_progress(
                self@.request,
                TransferPhase::Progress,
                self@.content.len() as u64,
                None,
            ),
    {
        self.progress(TransferPhase::Progress, self.received, None)
    }

    /// What is told and answered when the transfer was cancelled.
    pub fn cancelled(&self) -> (unreceived: UnreceivedFile)
        requires
            self.wf(),
        ensures
            unreceived.progress@ == receiving_progress(
                self@.request,
                TransferPhase::Failed,
                self@.content.len() as u64,
                Some(CANCELLED@),
            ),
            unreceived.response@ == (ResponseView {
                status: 499,
                reason: "Client Closed Request"@,
                body: "{\"ok\":false,\"error\":\"cancelled\"}"@,
            }),
    {
        UnreceivedFile {
            progress: self.progress(
                TransferPhase::Failed,
                self.received,
                Some(CANCELLED.to_string()),
            ),
            response: Response::new(
                499,
                "Client Closed Request",
                "{\"ok\":false,\"error\":\"cancelled\"}",
            ),
        }
    }

    /// Whether what was received is what the sender sent: only if the code of the names and the
    /// content is the one that the sender gave. Otherwise, what is told and answered.
    pub fn verify(self) -> (outcome: Result<VerifiedFile, UnreceivedFile>)
        requires
            self.wf(),
        ensures
            if self@.expected == request_code(self@.request, self@.keys, self@.content) {
                outcome matches Ok(verified) && verified@ == self@.request
            } else {
                outcome matches Err(unreceived) && unreceived.progress@ == receiving_progress(
                    self@.request,
                    TransferPhase::Failed,
                    self@.content.len() as u64,
                    Some(VERIFICATION_FAILED@),
                ) && unreceived.response@ == (ResponseView {
                    status: 400,
                    reason: "Bad Request"@,
                    body: "{\"ok\":false,\"error\":\"crypto verification failed\"}"@,
                })
            },
    {
        let failure = UnreceivedFile {
            progress: self.progress(
                TransferPhase::Failed,
                self.received,
                Some(VERIFICATION_FAILED.to_string()),
            ),
            response: Response::new(
                400,
                "Bad Request",
                "{\"ok\":false,\"error\":\"crypto verification failed\"}",
            ),
        };
        let actual: [u8; 32] = self.mac.finalize();
        if hmac::constant_time_eq(&actual, &self.expected) {
            Ok(VerifiedFile { request: self.request })
        } else {
            Err(failure)
        }
    }
}

/// No more of a file has been received than was announced, and the file has a safe name.
pub proof fn lemma_sound(file: Receiving)
    requires
        file.wf(),
    ensures
        file@.content.len() <= file@.request.content_length,
        names::is_safe(file@.request.file_name),
{
}

/// How many bytes are read at once, if so many are left.
pub open spec fn chunk_size(remaining: int) -> int {
    if remaining < TRANSFER_CHUNK_SIZE {
        remaining
    } else {
        TRANSFER_CHUNK_SIZE as int
    }
}

impl View for VerifiedFile {
    type V = RequestView;

    closed spec fn view(&self) -> RequestView {
        self.request@
    }
}

impl VerifiedFile {
    /// What is remembered, told and answered of a file that was saved at a path and may have been
    /// published.
    pub fn saved(
        self,
        path: &str,
        published: Option<PublishedFile>,
        now_ms: u128,
    ) -> (received: ReceivedFile)
        ensures
            received.event@ == (EventView {
                direction: TransferDirection::Received,
                file_name: self@.file_name,
                peer_name: self@.sender_name,
                bytes: self@.content_length,
                saved_path: Some(files::place_of(published, path@)),
                timestamp_ms: now_ms,
            }),
            received.progress@ == receiving_progress(
                self@,
                TransferPhase::Finished,
                self@.content_length,
                None,
            ),
            received.response@ == saved_answer(path@),
    {
        let mut body = "{\"ok\":true,\"file\":\"".to_string();
        body.append(names::json_escape(path).as_str());
        body.append("\"}");
        let request = self.request;
        let progress = transfer::progress_of(
            request.transfer_id.as_str(),
            TransferDirection::Received,
            TransferPhase::Finished,
            request.file_name.as_str(),
            request.sender_name.as_str(),
            request.content_length,
            request.content_length,
            None,
        );
        let event = TransferEvent {
            direction: TransferDirection::Received,
            file_name: request.file_name,
            peer_name: request.sender_name,
            bytes: request.content_length,
            saved_path: Some(files::saved_path(published, path)),
            timestamp_ms: now_ms,
        };
        ReceivedFile { event, progress, response: Response::new(200, "OK", body.as_str()) }
    }
}

/// What is said of an upload that is asked for is what stands in its fields.
pub proof fn law_request_is_told_as_it_is(request: UploadRequest)
    ensures
        request@.transfer_id == request.transfer_id@,
        request@.file_name == request.file_name@,
        request@.sender_name == request.sender_name@,
        request@.content_length == request.content_length,
        request@.sender_public == request.sender_public@,
        request@.nonce == request.nonce@,
        request@.mac == request.mac@,
{
}

/// What is said of a refusal is what it holds.
pub proof fn law_refusal_is_told_as_it_is(refusal: Refusal)
    ensures
        refusal matches Refusal::Answer(response) ==> refusal@ == RefusalView::Answer(response@),
        refusal matches Refusal::Abort(reason) ==> refusal@ == RefusalView::Abort(reason@),
{
}

/// A request is refused for the first thing that is wrong with it: an OPTIONS request has nothing to
/// be answered, and what is no upload is not found; then the protocol and the cryptography have to be
/// the right ones, the length has to be a number, and the three headers of the cryptography have to
/// be there.
pub proof fn law_requests_are_refused_for_the_first_fault(
    head: HeadView,
    own_id: Seq<char>,
    now_ms: u128,
)
    ensures
        ({
            let found = requested(head, own_id, now_ms);
            let headers = head.headers;
            let options = head.request_line matches Some(line) && "OPTIONS "@.is_prefix_of(line);
            let upload = head.request_line matches Some(line) && "POST /upload "@.is_prefix_of(line);
            let marked = headers.contains_key("x-file-sharer-protocol"@)
                && headers["x-file-sharer-protocol"@] == "file-sharer.v2"@ && headers.contains_key(
                "x-crypto-mode"@,
            ) && headers["x-crypto-mode"@] == "dh-sha256-stream-v1"@;
            let sized = headers.contains_key("content-length"@) && digits::parsed_u64(
                headers["content-length"@],
            ) is Some;
            let keyed = headers.contains_key("x-crypto-sender-public"@) && headers.contains_key(
                "x-crypto-nonce"@,
            ) && headers.contains_key("x-crypto-mac"@);
            &&& options ==> found == Err::<RequestView, RefusalView>(
                RefusalView::Answer(
                    ResponseView { status: 204, reason: "No Content"@, body: "{}"@ },
                ),
            )
            &&& !options && !upload ==> found == Err::<RequestView, RefusalView>(
                RefusalView::Answer(
                    ResponseView { status: 404, reason: "Not Found"@, body: "{}"@ },
                ),
            )
            &&& !options && upload && !marked ==> found == Err::<RequestView, RefusalView>(
                RefusalView::Answer(
                    ResponseView { status: 400, reason: "Bad Request"@, body: "{}"@ },
                ),
            )
            &&& !options && upload && marked && !sized ==> found == Err::<RequestView, RefusalView>(
                RefusalView::Abort("missing content-length"@),
            )
            &&& !options && upload && marked && sized && !keyed ==> found == Err::<
                RequestView,
                RefusalView,
            >(
                RefusalView::Answer(
                    ResponseView { status: 400, reason: "Bad Request"@, body: "{}"@ },
                ),
            )
            &&& !options && upload && marked && sized && keyed ==> found is Ok
        }),
{
    reveal_strlit("OPTIONS ");
    reveal_strlit("POST /upload ");
    reveal_strlit("");
    assert("OPTIONS "@.len() == 8);
    assert("POST /upload "@.len() == 13);
    assert(""@.len() == 0);
}

/// An upload is read from its headers, each thing from its own: the length, the key, the nonce and
/// the code as they are, and the names decoded. The file has the sanitized name, or a made up one if
/// nothing is left of it; the sender is unknown without a name; and a transfer without an id gets one.
pub proof fn law_upload_is_read_from_its_headers(head: HeadView, own_id: Seq<char>, now_ms: u128)
    requires
        requested(head, own_id, now_ms) is Ok,
    ensures
        ({
            let request = requested(head, own_id, now_ms)->Ok_0;
            let headers = head.headers;
            let named = headers.contains_key("x-file-name"@) && names::percent_decoded(
                headers["x-file-name"@],
            ) is Ok && names::safe_file_name(
                names::percent_decoded(headers["x-file-name"@])->Ok_0,
            ).len() > 0;
            let signed = headers.contains_key("x-sender-name"@) && names::percent_decoded(
                headers["x-sender-name"@],
            ) is Ok && !text::is_blank(names::percent_decoded(headers["x-sender-name"@])->Ok_0);
            let known = headers.contains_key("x-transfer-id"@) && names::percent_decoded(
                headers["x-transfer-id"@],
            ) is Ok && !text::is_blank(names::percent_decoded(headers["x-transfer-id"@])->Ok_0);
            &&& digits::parsed_u64(headers["content-length"@]) == Some(request.content_length)
            &&& request.sender_public == headers["x-crypto-sender-public"@]
            &&& request.nonce == headers["x-crypto-nonce"@]
            &&& request.mac == headers["x-crypto-mac"@]
            &&& request.file_name == (if named {
                names::safe_file_name(names::percent_decoded(headers["x-file-name"@])->Ok_0)
            } else {
                "shared-file"@
            })
            &&& request.sender_name == (if signed {
                names::percent_decoded(headers["x-sender-name"@])->Ok_0
            } else {
                "Unknown device"@
            })
            &&& request.transfer_id == (if known {
                names::percent_decoded(headers["x-transfer-id"@])->Ok_0
            } else {
                identity::transfer_id_of("remote"@, own_id, request.file_name, now_ms)
            })
        }),
{
}

/// What is told of a file that is received names the transfer, the file and the sender, and says how
/// far it has come; it goes by the request in everything that is told of it.
pub proof fn law_receiving_is_told_by_the_request(
    request: RequestView,
    phase: TransferPhase,
    bytes_transferred: u64,
    error: Option<Seq<char>>,
)
    ensures
        ({
            let told = receiving_progress(request, phase, bytes_transferred, error);
            &&& told.transfer_id == request.transfer_id
            &&& told.direction == TransferDirection::Received
            &&& told.phase == phase
            &&& told.file_name == request.file_name
            &&& told.peer_name == request.sender_name
            &&& told.bytes_transferred == bytes_transferred
            &&& told.total_bytes == request.content_length
            &&& told.encrypted
            &&& told.error == error
        }),
{
}

/// The code that a receiver expects covers the names and the length of the request and the content,
/// under the transfer's authentication key.
pub proof fn law_receiver_authenticates_the_request(
    request: RequestView,
    keys: TransferKeys,
    content: Seq<u8>,
    length: int,
)
    ensures
        request_code(request, keys, content) == transfer::file_code(
            keys.mac_key,
            request.transfer_id,
            request.file_name,
            request.sender_name,
            request.content_length,
            content,
        ),
        request_prefix(request) + content == transfer::mac_prefix(
            request.transfer_id,
            request.file_name,
            request.sender_name,
            request.content_length,
        ) + content,
        request_fits(request, length) <==> transfer::can_authenticate(
            request.transfer_id,
            request.file_name,
            request.sender_name,
            length,
        ),
{
}

/// The answers to an upload: 200 with the path, 400 with what is wrong with its keys, and 500 with
/// what went wrong here.
pub proof fn law_uploads_are_answered(text: Seq<char>)
    ensures
        saved_answer(text).status == 200,
        saved_answer(text).reason == "OK"@,
        saved_answer(text).body == "{\"ok\":true,\"file\":\""@ + names::json_text(text) + "\"}"@,
        bad_request(text).status == 400,
        bad_request(text).reason == "Bad Request"@,
        bad_request(text).body == "{\"ok\":false,\"error\":\""@ + names::json_text(text) + "\"}"@,
        internal_error(text).status == 500,
        internal_error(text).reason == "Internal Server Error"@,
        internal_error(text).body == "{\"ok\":false,\"error\":\""@ + names::json_text(text) + "\"}"@,
{
}

/// No more is read at once than is left, and no more than 65536 bytes; but as much as that.
pub proof fn law_content_is_read_in_parts(remaining: int)
    ensures
        chunk_size(remaining) <= remaining,
        chunk_size(remaining) <= 65536,
        chunk_size(remaining) == remaining || chunk_size(remaining) == 65536,
{
}

} // verus!
