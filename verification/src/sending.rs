//! The sender's end of a transfer.

use crate::address;
use crate::chacha;
use crate::chacha::{StreamCipher, STREAM_PERIOD};
use crate::crypto;
use crate::crypto::{KeyPair, SenderSession, SessionView, TransferKeys};
use crate::devices::{DeviceInfo, DeviceView};
use crate::encoding;
use crate::history::{EventView, TransferDirection, TransferEvent};
use crate::hmac;
use crate::http;
use crate::http::{UploadHead, UploadView};
use crate::identity;
use crate::identity::{Identity, IdentityView};
use crate::names;
use crate::text;
use crate::transfer;
use crate::transfer::{
    FileMac, ProgressView, ReceiptView, TransferPhase, TransferProgress, TransferReceipt, CANCELLED,
};
use vstd::prelude::*;

verus! {

/// Why a file was not sent. What the system or the receiver said is told with it.
pub enum SendError {
    NoFiles,
    NoTarget,
    TargetOffline,
    TargetOutside,
    ReadFailed(String),
    NotAFile(String),
    NameInvalid,
    OpenFailed(String),
    AddressInvalid(String),
    ConnectFailed(String),
    TimeoutFailed(String),
    SessionFailed(String),
    MacFailed(String),
    HeadFailed(String),
    ContentFailed(String),
    Cancelled,
    Refused(String),
}

/// What is told of an error.
pub open spec fn send_error_text(error: SendError) -> Seq<char> {
    match error {
        SendError::NoFiles => "没有可发送的文件"@,
        SendError::NoTarget => "缺少目标设备"@,
        SendError::TargetOffline => "目标设备不在线"@,
        SendError::TargetOutside => "目标设备不在局域网地址范围内"@,
        SendError::ReadFailed(cause) => "读取文件失败："@ + cause@,
        SendError::NotAFile(path) => "只支持发送文件："@ + path@,
        SendError::NameInvalid => "文件名无效"@,
        SendError::OpenFailed(cause) => "打开文件失败："@ + cause@,
        SendError::AddressInvalid(cause) => "目标地址无效："@ + cause@,
        SendError::ConnectFailed(cause) => "连接目标失败："@ + cause@,
        SendError::TimeoutFailed(cause) => "设置发送超时失败："@ + cause@,
        SendError::SessionFailed(cause) => "创建加密会话失败："@ + cause@,
        SendError::MacFailed(cause) => "计算加密校验失败："@ + cause@,
        SendError::HeadFailed(cause) => "写入请求头失败："@ + cause@,
        SendError::ContentFailed(cause) => "发送文件失败："@ + cause@,
        SendError::Cancelled => CANCELLED@,
        SendError::Refused(answer) => answer@,
    }
}

impl SendError {
    /// What is told of the error.
    pub fn message(&self) -> (out: String)
        ensures
            out@ == send_error_text(*self),
    {
        match self {
            SendError::NoFiles => "没有可发送的文件".to_string(),
            SendError::NoTarget => "缺少目标设备".to_string(),
            SendError::TargetOffline => "目标设备不在线".to_string(),
            SendError::TargetOutside => "目标设备不在局域网地址范围内".to_string(),
            SendError::ReadFailed(cause) => text::concat("读取文件失败：", cause.as_str()),
            SendError::NotAFile(path) => text::concat("只支持发送文件：", path.as_str()),
            SendError::NameInvalid => "文件名无效".to_string(),
            SendError::OpenFailed(cause) => text::concat("打开文件失败：", cause.as_str()),
            SendError::AddressInvalid(cause) => text::concat("目标地址无效：", cause.as_str()),
            SendError::ConnectFailed(cause) => text::concat("连接目标失败：", cause.as_str()),
            SendError::TimeoutFailed(cause) => {
                text::concat("设置发送超时失败：", cause.as_str())
            },
            SendError::SessionFailed(cause) => {
                text::concat("创建加密会话失败：", cause.as_str())
            },
            SendError::MacFailed(cause) => text::concat("计算加密校验失败：", cause.as_str()),
            SendError::HeadFailed(cause) => text::concat("写入请求头失败：", cause.as_str()),
            SendError::ContentFailed(cause) => text::concat("发送文件失败：", cause.as_str()),
            SendError::Cancelled => CANCELLED.to_string(),
            SendError::Refused(answer) => answer.clone(),
        }
    }
}

/// The name of a file that is to be sent, if it has one that is a text.
pub fn send_name(name: Option<String>) -> (found: Result<String, SendError>)
    ensures
        match name {
            Some(known) => found == Ok::<String, SendError>(known),
            None => found == Err::<String, SendError>(SendError::NameInvalid),
        },
{
    match name {
        Some(known) => Ok(known),
        None => Err(SendError::NameInvalid),
    }
}

/// A file that is being sent, by its texts, keys and counts.
#[verifier::ext_equal]
pub struct SendingView {
    pub transfer_id: Seq<char>,
    /// The file's own name.
    pub file_name: Seq<char>,
    /// The name that the file is sent under.
    pub sent_name: Seq<char>,
    pub sender_id: Seq<char>,
    pub sender_name: Seq<char>,
    pub peer_name: Seq<char>,
    pub address: Seq<char>,
    pub total_bytes: u64,
    pub sent_bytes: u64,
    pub sender_public: Seq<char>,
    pub nonce: Seq<char>,
    pub keys: TransferKeys,
}

/// A file that is being sent.
pub struct Sending {
    transfer_id: String,
    file_name: String,
    sent_name: String,
    sender_id: String,
    sender_name: String,
    peer_name: String,
    address: String,
    total_bytes: u64,
    sent_bytes: u64,
    session: SenderSession,
    cipher: StreamCipher,
}

impl View for Sending {
    type V = SendingView;

    closed spec fn view(&self) -> SendingView {
        SendingView {
            transfer_id: self.transfer_id@,
            file_name: self.file_name@,
            sent_name: self.sent_name@,
            sender_id: self.sender_id@,
            sender_name: self.sender_name@,
            peer_name: self.peer_name@,
            address: self.address@,
            total_bytes: self.total_bytes,
            sent_bytes: self.sent_bytes,
            sender_public: self.session.sender_public_header@,
            nonce: self.session.nonce_header@,
            keys: self.session.crypto.keys(),
        }
    }
}

/// The sending of a file of a name and a length to a device, over a session, before any of it has
/// been sent.
pub open spec fn sending_of(
    session: SessionView,
    sender: IdentityView,
    target: DeviceView,
    file_name: Seq<char>,
    total_bytes: u64,
    now_ms: u128,
) -> SendingView {
    SendingView {
        transfer_id: identity::transfer_id_of(sender.id, target.id, file_name, now_ms),
        file_name,
        sent_name: names::safe_file_name(file_name),
        sender_id: sender.id,
        sender_name: sender.name,
        peer_name: target.name,
        address: address::host_and_port(target.address, target.port),
        total_bytes,
        sent_bytes: 0,
        sender_public: session.sender_public,
        nonce: session.nonce,
        keys: session.keys,
    }
}

/// Whether this is the sending of a file of a name and a length to a device, over a session under
/// a private key and a nonce with the holder of a public key, before any of it has been sent.
pub open spec fn is_begun(
    sending: SendingView,
    private: nat,
    receiver_public: nat,
    nonce: Seq<u8>,
    sender: IdentityView,
    target: DeviceView,
    file_name: Seq<char>,
    total_bytes: u64,
    now_ms: u128,
) -> bool {
    let session = crypto::session_of(private, receiver_public, nonce);
    &&& session.is_for(private, receiver_public, nonce)
    &&& sending == sending_of(session, sender, target, file_name, total_bytes, now_ms)
}

/// What is told of a file that is being sent.
pub open spec fn sending_progress(
    sending: SendingView,
    phase: TransferPhase,
    bytes_transferred: u64,
    error: Option<Seq<char>>,
) -> ProgressView {
    ProgressView {
        transfer_id: sending.transfer_id,
        direction: TransferDirection::Sent,
        phase,
        file_name: sending.file_name,
        peer_name: sending.peer_name,
        bytes_transferred,
        total_bytes: sending.total_bytes,
        encrypted: true,
        error,
    }
}

/// What the head of the request says for a file that is being sent and its code.
pub open spec fn sending_head(sending: SendingView, mac: Seq<char>) -> UploadView {
    UploadView {
        address: sending.address,
        length: sending.total_bytes,
        sender_id: sending.sender_id,
        sender_name: sending.sender_name,
        file_name: sending.sent_name,
        transfer_id: sending.transfer_id,
        sender_public: sending.sender_public,
        nonce: sending.nonce,
        mac,
    }
}

/// The code that authenticates the content of a file that is being sent.
pub open spec fn sending_code(sending: SendingView, content: Seq<u8>) -> Seq<u8> {
    transfer::file_code(
        sending.keys.mac_key,
        sending.transfer_id,
        sending.sent_name,
        sending.sender_name,
        sending.total_bytes,
        content,
    )
}

/// What there is of a file that was sent: the receipt, what is remembered, and what is told.
pub struct SentFile {
    pub receipt: TransferReceipt,
    pub event: TransferEvent,
    pub progress: TransferProgress,
}

/// What there is of a file that was not sent: the error, and what is told.
pub struct UnsentFile {
    pub error: SendError,
    pub progress: TransferProgress,
}

impl Sending {
    /// The cipher is the session's, as far on as bytes have been sent.
    pub closed spec fn wf(&self) -> bool {
        &&& self.cipher.wf()
        &&& self.cipher.key() == self.session.crypto.keys().cipher_key
        &&& self.cipher.nonce() == self.session.crypto.keys().nonce
        &&& self.cipher.position() == self.sent_bytes as int % STREAM_PERIOD as int
    }

    /// The sending of a file to a device, over the session that was made with it, if one was.
    pub fn over(
        session: Result<SenderSession, String>,
        sender: &Identity,
        target: &DeviceInfo,
        file_name: String,
        total_bytes: u64,
        now_ms: u128,
    ) -> (sending: Result<Sending, SendError>)
        ensures
            match session {
                Ok(made) => sending matches Ok(begun) && begun.wf() && begun@ == sending_of(
                    made@,
                    sender@,
                    target@,
                    file_name@,
                    total_bytes,
                    now_ms,
                ),
                Err(cause) => sending == Err::<Sending, SendError>(SendError::SessionFailed(cause)),
            },
    {
        let session = match session {
            Ok(made) => made,
            Err(cause) => return Err(SendError::SessionFailed(cause)),
        };
        let transfer_id = identity::transfer_id(
            sender.id.as_str(),
            target.id.as_str(),
            file_name.as_str(),
            now_ms,
        );
        let sent_name = names::sanitize_file_name(file_name.as_str());
        let cipher = session.crypto.stream_cipher();
        Ok(
            Sending {
                transfer_id,
                file_name,
                sent_name,
                sender_id: sender.id.clone(),
                sender_name: sender.name.clone(),
                peer_name: target.name.clone(),
                address: address::socket_address(target.address.as_str(), target.port),
                total_bytes,
                sent_bytes: 0,
                session,
                cipher,
            },
        )
    }

    /// The sending of a file to a device, over a session that is made with it.
    pub fn start(
        keys: &KeyPair,
        sender: &Identity,
        target: &DeviceInfo,
        file_name: String,
        total_bytes: u64,
        private_random: Result<[u8; 16], String>,
        nonce_random: Result<[u8; 16], String>,
        now_ms: u128,
    ) -> (sending: Result<Sending, SendError>)
        ensures
            match encoding::public_key_of(encoding::base64_decoded(target@.crypto_public_key)) {
                Err(error) => sending matches Err(SendError::SessionFailed(cause)) && cause@
                    == error,
                Ok(receiver_public) => match (private_random, nonce_random) {
                    (Err(error), _) => sending == Err::<Sending, SendError>(
                        SendError::SessionFailed(error),
                    ),
                    (_, Err(error)) => sending == Err::<Sending, SendError>(
                        SendError::SessionFailed(error),
                    ),
                    (Ok(private), Ok(nonce)) => sending matches Ok(begun) && begun.wf() && is_begun(
                        begun@,
                        crypto::private_of(private@),
                        receiver_public,
                        nonce@,
                        sender@,
                        target@,
                        file_name@,
                        total_bytes,
                        now_ms,
                    ),
                },
            },
    {
        let session = keys.create_sender_session(
            target.crypto_public_key.as_str(),
            private_random,
            nonce_random,
        );
        Sending::over(session, sender, target, file_name, total_bytes, now_ms)
    }

    /// The id of the transfer.
    pub fn transfer_id(&self) -> (id: String)
        ensures
            id@ == self@.transfer_id,
    {
        self.transfer_id.clone()
    }

    /// How many bytes have been sent.
    pub fn sent_bytes(&self) -> (count: u64)
        ensures
            count == self@.sent_bytes,
    {
        self.sent_bytes
    }

    /// What is told of the sending.
    fn progress(
        &self,
        phase: TransferPhase,
        bytes_transferred: u64,
        error: Option<String>,
    ) -> (progress: TransferProgress)
        ensures
            progress@ == sending_progress(
                self@,
                phase,
                bytes_transferred,
                http::optional_view(error),
            ),
    {
        transfer::progress_of(
            self.transfer_id.as_str(),
            TransferDirection::Sent,
            phase,
            self.file_name.as_str(),
            self.peer_name.as_str(),
            bytes_transferred,
            self.total_bytes,
            error,
        )
    }

    /// What is told when the sending starts.
    pub fn started(&self) -> (progress: TransferProgress)
        ensures
            progress@ == sending_progress(self@, TransferPhase::Started, 0, None),
    {
        self.progress(TransferPhase::Started, 0, None)
    }

    /// Whether a content of a length can be authenticated with the names of the transfer.
    pub fn authenticates(&self, length: u64) -> (yes: bool)
        ensures
            yes == transfer::can_authenticate(
                self@.transfer_id,
                self@.sent_name,
                self@.sender_name,
                length as int,
            ),
    {
        transfer::authenticates(
            self.transfer_id.as_str(),
            self.sent_name.as_str(),
            self.sender_name.as_str(),
            length,
        )
    }

    /// The computation of the code that authenticates the file, with nothing of its content taken
    /// in.
    pub fn file_mac(&self) -> (mac: FileMac)
        requires
            transfer::can_authenticate(
                self@.transfer_id,
                self@.sent_name,
                self@.sender_name,
                0,
            ),
        ensures
            mac.wf(),
            mac.block() == hmac::block_key(self@.keys.mac_key),
            mac.message() == transfer::mac_prefix(
                self@.transfer_id,
                self@.sent_name,
                self@.sender_name,
                self@.total_bytes,
            ),
    {
        FileMac::new(
            &self.session.crypto,
            self.transfer_id.as_str(),
            self.sent_name.as_str(),
            self.sender_name.as_str(),
            self.total_bytes,
        )
    }

    /// What comes of it when the code could not be computed.
    pub fn mac_failed(&self, cause: String) -> (unsent: UnsentFile)
        ensures
            unsent.error == SendError::MacFailed(cause),
            unsent.progress@ == sending_progress(
                self@,
                TransferPhase::Failed,
                0,
                Some(send_error_text(SendError::MacFailed(cause))),
            ),
    {
        let error = SendError::MacFailed(cause);
        let progress = self.progress(TransferPhase::Failed, 0, Some(error.message()));
        UnsentFile { error, progress }
    }

    /// The head of the request, with the code that authenticates the file.
    pub fn head(&self, mac: String) -> (out: String)
        ensures
            out@ == http::upload_text(sending_head(self@, mac@)),
    {
        let head = UploadHead {
            address: self.address.clone(),
            length: self.total_bytes,
            sender_id: self.sender_id.clone(),
            sender_name: self.sender_name.clone(),
            file_name: self.sent_name.clone(),
            transfer_id: self.transfer_id.clone(),
            sender_public: self.session.sender_public_header.clone(),
            nonce: self.session.nonce_header.clone(),
            mac,
        };
        head.text()
    }

    /// Encrypts the next part of the file, and counts it as sent.
    pub fn encrypt(&mut self, chunk: &mut [u8])
        requires
            old(self).wf(),
            old(self)@.sent_bytes + old(chunk)@.len() <= u64::MAX,
        ensures
            final(self).wf(),
            final(self)@ == (SendingView {
                sent_bytes: (old(self)@.sent_bytes + old(chunk)@.len()) as u64,
                ..old(self)@
            }),
            final(chunk)@ == chacha::encrypted(
                old(self)@.keys.cipher_key,
                old(self)@.keys.nonce,
                old(self)@.sent_bytes as int,
                old(chunk)@,
            ),
    {
        let ghost sent = self.sent_bytes as int;
        let ghost plain = chunk@;
        let size: usize = chunk.len();
        self.cipher.apply(chunk);
        self.sent_bytes = self.sent_bytes + size as u64;
        proof {
            let keys = self.session.crypto.keys();
            chacha::lemma_encrypted_wraps(keys.cipher_key, keys.nonce, sent, plain);
            vstd::arithmetic::div_mod::lemma_add_mod_noop(
                sent,
                plain.len() as int,
                STREAM_PERIOD as int,
            );
            vstd::arithmetic::div_mod::lemma_add_mod_noop(
                sent % STREAM_PERIOD as int,
                plain.len() as int,
                STREAM_PERIOD as int,
            );
            vstd::arithmetic::div_mod::lemma_mod_twice(sent, STREAM_PERIOD as int);
        }
    }

    /// What is told while the sending goes on.
    pub fn progressed(&self) -> (progress: TransferProgress)
        ensures
            progress@ == sending_progress(
                self@,
                TransferPhase::Progress,
                self@.sent_bytes,
                None,
            ),
    {
        self.progress(TransferPhase::Progress, self.sent_bytes, None)
    }

    /// What comes of it when the transfer was cancelled.
    pub fn cancelled(&self) -> (unsent: UnsentFile)
        ensures
            unsent.error == SendError::Cancelled,
            unsent.progress@ == sending_progress(
                self@,
                TransferPhase::Failed,
                self@.sent_bytes,
                Some(CANCELLED@),
            ),
    {
        let error = SendError::Cancelled;
        let progress = self.progress(TransferPhase::Failed, self.sent_bytes, Some(error.message()));
        UnsentFile { error, progress }
    }

    /// What comes of it once the receiver has answered: the file was sent if the answer has the
    /// status 200.
    pub fn conclude(&self, response: &str, now_ms: u128) -> (outcome: Result<SentFile, UnsentFile>)
        ensures
            match http::refusal(response@) {
                Some(answer) => outcome matches Err(unsent) && unsent.error matches
                    SendError::Refused(told) && told@ == answer && unsent.progress@
                    == sending_progress(
                    self@,
                    TransferPhase::Failed,
                    self@.sent_bytes,
                    Some(answer),
                ),
                None => outcome matches Ok(sent) && sent.receipt@ == (ReceiptView {
                    file_name: self@.file_name,
                    target_name: self@.peer_name,
                    bytes: self@.total_bytes,
                }) && sent.event@ == (EventView {
                    direction: TransferDirection::Sent,
                    file_name: self@.file_name,
                    peer_name: self@.peer_name,
                    bytes: self@.total_bytes,
                    saved_path: None,
                    timestamp_ms: now_ms,
                }) && sent.progress@ == sending_progress(
                    self@,
                    TransferPhase::Finished,
                    self@.total_bytes,
                    None,
                ),
            },
    {
        match http::upload_refusal(response) {
            Some(answer) => {
                let progress = self.progress(
                    TransferPhase::Failed,
                    self.sent_bytes,
                    Some(answer.clone()),
                );
                Err(UnsentFile { error: SendError::Refused(answer), progress })
            },
            None => {
                let receipt = TransferReceipt {
                    file_name: self.file_name.clone(),
                    target_name: self.peer_name.clone(),
                    bytes: self.total_bytes,
                };
                let event = TransferEvent {
                    direction: TransferDirection::Sent,
                    file_name: self.file_name.clone(),
                    peer_name: self.peer_name.clone(),
                    bytes: self.total_bytes,
                    saved_path: None,
                    timestamp_ms: now_ms,
                };
                let progress = self.progress(TransferPhase::Finished, self.total_bytes, None);
                Ok(SentFile { receipt, event, progress })
            },
        }
    }
}

/// What a sending starts with: the id is made of the sender, the receiver, the file's own name and
/// the time, the file goes under its sanitized name, it is addressed to the device, and nothing of it
/// has been sent.
pub proof fn law_sending_starts_with_what_it_is_told(
    session: SessionView,
    sender: IdentityView,
    target: DeviceView,
    file_name: Seq<char>,
    total_bytes: u64,
    now_ms: u128,
)
    ensures
        ({
            let file = sending_of(session, sender, target, file_name, total_bytes, now_ms);
            &&& file.transfer_id == identity::transfer_id_of(
                sender.id,
                target.id,
                file_name,
                now_ms,
            )
            &&& file.file_name == file_name
            &&& file.sent_name == names::safe_file_name(file_name)
            &&& file.sender_id == sender.id
            &&& file.sender_name == sender.name
            &&& file.peer_name == target.name
            &&& file.address == address::host_and_port(target.address, target.port)
            &&& file.total_bytes == total_bytes
            &&& file.sent_bytes == 0
            &&& file.sender_public == session.sender_public
            &&& file.nonce == session.nonce
            &&& file.keys == session.keys
        }),
{
}

/// What is told of a file that is sent names the transfer, the file by its own name and the receiver,
/// and says how far it has come.
pub proof fn law_sending_is_told_by_the_file(
    sending: SendingView,
    phase: TransferPhase,
    bytes_transferred: u64,
    error: Option<Seq<char>>,
)
    ensures
        ({
            let told = sending_progress(sending, phase, bytes_transferred, error);
            &&& told.transfer_id == sending.transfer_id
            &&& told.direction == TransferDirection::Sent
            &&& told.phase == phase
            &&& told.file_name == sending.file_name
            &&& told.peer_name == sending.peer_name
            &&& told.bytes_transferred == bytes_transferred
            &&& told.total_bytes == sending.total_bytes
            &&& told.encrypted
            &&& told.error == error
        }),
{
}

/// The head of the request tells the receiver what it needs of the file that is sent, and the code;
/// the code covers what the head tells: the transfer's id, the name that the file is sent under, the
/// sender's name, the length and the content.
pub proof fn law_head_tells_what_is_authenticated(
    sending: SendingView,
    mac: Seq<char>,
    content: Seq<u8>,
)
    ensures
        ({
            let head = sending_head(sending, mac);
            &&& head.address == sending.address
            &&& head.length == sending.total_bytes
            &&& head.sender_id == sending.sender_id
            &&& head.sender_name == sending.sender_name
            &&& head.file_name == sending.sent_name
            &&& head.transfer_id == sending.transfer_id
            &&& head.sender_public == sending.sender_public
            &&& head.nonce == sending.nonce
            &&& head.mac == mac
            &&& sending_code(sending, content) == transfer::file_code(
                sending.keys.mac_key,
                head.transfer_id,
                head.file_name,
                head.sender_name,
                head.length,
                content,
            )
        }),
{
}

/// What is told of an error says what failed, and why if that is known.
pub proof fn law_errors_say_what_failed(cause: String)
    ensures
        send_error_text(SendError::NoFiles) == "没有可发送的文件"@,
        send_error_text(SendError::NoTarget) == "缺少目标设备"@,
        send_error_text(SendError::TargetOffline) == "目标设备不在线"@,
        send_error_text(SendError::TargetOutside) == "目标设备不在局域网地址范围内"@,
        send_error_text(SendError::ReadFailed(cause)) == "读取文件失败："@ + cause@,
        send_error_text(SendError::NotAFile(cause)) == "只支持发送文件："@ + cause@,
        send_error_text(SendError::NameInvalid) == "文件名无效"@,
        send_error_text(SendError::OpenFailed(cause)) == "打开文件失败："@ + cause@,
        send_error_text(SendError::AddressInvalid(cause)) == "目标地址无效："@ + cause@,
        send_error_text(SendError::ConnectFailed(cause)) == "连接目标失败："@ + cause@,
        send_error_text(SendError::TimeoutFailed(cause)) == "设置发送超时失败："@ + cause@,
        send_error_text(SendError::SessionFailed(cause)) == "创建加密会话失败："@ + cause@,
        send_error_text(SendError::MacFailed(cause)) == "计算加密校验失败："@ + cause@,
        send_error_text(SendError::HeadFailed(cause)) == "写入请求头失败："@ + cause@,
        send_error_text(SendError::ContentFailed(cause)) == "发送文件失败："@ + cause@,
        send_error_text(SendError::Cancelled) == "传输已取消"@,
        send_error_text(SendError::Refused(cause)) == cause@,
{
}

} // verus!
