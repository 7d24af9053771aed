//! What both ends of a transfer share: what they tell of it, and the code that authenticates the
//! file.

use crate::bytes;
use crate::crypto::TransferCrypto;
use crate::encoding;
use crate::hmac;
use crate::hmac::{HmacSha256, MESSAGE_LIMIT};
use crate::history::TransferDirection;
use crate::http;
use crate::http::PROTOCOL;
use vstd::prelude::*;
use vstd::utf8::*;

verus! {

/// The most bytes of a file that are handled at once.
pub const TRANSFER_CHUNK_SIZE: usize = 65_536;

/// How far a transfer has come.
#[derive(Clone, Copy, Debug, PartialEq, Eq, Structural)]
pub enum TransferPhase {
    Started,
    Progress,
    Finished,
    Failed,
}

/// What is told of a transfer while it goes on.
pub struct TransferProgress {
    pub transfer_id: String,
    pub direction: TransferDirection,
    pub phase: TransferPhase,
    pub file_name: String,
    pub peer_name: String,
    pub bytes_transferred: u64,
    pub total_bytes: u64,
    pub encrypted: bool,
    pub error: Option<String>,
}

/// What is told of a transfer, by its texts.
#[verifier::ext_equal]
pub struct ProgressView {
    pub transfer_id: Seq<char>,
    pub direction: TransferDirection,
    pub phase: TransferPhase,
    pub file_name: Seq<char>,
    pub peer_name: Seq<char>,
    pub bytes_transferred: u64,
    pub total_bytes: u64,
    pub encrypted: bool,
    pub error: Option<Seq<char>>,
}

impl View for TransferProgress {
    type V = ProgressView;

    open spec fn view(&self) -> ProgressView {
        ProgressView {
            transfer_id: self.transfer_id@,
            direction: self.direction,
            phase: self.phase,
            file_name: self.file_name@,
            peer_name: self.peer_name@,
            bytes_transferred: self.bytes_transferred,
            total_bytes: self.total_bytes,
            encrypted: self.encrypted,
            error: http::optional_view(self.error),
        }
    }
}

/// What a sender has of a file that was sent.
pub struct TransferReceipt {
    pub file_name: String,
    pub target_name: String,
    pub bytes: u64,
}

/// What a sender has of a file that was sent, by its texts.
#[verifier::ext_equal]
pub struct ReceiptView {
    pub file_name: Seq<char>,
    pub target_name: Seq<char>,
    pub bytes: u64,
}

impl View for TransferReceipt {
    type V = ReceiptView;

    open spec fn view(&self) -> ReceiptView {
        ReceiptView {
            file_name: self.file_name@,
            target_name: self.target_name@,
            bytes: self.bytes,
        }
    }
}

/// What is told of a transfer that was cancelled.
pub const CANCELLED: &'static str = "传输已取消";

/// What is authenticated in front of a file's content: the protocol, the names of the transfer,
/// of the file and of the sender, and the file's length.
pub open spec fn mac_prefix(
    transfer_id: Seq<char>,
    file_name: Seq<char>,
    sender_name: Seq<char>,
    total_bytes: u64,
) -> Seq<u8> {
    encode_utf8(PROTOCOL@) + encode_utf8(transfer_id) + encode_utf8(file_name) + encode_utf8(
        sender_name,
    ) + bytes::be_bytes(total_bytes as nat, 8)
}

/// The code that authenticates a file of a content under a key.
pub open spec fn file_code(
    mac_key: Seq<u8>,
    transfer_id: Seq<char>,
    file_name: Seq<char>,
    sender_name: Seq<char>,
    total_bytes: u64,
    content: Seq<u8>,
) -> Seq<u8> {
    hmac::hmac_sha256(
        mac_key,
        mac_prefix(transfer_id, file_name, sender_name, total_bytes) + content,
    )
}

/// Whether names and a content are short enough together to be authenticated.
pub open spec fn can_authenticate(
    transfer_id: Seq<char>,
    file_name: Seq<char>,
    sender_name: Seq<char>,
    length: int,
) -> bool {
    encode_utf8(transfer_id).len() + encode_utf8(file_name).len() + encode_utf8(sender_name).len()
        + length + 86 < MESSAGE_LIMIT
}

/// The length of what is authenticated in front of a file's content.
pub proof fn lemma_mac_prefix_len(
    transfer_id: Seq<char>,
    file_name: Seq<char>,
    sender_name: Seq<char>,
    total_bytes: u64,
)
    ensures
        encode_utf8(PROTOCOL@).len() == 14,
        mac_prefix(transfer_id, file_name, sender_name, total_bytes).len() == encode_utf8(
            transfer_id,
        ).len() + encode_utf8(file_name).len() + encode_utf8(sender_name).len() + 22,
{
    reveal_strlit("file-sharer.v2");
    is_ascii_chars_encode_utf8(PROTOCOL@);
    bytes::lemma_be_bytes_len(total_bytes as nat, 8);
}

/// Whether names and a content of a length are short enough together to be authenticated.
pub fn authenticates(
    transfer_id: &str,
    file_name: &str,
    sender_name: &str,
    length: u64,
) -> (yes: bool)
    ensures
        yes == can_authenticate(transfer_id@, file_name@, sender_name@, length as int),
{
    let sum: u128 = transfer_id.as_bytes().len() as u128 + file_name.as_bytes().len() as u128
        + sender_name.as_bytes().len() as u128 + length as u128 + 86;
    sum < MESSAGE_LIMIT as u128
}

/// Whether a text stands for a code in a header.
pub open spec fn is_code_header(text: Seq<char>, code: Seq<u8>) -> bool {
    code.len() == 32 && encoding::is_base64(text) && encoding::decodes_to(text, code)
}

/// The computation of the code that authenticates a file.
pub struct FileMac {
    code: HmacSha256,
}

impl FileMac {
    /// The key block that the code is computed under.
    pub closed spec fn block(&self) -> Seq<u8> {
        self.code.block()
    }

    /// What has been taken in.
    pub closed spec fn message(&self) -> Seq<u8> {
        self.code.message()
    }

    /// The computation can go on.
    pub closed spec fn wf(&self) -> bool {
        self.code.wf()
    }

    /// A computation for a file, with nothing of its content taken in.
    pub fn new(
        crypto: &TransferCrypto,
        transfer_id: &str,
        file_name: &str,
        sender_name: &str,
        total_bytes: u64,
    ) -> (mac: FileMac)
        requires
            can_authenticate(transfer_id@, file_name@, sender_name@, 0),
        ensures
            mac.wf(),
            mac.block() == hmac::block_key(crypto.keys().mac_key),
            mac.message() == mac_prefix(transfer_id@, file_name@, sender_name@, total_bytes),
    {
        proof {
            lemma_mac_prefix_len(transfer_id@, file_name@, sender_name@, total_bytes);
            bytes::lemma_be_bytes_len(total_bytes as nat, 8);
        }
        let mut code = crypto.hmac();
        code.update(PROTOCOL.as_bytes());
        assert(Seq::<u8>::empty() + encode_utf8(PROTOCOL@) =~= encode_utf8(PROTOCOL@));
        code.update(transfer_id.as_bytes());
        code.update(file_name.as_bytes());
        code.update(sender_name.as_bytes());
        code.update(&bytes::u64_to_be(total_bytes));
        FileMac { code }
    }

    /// Takes in the next part of the content.
    pub fn update(&mut self, chunk: &[u8])
        requires
            old(self).wf(),
            old(self).message().len() + chunk@.len() + 64 < MESSAGE_LIMIT,
        ensures
            final(self).wf(),
            final(self).block() == old(self).block(),
            final(self).message() == old(self).message() + chunk@,
    {
        self.code.update(chunk);
    }

    /// The code of all that was taken in.
    pub fn finalize(self) -> (code: [u8; 32])
        requires
            self.wf(),
        ensures
            code@ == hmac::code_under_block(self.block(), self.message()),
    {
        self.code.finalize()
    }

    /// The code of all that was taken in, as it travels in a header.
    pub fn header(self) -> (text: String)
        requires
            self.wf(),
        ensures
            text@ == encoding::base64_text(hmac::code_under_block(self.block(), self.message())),
            text@.len() == 44,
            is_code_header(text@, hmac::code_under_block(self.block(), self.message())),
    {
        let code: [u8; 32] = self.code.finalize();
        encoding::encode_bytes(&code)
    }
}

/// What is told of a transfer.
pub fn progress_of(
    transfer_id: &str,
    direction: TransferDirection,
    phase: TransferPhase,
    file_name: &str,
    peer_name: &str,
    bytes_transferred: u64,
    total_bytes: u64,
    error: Option<String>,
) -> (progress: TransferProgress)
    ensures
        progress@ == (ProgressView {
            transfer_id: transfer_id@,
            direction,
            phase,
            file_name: file_name@,
            peer_name: peer_name@,
            bytes_transferred,
            total_bytes,
            encrypted: true,
            error: http::optional_view(error),
        }),
{
    TransferProgress {
        transfer_id: transfer_id.to_string(),
        direction,
        phase,
        file_name: file_name.to_string(),
        peer_name: peer_name.to_string(),
        bytes_transferred,
        total_bytes,
        encrypted: true,
        error,
    }
}

/// What is said of the progress of a transfer is what stands in its fields.
pub proof fn law_progress_is_told_as_it_is(progress: TransferProgress)
    ensures
        progress@.transfer_id == progress.transfer_id@,
        progress@.direction == progress.direction,
        progress@.phase == progress.phase,
        progress@.file_name == progress.file_name@,
        progress@.peer_name == progress.peer_name@,
        progress@.bytes_transferred == progress.bytes_transferred,
        progress@.total_bytes == progress.total_bytes,
        progress@.encrypted == progress.encrypted,
        progress.error is None ==> progress@.error is None,
        progress.error matches Some(error) ==> progress@.error == Some(error@),
{
}

/// What is said of a receipt is what stands in its fields.
pub proof fn law_receipt_is_told_as_it_is(receipt: TransferReceipt)
    ensures
        receipt@.file_name == receipt.file_name@,
        receipt@.target_name == receipt.target_name@,
        receipt@.bytes == receipt.bytes,
{
}

/// The code of a file is the HMAC under the transfer's key of the protocol's name, the transfer's id,
/// the file's name, the sender's name, the length in eight bytes with the most significant first, and
/// the content, in this order.
pub proof fn law_file_code_covers_names_length_and_content(
    mac_key: Seq<u8>,
    transfer_id: Seq<char>,
    file_name: Seq<char>,
    sender_name: Seq<char>,
    total_bytes: u64,
    length: Seq<u8>,
    content: Seq<u8>,
)
    requires
        length.len() == 8,
        bytes::be_value(length) == total_bytes,
    ensures
        file_code(mac_key, transfer_id, file_name, sender_name, total_bytes, content)
            == hmac::hmac_sha256(
            mac_key,
            encode_utf8("file-sharer.v2"@) + encode_utf8(transfer_id) + encode_utf8(file_name)
                + encode_utf8(sender_name) + length + content,
        ),
{
    bytes::law_be_value_write_back(length);
}

/// Names and a content are short enough together as long as SHA-256 can count them with a block for
/// the key and what is added to them.
pub proof fn law_authentication_has_room(
    transfer_id: Seq<char>,
    file_name: Seq<char>,
    sender_name: Seq<char>,
    length: int,
)
    ensures
        can_authenticate(transfer_id, file_name, sender_name, length) <==> 64 + 14 + encode_utf8(
            transfer_id,
        ).len() + encode_utf8(file_name).len() + encode_utf8(sender_name).len() + 8 + length
            < 0x2000_0000_0000_0000,
{
}

} // verus!
