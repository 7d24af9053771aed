//! The course of sending a file: what is waited for, and what is done about what happens.

use crate::address;
use crate::chacha;
use crate::crypto;
use crate::crypto::KeyPair;
use crate::devices::{DeviceInfo, DeviceView};
use crate::encoding;
use crate::history::{EventView, TransferDirection, TransferEvent};
use crate::hmac;
use crate::http;
use crate::identity::{Identity, IdentityView};
use crate::incoming;
use crate::incoming::TOO_LONG;
use crate::sending;
use crate::sending::{SendError, Sending, SendingView, UnsentFile};
use crate::transfer;
use crate::transfer::{
    FileMac, ProgressView, ReceiptView, TransferPhase, TransferProgress, TransferReceipt, CANCELLED,
};
use vstd::prelude::*;

verus! {

/// A file that is to be sent to a device.
pub struct Plan {
    pub target: DeviceInfo,
    pub file_name: String,
    pub length: u64,
}

/// A file that is to be sent to a device, by its texts.
#[verifier::ext_equal]
pub struct PlanView {
    pub target: DeviceView,
    pub file_name: Seq<char>,
    pub length: u64,
}

impl View for Plan {
    type V = PlanView;

    open spec fn view(&self) -> PlanView {
        PlanView { target: self.target@, file_name: self.file_name@, length: self.length }
    }
}

/// What the system says of a path: whether it leads to a file, how long that is, and its name, if
/// that is a text.
pub struct FileFacts {
    pub is_file: bool,
    pub length: u64,
    pub name: Option<String>,
}

/// The computation of the code of a file that is being sent, and how many bytes of the content
/// have been taken in.
pub struct MacScan {
    sending: Sending,
    mac: FileMac,
    scanned: u64,
}

/// The computation of the code of a file that is being sent, and the content that has been taken
/// in.
#[verifier::ext_equal]
pub struct ScanView {
    pub sending: SendingView,
    pub content: Seq<u8>,
}

/// What is authenticated in front of the content of a file that is being sent.
pub open spec fn sending_prefix(sending: SendingView) -> Seq<u8> {
    transfer::mac_prefix(
        sending.transfer_id,
        sending.sent_name,
        sending.sender_name,
        sending.total_bytes,
    )
}

/// Whether a content of a length can be authenticated with the names of a transfer.
pub open spec fn sending_fits(sending: SendingView, length: int) -> bool {
    transfer::can_authenticate(
        sending.transfer_id,
        sending.sent_name,
        sending.sender_name,
        length,
    )
}

impl View for MacScan {
    type V = ScanView;

    closed spec fn view(&self) -> ScanView {
        ScanView {
            sending: self.sending@,
            content: self.mac.message().skip(sending_prefix(self.sending@).len() as int),
        }
    }
}

impl MacScan {
    /// The names and the content that was counted have been taken into the code under the
    /// transfer's key.
    pub closed spec fn wf(&self) -> bool {
        &&& self.sending.wf()
        &&& self.mac.wf()
        &&& self.mac.block() == hmac::block_key(self.sending@.keys.mac_key)
        &&& self.mac.message() == sending_prefix(self.sending@) + self@.content
        &&& self.scanned == self@.content.len()
    }

    /// A computation with nothing of the content taken in.
    fn new(sending: Sending) -> (scan: MacScan)
        requires
            sending.wf(),
            sending_fits(sending@, 0),
        ensures
            scan.wf(),
            scan@ == (ScanView { sending: sending@, content: Seq::empty() }),
    {
        let mac = sending.file_mac();
        let scan = MacScan { sending, mac, scanned: 0 };
        proof {
            let prefix = sending_prefix(scan.sending@);
            assert(scan@.content =~= Seq::<u8>::empty());
            assert(prefix + Seq::<u8>::empty() =~= prefix);
        }
        scan
    }

    /// Whether another part of the content of a size can be authenticated.
    fn fits(&self, size: usize) -> (yes: bool)
        requires
            self.wf(),
        ensures
            yes == sending_fits(self@.sending, self@.content.len() + size),
    {
        let sum: u128 = self.scanned as u128 + size as u128;
        if sum > u64::MAX as u128 {
            return false;
        }
        self.sending.authenticates(sum as u64)
    }

    /// Takes in the next part of the content.
    fn take_in(self, chunk: &Vec<u8>) -> (scan: MacScan)
        requires
            self.wf(),
            sending_fits(self@.sending, (self@.content.len() + chunk@.len()) as int),
        ensures
            scan.wf(),
            scan@ == (ScanView { content: self@.content + chunk@, ..self@ }),
    {
        let ghost before = self@;
        let ghost prefix = sending_prefix(self.sending@);
        proof {
            transfer::lemma_mac_prefix_len(
                before.sending.transfer_id,
                before.sending.sent_name,
                before.sending.sender_name,
                before.sending.total_bytes,
            );
        }
        let mut mac: FileMac = self.mac;
        mac.update(chunk.as_slice());
        let scan = MacScan {
            sending: self.sending,
            mac,
            scanned: self.scanned + chunk.len() as u64,
        };
        proof {
            assert(scan.mac.message() =~= prefix + (before.content + chunk@));
            assert(scan@.content =~= before.content + chunk@);
        }
        scan
    }

    /// The file that is being sent, and its code as it travels in a header.
    fn done(self) -> (end: (Sending, String))
        requires
            self.wf(),
        ensures
            end.0.wf(),
            end.0@ == self@.sending,
            end.1@ == encoding::base64_text(
                sending::sending_code(self@.sending, self@.content),
            ),
            transfer::is_code_header(
                end.1@,
                sending::sending_code(self@.sending, self@.content),
            ),
    {
        let header = self.mac.header();
        (self.sending, header)
    }
}

/// What is waited for.
pub enum Outgoing {
    /// What there is at a path, of which a file is to be sent to a device.
    Finding(DeviceInfo, String),
    /// The file, open for reading.
    Opening(Plan),
    /// Whether the receiver's address can be read.
    Addressing(Plan),
    /// The connection.
    Connecting(Plan),
    /// The limit of the time that the connection may take to be written to.
    Limiting(Plan),
    /// Randomness.
    Drawing(Plan),
    /// The file, open for reading once more.
    Reopening(Sending),
    /// A part of the content, to be authenticated.
    Scanning(MacScan),
    /// The writing of the head.
    Greeting(Sending),
    /// A part of the content, to be sent.
    Reading(Sending),
    /// The writing of a part of the content.
    Writing(Sending),
    /// The receiver's answer.
    Answering(Sending),
    /// Nothing.
    Closed,
}

/// What is waited for, by its texts, keys and bytes.
pub enum OutgoingView {
    Finding(DeviceView, Seq<char>),
    Opening(PlanView),
    Addressing(PlanView),
    Connecting(PlanView),
    Limiting(PlanView),
    Drawing(PlanView),
    Reopening(SendingView),
    Scanning(ScanView),
    Greeting(SendingView),
    Reading(SendingView),
    Writing(SendingView),
    Answering(SendingView),
    Closed,
}

impl View for Outgoing {
    type V = OutgoingView;

    open spec fn view(&self) -> OutgoingView {
        match self {
            Outgoing::Finding(target, path) => OutgoingView::Finding(target@, path@),
            Outgoing::Opening(plan) => OutgoingView::Opening(plan@),
            Outgoing::Addressing(plan) => OutgoingView::Addressing(plan@),
            Outgoing::Connecting(plan) => OutgoingView::Connecting(plan@),
            Outgoing::Limiting(plan) => OutgoingView::Limiting(plan@),
            Outgoing::Drawing(plan) => OutgoingView::Drawing(plan@),
            Outgoing::Reopening(file) => OutgoingView::Reopening(file@),
            Outgoing::Scanning(scan) => OutgoingView::Scanning(scan@),
            Outgoing::Greeting(file) => OutgoingView::Greeting(file@),
            Outgoing::Reading(file) => OutgoingView::Reading(file@),
            Outgoing::Writing(file) => OutgoingView::Writing(file@),
            Outgoing::Answering(file) => OutgoingView::Answering(file@),
            Outgoing::Closed => OutgoingView::Closed,
        }
    }
}

/// What has happened. An error is told by what the system says of it.
pub enum OutgoingEvent {
    /// What there is at the path.
    Facts(Result<FileFacts, String>),
    /// What was to be done was done.
    Done(Result<(), String>),
    /// Randomness was drawn, for a private key and for a nonce.
    Drawn(Result<[u8; 16], String>, Result<[u8; 16], String>),
    /// A part of the content was read; an empty one is the end of the file.
    Content(Result<Vec<u8>, String>),
    /// The receiver has answered.
    Answer(String),
}

/// What is to be done.
pub enum OutgoingAction {
    /// Open the file.
    Open,
    /// Read the receiver's address.
    ReadAddress(String),
    /// Connect to it.
    Connect,
    /// Limit the time that the connection may take to be written to.
    Limit,
    /// Draw randomness.
    Draw,
    /// Tell of the transfer, and open the file once more.
    Reopen(TransferProgress),
    /// Read the next part of the file that was opened once more.
    Scan,
    /// Write the head.
    Greet(String),
    /// Tell of the transfer, if there is something to tell, and read the next part of the file.
    Read(Option<TransferProgress>),
    /// Write the bytes.
    Write(Vec<u8>),
    /// Read the receiver's answer.
    ReadAnswer,
    /// Tell of the transfer what there is to tell, and fail.
    Fail(Option<TransferProgress>, Option<TransferProgress>, SendError),
    /// Remember the transfer, tell of it, and hand out the receipt.
    Finish(TransferEvent, TransferProgress, TransferReceipt),
    /// Nothing: what has happened was not waited for.
    Nothing,
}

/// What is to be done, by its texts and bytes. An error is told by its message.
pub enum OutgoingActionView {
    Open,
    ReadAddress(Seq<char>),
    Connect,
    Limit,
    Draw,
    Reopen(ProgressView),
    Scan,
    Greet(Seq<char>),
    Read(Option<ProgressView>),
    Write(Seq<u8>),
    ReadAnswer,
    Fail(Option<ProgressView>, Option<ProgressView>, Seq<char>),
    Finish(EventView, ProgressView, ReceiptView),
    Nothing,
}

impl View for OutgoingAction {
    type V = OutgoingActionView;

    open spec fn view(&self) -> OutgoingActionView {
        match self {
            OutgoingAction::Open => OutgoingActionView::Open,
            OutgoingAction::ReadAddress(text) => OutgoingActionView::ReadAddress(text@),
            OutgoingAction::Connect => OutgoingActionView::Connect,
            OutgoingAction::Limit => OutgoingActionView::Limit,
            OutgoingAction::Draw => OutgoingActionView::Draw,
            OutgoingAction::Reopen(progress) => OutgoingActionView::Reopen(progress@),
            OutgoingAction::Scan => OutgoingActionView::Scan,
            OutgoingAction::Greet(head) => OutgoingActionView::Greet(head@),
            OutgoingAction::Read(progress) => OutgoingActionView::Read(incoming::told(*progress)),
            OutgoingAction::Write(content) => OutgoingActionView::Write(content@),
            OutgoingAction::ReadAnswer => OutgoingActionView::ReadAnswer,
            OutgoingAction::Fail(before, progress, error) => OutgoingActionView::Fail(
                incoming::told(*before),
                incoming::told(*progress),
                sending::send_error_text(*error),
            ),
            OutgoingAction::Finish(event, progress, receipt) => OutgoingActionView::Finish(
                event@,
                progress@,
                receipt@,
            ),
            OutgoingAction::Nothing => OutgoingActionView::Nothing,
        }
    }
}

/// What is waited for, and what is to be done.
pub struct OutgoingStep {
    pub next: OutgoingView,
    pub action: OutgoingActionView,
}

/// The sending fails before anything is told of it.
pub open spec fn failed(message: Seq<char>) -> OutgoingStep {
    OutgoingStep {
        next: OutgoingView::Closed,
        action: OutgoingActionView::Fail(None, None, message),
    }
}

/// The sending fails because the code could not be computed.
pub open spec fn scan_failed(file: SendingView, cause: Seq<char>) -> OutgoingStep {
    let message = "计算加密校验失败："@ + cause;
    OutgoingStep {
        next: OutgoingView::Closed,
        action: OutgoingActionView::Fail(
            None,
            Some(
                sending::sending_progress(
                    file,
                    TransferPhase::Failed,
                    0,
                    Some(message),
                ),
            ),
            message,
        ),
    }
}

/// What comes of what there is at a path: it has to be a file with a name that is a text.
pub open spec fn after_facts(
    target: DeviceView,
    path: Seq<char>,
    facts: Result<FileFacts, String>,
) -> OutgoingStep {
    match facts {
        Err(error) => failed("读取文件失败："@ + error@),
        Ok(found) => if !found.is_file {
            failed("只支持发送文件："@ + path)
        } else {
            match found.name {
                None => failed("文件名无效"@),
                Some(name) => OutgoingStep {
                    next: OutgoingView::Opening(
                        PlanView { target, file_name: name@, length: found.length },
                    ),
                    action: OutgoingActionView::Open,
                },
            }
        },
    }
}

/// What comes of randomness: a session with the receiver, unless its public key or the randomness
/// is wrong.
pub open spec fn after_draw(
    plan: PlanView,
    private_random: Result<[u8; 16], String>,
    nonce_random: Result<[u8; 16], String>,
    sender: IdentityView,
    now_ms: u128,
) -> OutgoingStep {
    let failure = "创建加密会话失败："@;
    match encoding::public_key_of(encoding::base64_decoded(plan.target.crypto_public_key)) {
        Err(error) => failed(failure + error),
        Ok(receiver_public) => match (private_random, nonce_random) {
            (Err(error), _) => failed(failure + error@),
            (_, Err(error)) => failed(failure + error@),
            (Ok(private), Ok(nonce)) => {
                let file = sending::sending_of(
                    crypto::session_of(crypto::private_of(private@), receiver_public, nonce@),
                    sender,
                    plan.target,
                    plan.file_name,
                    plan.length,
                    now_ms,
                );
                OutgoingStep {
                    next: OutgoingView::Reopening(file),
                    action: OutgoingActionView::Reopen(
                        sending::sending_progress(file, TransferPhase::Started, 0, None),
                    ),
                }
            },
        },
    }
}

/// The next part of the content is authenticated, unless the transfer was cancelled.
pub open spec fn scan_on(scan: ScanView, cancelled: bool) -> OutgoingStep {
    if cancelled {
        scan_failed(scan.sending, CANCELLED@)
    } else {
        OutgoingStep { next: OutgoingView::Scanning(scan), action: OutgoingActionView::Scan }
    }
}

/// What comes of a part of the content that is to be authenticated. At the end of the file the
/// head is written, with the code.
pub open spec fn after_scan(
    scan: ScanView,
    content: Result<Vec<u8>, String>,
    cancelled: bool,
) -> OutgoingStep {
    match content {
        Err(error) => scan_failed(scan.sending, error@),
        Ok(chunk) => if chunk@.len() == 0 {
            OutgoingStep {
                next: OutgoingView::Greeting(scan.sending),
                action: OutgoingActionView::Greet(
                    http::upload_text(
                        sending::sending_head(
                            scan.sending,
                            encoding::base64_text(
                                sending::sending_code(scan.sending, scan.content),
                            ),
                        ),
                    ),
                ),
            }
        } else if !sending_fits(scan.sending, (scan.content.len() + chunk@.len()) as int) {
            scan_failed(scan.sending, TOO_LONG@)
        } else {
            scan_on(ScanView { content: scan.content + chunk@, ..scan }, cancelled)
        },
    }
}

/// The next part of the content is sent, unless the transfer was cancelled. What is told of the
/// last part is told first.
pub open spec fn send_on(
    file: SendingView,
    before: Option<ProgressView>,
    cancelled: bool,
) -> OutgoingStep {
    if cancelled {
        OutgoingStep {
            next: OutgoingView::Closed,
            action: OutgoingActionView::Fail(
                before,
                Some(
                    sending::sending_progress(
                        file,
                        TransferPhase::Failed,
                        file.sent_bytes,
                        Some(CANCELLED@),
                    ),
                ),
                CANCELLED@,
            ),
        }
    } else {
        OutgoingStep {
            next: OutgoingView::Reading(file),
            action: OutgoingActionView::Read(before),
        }
    }
}

/// What comes of a part of the content that is to be sent: it is encrypted and written. At the end
/// of the file the receiver's answer is read.
pub open spec fn after_read(file: SendingView, content: Result<Vec<u8>, String>) -> OutgoingStep {
    match content {
        Err(error) => failed("读取文件失败："@ + error@),
        Ok(chunk) => if chunk@.len() == 0 {
            OutgoingStep {
                next: OutgoingView::Answering(file),
                action: OutgoingActionView::ReadAnswer,
            }
        } else if file.sent_bytes + chunk@.len() > u64::MAX {
            failed("发送文件失败："@ + TOO_LONG@)
        } else {
            OutgoingStep {
                next: OutgoingView::Writing(
                    SendingView {
                        sent_bytes: (file.sent_bytes + chunk@.len()) as u64,
                        ..file
                    },
                ),
                action: OutgoingActionView::Write(
                    chacha::encrypted(
                        file.keys.cipher_key,
                        file.keys.nonce,
                        file.sent_bytes as int,
                        chunk@,
                    ),
                ),
            }
        },
    }
}

/// What comes of the receiver's answer.
pub open spec fn after_answer(file: SendingView, response: Seq<char>, now_ms: u128) -> OutgoingStep {
    match http::refusal(response) {
        Some(message) => OutgoingStep {
            next: OutgoingView::Closed,
            action: OutgoingActionView::Fail(
                None,
                Some(
                    sending::sending_progress(
                        file,
                        TransferPhase::Failed,
                        file.sent_bytes,
                        Some(message),
                    ),
                ),
                message,
            ),
        },
        None => OutgoingStep {
            next: OutgoingView::Closed,
            action: OutgoingActionView::Finish(
                EventView {
                    direction: TransferDirection::Sent,
                    file_name: file.file_name,
                    peer_name: file.peer_name,
                    bytes: file.total_bytes,
                    saved_path: None,
                    timestamp_ms: now_ms,
                },
                sending::sending_progress(
                    file,
                    TransferPhase::Finished,
                    file.total_bytes,
                    None,
                ),
                ReceiptView {
                    file_name: file.file_name,
                    target_name: file.peer_name,
                    bytes: file.total_bytes,
                },
            ),
        },
    }
}

/// What comes of what has happened, for a sender, where the transfer was cancelled or not.
pub open spec fn sent_step(
    outgoing: OutgoingView,
    event: OutgoingEvent,
    sender: IdentityView,
    cancelled: bool,
    now_ms: u128,
) -> OutgoingStep {
    match (outgoing, event) {
        (OutgoingView::Finding(target, path), OutgoingEvent::Facts(facts)) => after_facts(
            target,
            path,
            facts,
        ),
        (OutgoingView::Opening(_), OutgoingEvent::Done(Err(error))) => failed(
            "打开文件失败："@ + error@,
        ),
        (OutgoingView::Opening(plan), OutgoingEvent::Done(Ok(_))) => OutgoingStep {
            next: OutgoingView::Addressing(plan),
            action: OutgoingActionView::ReadAddress(
                address::host_and_port(plan.target.address, plan.target.port),
            ),
        },
        (OutgoingView::Addressing(_), OutgoingEvent::Done(Err(error))) => failed(
            "目标地址无效："@ + error@,
        ),
        (OutgoingView::Addressing(plan), OutgoingEvent::Done(Ok(_))) => OutgoingStep {
            next: OutgoingView::Connecting(plan),
            action: OutgoingActionView::Connect,
        },
        (OutgoingView::Connecting(_), OutgoingEvent::Done(Err(error))) => failed(
            "连接目标失败："@ + error@,
        ),
        (OutgoingView::Connecting(plan), OutgoingEvent::Done(Ok(_))) => OutgoingStep {
            next: OutgoingView::Limiting(plan),
            action: OutgoingActionView::Limit,
        },
        (OutgoingView::Limiting(_), OutgoingEvent::Done(Err(error))) => failed(
            "设置发送超时失败："@ + error@,
        ),
        (OutgoingView::Limiting(plan), OutgoingEvent::Done(Ok(_))) => OutgoingStep {
            next: OutgoingView::Drawing(plan),
            action: OutgoingActionView::Draw,
        },
        (OutgoingView::Drawing(plan), OutgoingEvent::Drawn(private, nonce)) => after_draw(
            plan,
            private,
            nonce,
            sender,
            now_ms,
        ),
        (OutgoingView::Reopening(file), OutgoingEvent::Done(Err(error))) => scan_failed(
            file,
            error@,
        ),
        (OutgoingView::Reopening(file), OutgoingEvent::Done(Ok(_))) => if sending_fits(file, 0) {
            scan_on(ScanView { sending: file, content: Seq::empty() }, cancelled)
        } else {
            scan_failed(file, TOO_LONG@)
        },
        (OutgoingView::Scanning(scan), OutgoingEvent::Content(content)) => after_scan(
            scan,
            content,
            cancelled,
        ),
        (OutgoingView::Greeting(_), OutgoingEvent::Done(Err(error))) => failed(
            "写入请求头失败："@ + error@,
        ),
        (OutgoingView::Greeting(file), OutgoingEvent::Done(Ok(_))) => send_on(
            file,
            None,
            cancelled,
        ),
        (OutgoingView::Reading(file), OutgoingEvent::Content(content)) => after_read(file, content),
        (OutgoingView::Writing(_), OutgoingEvent::Done(Err(error))) => failed(
            "发送文件失败："@ + error@,
        ),
        (OutgoingView::Writing(file), OutgoingEvent::Done(Ok(_))) => send_on(
            file,
            Some(
                sending::sending_progress(
                    file,
                    TransferPhase::Progress,
                    file.sent_bytes,
                    None,
                ),
            ),
            cancelled,
        ),
        (OutgoingView::Answering(file), OutgoingEvent::Answer(response)) => after_answer(
            file,
            response@,
            now_ms,
        ),
        _ => OutgoingStep { next: outgoing, action: OutgoingActionView::Nothing },
    }
}

/// Whether this is the id of the transfer, where it matters whether that was cancelled.
pub open spec fn is_id_of(id: Option<String>, outgoing: OutgoingView) -> bool {
    match outgoing {
        OutgoingView::Reopening(file) => id matches Some(known) && known@ == file.transfer_id,
        OutgoingView::Scanning(scan) => id matches Some(known) && known@
            == scan.sending.transfer_id,
        OutgoingView::Greeting(file) => id matches Some(known) && known@ == file.transfer_id,
        OutgoingView::Writing(file) => id matches Some(known) && known@ == file.transfer_id,
        _ => id is None,
    }
}

/// Whether this is a step.
pub open spec fn is_step(made: (Outgoing, OutgoingAction), expected: OutgoingStep) -> bool {
    made.0.wf() && made.0@ == expected.next && made.1@ == expected.action
}

/// Whether what the receiver is told can be read by it: the headers of a session that is made, and
/// the code that is written into the head.
pub open spec fn is_readable(
    outgoing: OutgoingView,
    event: OutgoingEvent,
    next: OutgoingView,
) -> bool {
    match (outgoing, event, next) {
        (
            OutgoingView::Drawing(plan),
            OutgoingEvent::Drawn(Ok(private), Ok(nonce)),
            OutgoingView::Reopening(_),
        ) => encoding::public_key_of(
            encoding::base64_decoded(plan.target.crypto_public_key),
        ) matches Ok(public) && crypto::session_of(
            crypto::private_of(private@),
            public,
            nonce@,
        ).is_for(crypto::private_of(private@), public, nonce@),
        (OutgoingView::Scanning(scan), _, OutgoingView::Greeting(_)) => {
            let code = sending::sending_code(scan.sending, scan.content);
            transfer::is_code_header(encoding::base64_text(code), code)
        },
        _ => true,
    }
}

/// The sending fails before anything is told of it.
fn fail(error: SendError) -> (step: (Outgoing, OutgoingAction))
    ensures
        is_step(step, failed(sending::send_error_text(error))),
{
    (Outgoing::Closed, OutgoingAction::Fail(None, None, error))
}

/// The sending fails, and that is told.
fn fail_telling(before: Option<TransferProgress>, unsent: UnsentFile) -> (step: (
    Outgoing,
    OutgoingAction,
))
    ensures
        step.0 is Closed,
        step.1@ == OutgoingActionView::Fail(
            incoming::told(before),
            Some(unsent.progress@),
            sending::send_error_text(unsent.error),
        ),
{
    (Outgoing::Closed, OutgoingAction::Fail(before, Some(unsent.progress), unsent.error))
}

impl Outgoing {
    /// The file that is being sent is sound.
    pub open spec fn wf(&self) -> bool {
        match self {
            Outgoing::Reopening(file) => file.wf(),
            Outgoing::Scanning(scan) => scan.wf(),
            Outgoing::Greeting(file) => file.wf(),
            Outgoing::Reading(file) => file.wf(),
            Outgoing::Writing(file) => file.wf(),
            Outgoing::Answering(file) => file.wf(),
            _ => true,
        }
    }

    /// The sending of what is at a path to a device. The first thing to do is to find out what
    /// there is.
    pub fn new(target: DeviceInfo, path: String) -> (outgoing: Outgoing)
        ensures
            outgoing.wf(),
            outgoing@ == OutgoingView::Finding(target@, path@),
    {
        Outgoing::Finding(target, path)
    }

    /// The id of the transfer, where it matters whether that was cancelled.
    pub fn transfer_id(&self) -> (id: Option<String>)
        ensures
            is_id_of(id, self@),
    {
        match self {
            Outgoing::Reopening(file) => Some(file.transfer_id()),
            Outgoing::Scanning(scan) => Some(scan.sending.transfer_id()),
            Outgoing::Greeting(file) => Some(file.transfer_id()),
            Outgoing::Writing(file) => Some(file.transfer_id()),
            _ => None,
        }
    }

    /// What comes of what there is at a path.
    fn found(target: DeviceInfo, path: String, facts: Result<FileFacts, String>) -> (step: (
        Outgoing,
        OutgoingAction,
    ))
        ensures
            is_step(step, after_facts(target@, path@, facts)),
    {
        match facts {
            Err(error) => fail(SendError::ReadFailed(error)),
            Ok(known) => {
                if !known.is_file {
                    return fail(SendError::NotAFile(path));
                }
                match sending::send_name(known.name) {
                    Err(error) => fail(error),
                    Ok(file_name) => {
                        let plan = Plan { target, file_name, length: known.length };
                        (Outgoing::Opening(plan), OutgoingAction::Open)
                    },
                }
            },
        }
    }

    /// What comes of randomness.
    fn drawn(
        plan: Plan,
        private_random: Result<[u8; 16], String>,
        nonce_random: Result<[u8; 16], String>,
        keys: &KeyPair,
        sender: &Identity,
        now_ms: u128,
    ) -> (step: (Outgoing, OutgoingAction))
        ensures
            is_step(step, after_draw(plan@, private_random, nonce_random, sender@, now_ms)),
            is_readable(
                OutgoingView::Drawing(plan@),
                OutgoingEvent::Drawn(private_random, nonce_random),
                step.0@,
            ),
    {
        let begun = Sending::start(
            keys,
            sender,
            &plan.target,
            plan.file_name,
            plan.length,
            private_random,
            nonce_random,
            now_ms,
        );
        match begun {
            Ok(file) => {
                let started = file.started();
                (Outgoing::Reopening(file), OutgoingAction::Reopen(started))
            },
            Err(error) => fail(error),
        }
    }

    /// The next part of the content is authenticated, unless the transfer was cancelled.
    fn scan_next(scan: MacScan, cancelled: bool) -> (step: (Outgoing, OutgoingAction))
        requires
            scan.wf(),
        ensures
            is_step(step, scan_on(scan@, cancelled)),
    {
        if cancelled {
            let unsent = scan.sending.mac_failed(CANCELLED.to_string());
            fail_telling(None, unsent)
        } else {
            (Outgoing::Scanning(scan), OutgoingAction::Scan)
        }
    }

    /// What comes of a part of the content that is to be authenticated.
    fn scanned(scan: MacScan, content: Result<Vec<u8>, String>, cancelled: bool) -> (step: (
        Outgoing,
        OutgoingAction,
    ))
        requires
            scan.wf(),
        ensures
            is_step(step, after_scan(scan@, content, cancelled)),
            is_readable(OutgoingView::Scanning(scan@), OutgoingEvent::Content(content), step.0@),
    {
        match content {
            Err(error) => {
                let unsent = scan.sending.mac_failed(error);
                fail_telling(None, unsent)
            },
            Ok(chunk) => {
                if chunk.len() == 0 {
                    let (file, mac) = scan.done();
                    let head = file.head(mac);
                    (Outgoing::Greeting(file), OutgoingAction::Greet(head))
                } else if !scan.fits(chunk.len()) {
                    let unsent = scan.sending.mac_failed(TOO_LONG.to_string());
                    fail_telling(None, unsent)
                } else {
                    Outgoing::scan_next(scan.take_in(&chunk), cancelled)
                }
            },
        }
    }

    /// The next part of the content is sent, unless the transfer was cancelled.
    fn send_next(file: Sending, before: Option<TransferProgress>, cancelled: bool) -> (step: (
        Outgoing,
        OutgoingAction,
    ))
        requires
            file.wf(),
        ensures
            is_step(step, send_on(file@, incoming::told(before), cancelled)),
    {
        if cancelled {
            let unsent = file.cancelled();
            fail_telling(before, unsent)
        } else {
            (Outgoing::Reading(file), OutgoingAction::Read(before))
        }
    }

    /// What comes of a part of the content that is to be sent.
    fn read(file: Sending, content: Result<Vec<u8>, String>) -> (step: (Outgoing, OutgoingAction))
        requires
            file.wf(),
        ensures
            is_step(step, after_read(file@, content)),
    {
        match content {
            Err(error) => fail(SendError::ReadFailed(error)),
            Ok(chunk) => {
                if chunk.len() == 0 {
                    (Outgoing::Answering(file), OutgoingAction::ReadAnswer)
                } else if chunk.len() as u64 > u64::MAX - file.sent_bytes() {
                    fail(SendError::ContentFailed(TOO_LONG.to_string()))
                } else {
                    let mut file: Sending = file;
                    let mut chunk: Vec<u8> = chunk;
                    file.encrypt(chunk.as_mut_slice());
                    (Outgoing::Writing(file), OutgoingAction::Write(chunk))
                }
            },
        }
    }

    /// What comes of the receiver's answer.
    fn concluded(file: Sending, response: &str, now_ms: u128) -> (step: (Outgoing, OutgoingAction))
        ensures
            is_step(step, after_answer(file@, response@, now_ms)),
    {
        match file.conclude(response, now_ms) {
            Ok(sent) => (
                Outgoing::Closed,
                OutgoingAction::Finish(sent.event, sent.progress, sent.receipt),
            ),
            Err(unsent) => fail_telling(None, unsent),
        }
    }

    /// What comes of what has happened, for the holder of a key pair, where the transfer was
    /// cancelled or not.
    pub fn step(
        self,
        event: OutgoingEvent,
        keys: &KeyPair,
        sender: &Identity,
        cancelled: bool,
        now_ms: u128,
    ) -> (step: (Outgoing, OutgoingAction))
        requires
            self.wf(),
        ensures
            is_step(step, sent_step(self@, event, sender@, cancelled, now_ms)),
            is_readable(self@, event, step.0@),
    {
        match (self, event) {
            (Outgoing::Finding(target, path), OutgoingEvent::Facts(facts)) => {
                Outgoing::found(target, path, facts)
            },
            (Outgoing::Opening(plan), OutgoingEvent::Done(result)) => match result {
                Err(error) => fail(SendError::OpenFailed(error)),
                Ok(_) => {
                    let text = address::socket_address(
                        plan.target.address.as_str(),
                        plan.target.port,
                    );
                    (Outgoing::Addressing(plan), OutgoingAction::ReadAddress(text))
                },
            },
            (Outgoing::Addressing(plan), OutgoingEvent::Done(result)) => match result {
                Err(error) => fail(SendError::AddressInvalid(error)),
                Ok(_) => (Outgoing::Connecting(plan), OutgoingAction::Connect),
            },
            (Outgoing::Connecting(plan), OutgoingEvent::Done(result)) => match result {
                Err(error) => fail(SendError::ConnectFailed(error)),
                Ok(_) => (Outgoing::Limiting(plan), OutgoingAction::Limit),
            },
            (Outgoing::Limiting(plan), OutgoingEvent::Done(result)) => match result {
                Err(error) => fail(SendError::TimeoutFailed(error)),
                Ok(_) => (Outgoing::Drawing(plan), OutgoingAction::Draw),
            },
            (Outgoing::Drawing(plan), OutgoingEvent::Drawn(private, nonce)) => {
                Outgoing::drawn(plan, private, nonce, keys, sender, now_ms)
            },
            (Outgoing::Reopening(file), OutgoingEvent::Done(result)) => match result {
                Err(error) => {
                    let unsent = file.mac_failed(error);
                    fail_telling(None, unsent)
                },
                Ok(_) => {
                    if file.authenticates(0) {
                        Outgoing::scan_next(MacScan::new(file), cancelled)
                    } else {
                        let unsent = file.mac_failed(TOO_LONG.to_string());
                        fail_telling(None, unsent)
                    }
                },
            },
            (Outgoing::Scanning(scan), OutgoingEvent::Content(content)) => {
                Outgoing::scanned(scan, content, cancelled)
            },
            (Outgoing::Greeting(file), OutgoingEvent::Done(result)) => match result {
                Err(error) => fail(SendError::HeadFailed(error)),
                Ok(_) => Outgoing::send_next(file, None, cancelled),
            },
            (Outgoing::Reading(file), OutgoingEvent::Content(content)) => {
                Outgoing::read(file, content)
            },
            (Outgoing::Writing(file), OutgoingEvent::Done(result)) => match result {
                Err(error) => fail(SendError::ContentFailed(error)),
                Ok(_) => {
                    let progress = file.progressed();
                    Outgoing::send_next(file, Some(progress), cancelled)
                },
            },
            (Outgoing::Answering(file), OutgoingEvent::Answer(response)) => {
                Outgoing::concluded(file, response.as_str(), now_ms)
            },
            (same, _) => (same, OutgoingAction::Nothing),
        }
    }
}

/// A sending ends with a receipt or an error, and nothing is done after that; a receipt is handed
/// out only for an answer of the receiver with the status 200.
pub proof fn law_sending_ends_once(
    outgoing: OutgoingView,
    event: OutgoingEvent,
    sender: IdentityView,
    cancelled: bool,
    now_ms: u128,
)
    ensures
        ({
            let step = sent_step(outgoing, event, sender, cancelled, now_ms);
            let ends = step.action is Fail || step.action is Finish;
            &&& !(outgoing is Closed) ==> (step.next is Closed <==> ends)
            &&& outgoing is Closed ==> step.next is Closed && step.action is Nothing
            &&& step.action is Finish ==> outgoing is Answering && is_accepted(event)
        }),
{
}

/// Whether the receiver has answered with the status 200.
pub open spec fn is_accepted(event: OutgoingEvent) -> bool {
    event matches OutgoingEvent::Answer(response) && "HTTP/1.1 200"@.is_prefix_of(response@)
}

/// Nothing of a file leaves the device but encrypted: what is written of the content is the bytes
/// of the file that was read with the transfer's key stream laid over them.
pub proof fn law_content_is_written_encrypted(
    outgoing: OutgoingView,
    event: OutgoingEvent,
    sender: IdentityView,
    cancelled: bool,
    now_ms: u128,
)
    ensures
        sent_step(outgoing, event, sender, cancelled, now_ms).action matches
            OutgoingActionView::Write(written) ==> is_encrypted(outgoing, event, written),
{
}

/// Whether bytes are those of a file that were read, encrypted where they stand in the file.
pub open spec fn is_encrypted(
    outgoing: OutgoingView,
    event: OutgoingEvent,
    written: Seq<u8>,
) -> bool {
    match (outgoing, event) {
        (OutgoingView::Reading(file), OutgoingEvent::Content(Ok(chunk))) => written
            == chacha::encrypted(
            file.keys.cipher_key,
            file.keys.nonce,
            file.sent_bytes as int,
            chunk@,
        ),
        _ => false,
    }
}

/// What is said of a sending is what it holds.
pub proof fn law_sending_is_told_as_it_is(outgoing: Outgoing)
    ensures
        match outgoing {
            Outgoing::Finding(target, path) => outgoing@ == OutgoingView::Finding(target@, path@),
            Outgoing::Opening(plan) => outgoing@ == OutgoingView::Opening(plan@),
            Outgoing::Addressing(plan) => outgoing@ == OutgoingView::Addressing(plan@),
            Outgoing::Connecting(plan) => outgoing@ == OutgoingView::Connecting(plan@),
            Outgoing::Limiting(plan) => outgoing@ == OutgoingView::Limiting(plan@),
            Outgoing::Drawing(plan) => outgoing@ == OutgoingView::Drawing(plan@),
            Outgoing::Reopening(file) => outgoing@ == OutgoingView::Reopening(file@),
            Outgoing::Scanning(scan) => outgoing@ == OutgoingView::Scanning(scan@),
            Outgoing::Greeting(file) => outgoing@ == OutgoingView::Greeting(file@),
            Outgoing::Reading(file) => outgoing@ == OutgoingView::Reading(file@),
            Outgoing::Writing(file) => outgoing@ == OutgoingView::Writing(file@),
            Outgoing::Answering(file) => outgoing@ == OutgoingView::Answering(file@),
            Outgoing::Closed => outgoing@ is Closed,
        },
{
}

/// What is said of the file that is to be sent is what stands in its fields.
pub proof fn law_plan_is_told_as_it_is(plan: Plan)
    ensures
        plan@.target == plan.target@,
        plan@.file_name == plan.file_name@,
        plan@.length == plan.length,
{
}

/// What is said of what is to be done is what it holds.
pub proof fn law_sending_action_is_told_as_it_is(action: OutgoingAction)
    ensures
        match action {
            OutgoingAction::Open => action@ is Open,
            OutgoingAction::ReadAddress(text) => action@ == OutgoingActionView::ReadAddress(text@),
            OutgoingAction::Connect => action@ is Connect,
            OutgoingAction::Limit => action@ is Limit,
            OutgoingAction::Draw => action@ is Draw,
            OutgoingAction::Reopen(progress) => action@ == OutgoingActionView::Reopen(progress@),
            OutgoingAction::Scan => action@ is Scan,
            OutgoingAction::Greet(head) => action@ == OutgoingActionView::Greet(head@),
            OutgoingAction::Read(Some(progress)) => action@ == OutgoingActionView::Read(
                Some(progress@),
            ),
            OutgoingAction::Read(None) => action@ == OutgoingActionView::Read(None),
            OutgoingAction::Write(content) => action@ == OutgoingActionView::Write(content@),
            OutgoingAction::ReadAnswer => action@ is ReadAnswer,
            OutgoingAction::Fail(before, progress, error) => {
                &&& action@ matches OutgoingActionView::Fail(first, second, message)
                &&& before is None ==> first is None
                &&& before matches Some(told) ==> first == Some(told@)
                &&& progress is None ==> second is None
                &&& progress matches Some(told) ==> second == Some(told@)
                &&& message == sending::send_error_text(error)
            },
            OutgoingAction::Finish(event, progress, receipt) => action@
                == OutgoingActionView::Finish(event@, progress@, receipt@),
            OutgoingAction::Nothing => action@ is Nothing,
        },
{
}

/// What there is at a path is sent if it is a file with a name that is a text, and otherwise it is
/// said why not. What is sent is that file, with its name and its length, to the device.
pub proof fn law_file_at_the_path_is_sent(
    target: DeviceView,
    path: Seq<char>,
    facts: FileFacts,
    error: String,
    sender: IdentityView,
    cancelled: bool,
    now_ms: u128,
)
    ensures
        ({
            let finding = OutgoingView::Finding(target, path);
            let found = sent_step(
                finding,
                OutgoingEvent::Facts(Ok(facts)),
                sender,
                cancelled,
                now_ms,
            );
            let unfound = sent_step(
                finding,
                OutgoingEvent::Facts(Err(error)),
                sender,
                cancelled,
                now_ms,
            );
            &&& facts.name matches Some(name) ==> facts.is_file ==> {
                &&& found.action is Open
                &&& found.next matches OutgoingView::Opening(plan)
                &&& plan.target == target
                &&& plan.file_name == name@
                &&& plan.length == facts.length
            }
            &&& !facts.is_file ==> found.next is Closed && found.action
                == OutgoingActionView::Fail(None, None, "只支持发送文件："@ + path)
            &&& facts.is_file && facts.name is None ==> found.next is Closed && found.action
                == OutgoingActionView::Fail(None, None, "文件名无效"@)
            &&& unfound.next is Closed
            &&& unfound.action == OutgoingActionView::Fail(
                None,
                None,
                "读取文件失败："@ + error@,
            )
        }),
{
}

/// A connection is made step by step: the file is opened, the device's address and port are read,
/// they are connected to, the time to write is limited, and randomness is drawn. What fails is said,
/// and ends the sending.
pub proof fn law_connection_is_made_step_by_step(
    plan: PlanView,
    error: String,
    sender: IdentityView,
    cancelled: bool,
    now_ms: u128,
)
    ensures
        ({
            let good = |outgoing: OutgoingView|
                sent_step(outgoing, OutgoingEvent::Done(Ok(())), sender, cancelled, now_ms);
            let bad = |outgoing: OutgoingView|
                sent_step(outgoing, OutgoingEvent::Done(Err(error)), sender, cancelled, now_ms);
            let says = |step: OutgoingStep, message: Seq<char>|
                step.next is Closed && step.action == OutgoingActionView::Fail(
                    None,
                    None,
                    message + error@,
                );
            let opened = good(OutgoingView::Opening(plan));
            let addressed = good(OutgoingView::Addressing(plan));
            let connected = good(OutgoingView::Connecting(plan));
            let limited = good(OutgoingView::Limiting(plan));
            &&& opened.next == OutgoingView::Addressing(plan)
            &&& opened.action == OutgoingActionView::ReadAddress(
                address::host_and_port(plan.target.address, plan.target.port),
            )
            &&& addressed.next == OutgoingView::Connecting(plan) && addressed.action is Connect
            &&& connected.next == OutgoingView::Limiting(plan) && connected.action is Limit
            &&& limited.next == OutgoingView::Drawing(plan) && limited.action is Draw
            &&& says(bad(OutgoingView::Opening(plan)), "打开文件失败："@)
            &&& says(bad(OutgoingView::Addressing(plan)), "目标地址无效："@)
            &&& says(bad(OutgoingView::Connecting(plan)), "连接目标失败："@)
            &&& says(bad(OutgoingView::Limiting(plan)), "设置发送超时失败："@)
        }),
{
}

/// A session is made with the public key that the device has made known, a private key made of the
/// first randomness, and the second as the nonce; then the transfer is told to have started. The
/// first that is wrong of the public key and the two is said.
pub proof fn law_session_is_made_with_the_device(
    plan: PlanView,
    private_random: Result<[u8; 16], String>,
    nonce_random: Result<[u8; 16], String>,
    sender: IdentityView,
    cancelled: bool,
    now_ms: u128,
)
    ensures
        ({
            let step = sent_step(
                OutgoingView::Drawing(plan),
                OutgoingEvent::Drawn(private_random, nonce_random),
                sender,
                cancelled,
                now_ms,
            );
            let says = |message: Seq<char>|
                step.next is Closed && step.action == OutgoingActionView::Fail(
                    None,
                    None,
                    "创建加密会话失败："@ + message,
                );
            match encoding::public_key_of(
                encoding::base64_decoded(plan.target.crypto_public_key),
            ) {
                Err(error) => says(error),
                Ok(public) => if private_random is Err {
                    says(private_random->Err_0@)
                } else if nonce_random is Err {
                    says(nonce_random->Err_0@)
                } else {
                    let session = crypto::session_of(
                        crypto::private_of(private_random->Ok_0@),
                        public,
                        nonce_random->Ok_0@,
                    );
                    let file = sending::sending_of(
                        session,
                        sender,
                        plan.target,
                        plan.file_name,
                        plan.length,
                        now_ms,
                    );
                    &&& step.next == OutgoingView::Reopening(file)
                    &&& step.action == OutgoingActionView::Reopen(
                        sending::sending_progress(file, TransferPhase::Started, 0, None),
                    )
                },
            }
        }),
{
}

/// The code is computed over all of the file, part by part, before anything is sent, unless the
/// transfer was cancelled; at the end of the file the head is written, with the code of what was
/// read. What fails is told, and ends the sending.
pub proof fn law_code_is_computed_over_the_whole_file(
    file: SendingView,
    scan: ScanView,
    chunk: Vec<u8>,
    error: String,
    sender: IdentityView,
    cancelled: bool,
    now_ms: u128,
)
    ensures
        ({
            let after = |outgoing: OutgoingView, event: OutgoingEvent|
                sent_step(outgoing, event, sender, cancelled, now_ms);
            let tells = |step: OutgoingStep, told: SendingView, cause: Seq<char>|
                {
                    let message = "计算加密校验失败："@ + cause;
                    step.next is Closed && step.action == OutgoingActionView::Fail(
                        None,
                        Some(
                            sending::sending_progress(
                                told,
                                TransferPhase::Failed,
                                0,
                                Some(message),
                            ),
                        ),
                        message,
                    )
                };
            let reopened = after(OutgoingView::Reopening(file), OutgoingEvent::Done(Ok(())));
            let unopened = after(OutgoingView::Reopening(file), OutgoingEvent::Done(Err(error)));
            let scanned = after(OutgoingView::Scanning(scan), OutgoingEvent::Content(Ok(chunk)));
            let unread = after(OutgoingView::Scanning(scan), OutgoingEvent::Content(Err(error)));
            let content = scan.content + chunk@;
            let fits = |sending: SendingView, length: int|
                transfer::can_authenticate(
                    sending.transfer_id,
                    sending.sent_name,
                    sending.sender_name,
                    length,
                );
            &&& fits(file, 0) && !cancelled ==> {
                &&& reopened.action is Scan
                &&& reopened.next matches OutgoingView::Scanning(begun)
                &&& begun.sending == file
                &&& begun.content.len() == 0
            }
            &&& fits(file, 0) && cancelled ==> tells(reopened, file, "传输已取消"@)
            &&& !fits(file, 0) ==> tells(reopened, file, "content too long"@)
            &&& tells(unopened, file, error@)
            &&& tells(unread, scan.sending, error@)
            &&& chunk@.len() > 0 && fits(scan.sending, content.len() as int) && !cancelled ==> {
                &&& scanned.action is Scan
                &&& scanned.next matches OutgoingView::Scanning(longer)
                &&& longer.sending == scan.sending
                &&& longer.content == content
            }
            &&& chunk@.len() > 0 && fits(scan.sending, content.len() as int) && cancelled ==> tells(
                scanned,
                scan.sending,
                "传输已取消"@,
            )
            &&& chunk@.len() > 0 && !fits(scan.sending, content.len() as int) ==> tells(
                scanned,
                scan.sending,
                "content too long"@,
            )
            &&& chunk@.len() == 0 ==> {
                &&& scanned.next == OutgoingView::Greeting(scan.sending)
                &&& scanned.action == OutgoingActionView::Greet(
                    http::upload_text(
                        sending::sending_head(
                            scan.sending,
                            encoding::base64_text(
                                sending::sending_code(scan.sending, scan.content),
                            ),
                        ),
                    ),
                )
            }
        }),
{
    assert(scan.content.len() + chunk@.len() == (scan.content + chunk@).len());
}

/// Once the head is written, and once a part of the file is, the next part is read, unless the
/// transfer was cancelled; then it fails, and that is told. How far it has come is told after every
/// part.
pub proof fn law_parts_are_read_until_the_end(
    file: SendingView,
    error: String,
    sender: IdentityView,
    cancelled: bool,
    now_ms: u128,
)
    ensures
        ({
            let after = |outgoing: OutgoingView, event: OutgoingEvent|
                sent_step(outgoing, event, sender, cancelled, now_ms);
            let greeted = after(OutgoingView::Greeting(file), OutgoingEvent::Done(Ok(())));
            let written = after(OutgoingView::Writing(file), OutgoingEvent::Done(Ok(())));
            let unheard = after(OutgoingView::Greeting(file), OutgoingEvent::Done(Err(error)));
            let unwritten = after(OutgoingView::Writing(file), OutgoingEvent::Done(Err(error)));
            let told = sending::sending_progress(
                file,
                TransferPhase::Progress,
                file.sent_bytes,
                None,
            );
            let end = sending::sending_progress(
                file,
                TransferPhase::Failed,
                file.sent_bytes,
                Some("传输已取消"@),
            );
            &&& !cancelled ==> greeted.next == OutgoingView::Reading(file) && greeted.action
                == OutgoingActionView::Read(None)
            &&& !cancelled ==> written.next == OutgoingView::Reading(file) && written.action
                == OutgoingActionView::Read(Some(told))
            &&& cancelled ==> greeted.next is Closed && greeted.action == OutgoingActionView::Fail(
                None,
                Some(end),
                "传输已取消"@,
            )
            &&& cancelled ==> written.next is Closed && written.action == OutgoingActionView::Fail(
                Some(told),
                Some(end),
                "传输已取消"@,
            )
            &&& unheard.next is Closed
            &&& unheard.action == OutgoingActionView::Fail(
                None,
                None,
                "写入请求头失败："@ + error@,
            )
            &&& unwritten.next is Closed
            &&& unwritten.action == OutgoingActionView::Fail(
                None,
                None,
                "发送文件失败："@ + error@,
            )
        }),
{
}

/// A part of the file is written with the key stream laid over it that belongs to its place in the
/// file, and counted; nothing else of what is known of the sending changes. At the end of the file the
/// answer is read.
pub proof fn law_parts_are_written_encrypted_and_counted(
    file: SendingView,
    chunk: Vec<u8>,
    error: String,
    sender: IdentityView,
    cancelled: bool,
    now_ms: u128,
)
    ensures
        ({
            let read = sent_step(
                OutgoingView::Reading(file),
                OutgoingEvent::Content(Ok(chunk)),
                sender,
                cancelled,
                now_ms,
            );
            let unread = sent_step(
                OutgoingView::Reading(file),
                OutgoingEvent::Content(Err(error)),
                sender,
                cancelled,
                now_ms,
            );
            let count = file.sent_bytes + chunk@.len();
            &&& chunk@.len() == 0 ==> read.next == OutgoingView::Answering(file) && read.action
                is ReadAnswer
            &&& chunk@.len() > 0 && count <= 0xffff_ffff_ffff_ffff ==> {
                &&& read.action == OutgoingActionView::Write(
                    chacha::encrypted(
                        file.keys.cipher_key,
                        file.keys.nonce,
                        file.sent_bytes as int,
                        chunk@,
                    ),
                )
                &&& read.next matches OutgoingView::Writing(on)
                &&& on.sent_bytes == count
                &&& on == (SendingView { sent_bytes: on.sent_bytes, ..file })
            }
            &&& count > 0xffff_ffff_ffff_ffff ==> read.next is Closed && read.action
                == OutgoingActionView::Fail(
                None,
                None,
                "发送文件失败："@ + "content too long"@,
            )
            &&& unread.next is Closed
            &&& unread.action == OutgoingActionView::Fail(
                None,
                None,
                "读取文件失败："@ + error@,
            )
        }),
{
}

/// A file was sent if the receiver does not refuse it: then it is remembered as sent, told to be
/// finished, and there is a receipt, each with the file's own name, the receiver's name and the
/// length. A refusal is told, and ends the sending.
pub proof fn law_answer_decides(
    file: SendingView,
    response: String,
    sender: IdentityView,
    cancelled: bool,
    now_ms: u128,
)
    ensures
        ({
            let step = sent_step(
                OutgoingView::Answering(file),
                OutgoingEvent::Answer(response),
                sender,
                cancelled,
                now_ms,
            );
            &&& step.next is Closed
            &&& http::refusal(response@) matches Some(message) ==> step.action
                == OutgoingActionView::Fail(
                None,
                Some(
                    sending::sending_progress(
                        file,
                        TransferPhase::Failed,
                        file.sent_bytes,
                        Some(message),
                    ),
                ),
                message,
            )
            &&& http::refusal(response@) is None ==> {
                &&& step.action matches OutgoingActionView::Finish(event, progress, receipt)
                &&& event.direction == TransferDirection::Sent
                &&& event.file_name == file.file_name
                &&& event.peer_name == file.peer_name
                &&& event.bytes == file.total_bytes
                &&& event.saved_path is None
                &&& event.timestamp_ms == now_ms
                &&& progress == sending::sending_progress(
                    file,
                    TransferPhase::Finished,
                    file.total_bytes,
                    None,
                )
                &&& receipt.file_name == file.file_name
                &&& receipt.target_name == file.peer_name
                &&& receipt.bytes == file.total_bytes
            }
        }),
{
}

/// What was not waited for changes nothing, and nothing is done about it.
pub proof fn law_unexpected_news_do_nothing(
    outgoing: OutgoingView,
    event: OutgoingEvent,
    sender: IdentityView,
    cancelled: bool,
    now_ms: u128,
)
    ensures
        ({
            let step = sent_step(outgoing, event, sender, cancelled, now_ms);
            let done = outgoing is Opening || outgoing is Addressing || outgoing is Connecting
                || outgoing is Limiting || outgoing is Reopening || outgoing is Greeting
                || outgoing is Writing;
            let awaited = (outgoing is Finding && event is Facts) || (done && event is Done) || (
            outgoing is Drawing && event is Drawn) || ((outgoing is Scanning || outgoing is Reading)
                && event is Content) || (outgoing is Answering && event is Answer);
            &&& !awaited ==> step.next == outgoing && step.action is Nothing
            &&& awaited ==> !(step.action is Nothing)
        }),
{
}

} // verus!
