//! The course of a connection over which a file may be received: what is waited for, and what is
//! done about what happens.

use crate::chacha;
use crate::crypto;
use crate::crypto::KeyPair;
use crate::encoding;
use crate::files;
use crate::files::PublishedFile;
use crate::history::{EventView, TransferDirection, TransferEvent};
use crate::http;
use crate::http::{HeadView, RequestHead, Response, ResponseView};
use crate::receiving;
use crate::receiving::{
    Receiving, ReceivingView, Refusal, RefusalView, RequestView, VerifiedFile, VERIFICATION_FAILED,
};
use crate::transfer::{ProgressView, TransferPhase, TransferProgress, CANCELLED};
use vstd::prelude::*;

verus! {

/// What is waited for.
pub enum Incoming {
    /// A line of the head.
    Head(RequestHead),
    /// The directory that files are saved in.
    Directory(Receiving),
    /// Whether there is a file of a name; the number says which attempt the name is.
    Looking(Receiving, String, u32),
    /// The file that is saved to.
    Creating(Receiving),
    /// A part of the content.
    Reading(Receiving),
    /// The saving of a part of the content.
    Writing(Receiving),
    /// The saving of the last of the content.
    Flushing(Receiving),
    /// The publication of the file.
    Publishing(VerifiedFile),
    /// Nothing.
    Closed,
}

/// What is waited for, by its texts, keys and bytes.
pub enum IncomingView {
    Head(HeadView),
    Directory(ReceivingView),
    Looking(ReceivingView, Seq<char>, u32),
    Creating(ReceivingView),
    Reading(ReceivingView),
    Writing(ReceivingView),
    Flushing(ReceivingView),
    Publishing(RequestView),
    Closed,
}

impl View for Incoming {
    type V = IncomingView;

    open spec fn view(&self) -> IncomingView {
        match self {
            Incoming::Head(head) => IncomingView::Head(head@),
            Incoming::Directory(file) => IncomingView::Directory(file@),
            Incoming::Looking(file, name, attempt) => IncomingView::Looking(
                file@,
                name@,
                *attempt,
            ),
            Incoming::Creating(file) => IncomingView::Creating(file@),
            Incoming::Reading(file) => IncomingView::Reading(file@),
            Incoming::Writing(file) => IncomingView::Writing(file@),
            Incoming::Flushing(file) => IncomingView::Flushing(file@),
            Incoming::Publishing(file) => IncomingView::Publishing(file@),
            Incoming::Closed => IncomingView::Closed,
        }
    }
}

/// What has happened. An error is told by what the system says of it.
pub enum IncomingEvent {
    /// A line was read, with its line end; an empty one is the end of the input.
    Line(Result<String, String>),
    /// The directory is there.
    Prepared(Result<(), String>),
    /// There is a file of the name, or not.
    Exists(bool),
    /// The file was created.
    Created(Result<(), String>),
    /// A part of the content was read.
    Content(Result<Vec<u8>, String>),
    /// A part of the content was saved.
    Written(Result<(), String>),
    /// All of the content was saved.
    Flushed(Result<(), String>),
    /// The file was published or not; the path is told as well.
    Published(Option<PublishedFile>, String),
}

/// What is to be done.
pub enum IncomingAction {
    /// Read a line.
    ReadLine,
    /// See to it that the directory is there that files are saved in.
    Prepare,
    /// Find out whether there is a file of the name in it.
    LookFor(String),
    /// Tell of the transfer, and create the file of the name.
    Create(TransferProgress, String),
    /// Tell of the transfer, if there is something to tell, and read so many bytes.
    Read(Option<TransferProgress>, usize),
    /// Save the bytes.
    Write(Vec<u8>),
    /// Tell of the transfer, if there is something to tell, and have all bytes saved.
    Flush(Option<TransferProgress>),
    /// Publish the file.
    Publish,
    /// Give the answer, and close the connection.
    Answer(Response),
    /// Tell of the transfer, if there is something to tell; remove the file, tell of the transfer,
    /// give the answer, and close the connection.
    Discard(Option<TransferProgress>, TransferProgress, Response),
    /// Remember the transfer, tell of it, give the answer, and close the connection.
    Keep(TransferEvent, TransferProgress, Response),
    /// Close the connection, for the reason.
    Abort(String),
    /// Nothing: what has happened was not waited for.
    Nothing,
}

/// What is to be done, by its texts and bytes.
pub enum IncomingActionView {
    ReadLine,
    Prepare,
    LookFor(Seq<char>),
    Create(ProgressView, Seq<char>),
    Read(Option<ProgressView>, int),
    Write(Seq<u8>),
    Flush(Option<ProgressView>),
    Publish,
    Answer(ResponseView),
    Discard(Option<ProgressView>, ProgressView, ResponseView),
    Keep(EventView, ProgressView, ResponseView),
    Abort(Seq<char>),
    Nothing,
}

/// What is told, if there is something to tell, by its texts.
pub open spec fn told(progress: Option<TransferProgress>) -> Option<ProgressView> {
    match progress {
        Some(known) => Some(known@),
        None => None,
    }
}

impl View for IncomingAction {
    type V = IncomingActionView;

    open spec fn view(&self) -> IncomingActionView {
        match self {
            IncomingAction::ReadLine => IncomingActionView::ReadLine,
            IncomingAction::Prepare => IncomingActionView::Prepare,
            IncomingAction::LookFor(name) => IncomingActionView::LookFor(name@),
            IncomingAction::Create(progress, name) => IncomingActionView::Create(progress@, name@),
            IncomingAction::Read(progress, size) => IncomingActionView::Read(
                told(*progress),
                *size as int,
            ),
            IncomingAction::Write(content) => IncomingActionView::Write(content@),
            IncomingAction::Flush(progress) => IncomingActionView::Flush(told(*progress)),
            IncomingAction::Publish => IncomingActionView::Publish,
            IncomingAction::Answer(response) => IncomingActionView::Answer(response@),
            IncomingAction::Discard(before, progress, response) => IncomingActionView::Discard(
                told(*before),
                progress@,
                response@,
            ),
            IncomingAction::Keep(event, progress, response) => IncomingActionView::Keep(
                event@,
                progress@,
                response@,
            ),
            IncomingAction::Abort(reason) => IncomingActionView::Abort(reason@),
            IncomingAction::Nothing => IncomingActionView::Nothing,
        }
    }
}

/// What is waited for, and what is to be done.
pub struct IncomingStep {
    pub next: IncomingView,
    pub action: IncomingActionView,
}

/// The connection is given up.
pub open spec fn aborted(reason: Seq<char>) -> IncomingStep {
    IncomingStep { next: IncomingView::Closed, action: IncomingActionView::Abort(reason) }
}

/// The request is answered.
pub open spec fn answered(response: ResponseView) -> IncomingStep {
    IncomingStep { next: IncomingView::Closed, action: IncomingActionView::Answer(response) }
}

/// What is told when more bytes come than can be authenticated or were announced.
pub const TOO_LONG: &'static str = "content too long";

/// What comes of a head that is complete: a request for an upload whose code and keys can be read
/// goes on, and any other is refused.
pub open spec fn after_head(
    head: HeadView,
    private: nat,
    own_id: Seq<char>,
    now_ms: u128,
) -> IncomingStep {
    match receiving::requested(head, own_id, now_ms) {
        Err(RefusalView::Answer(response)) => answered(response),
        Err(RefusalView::Abort(reason)) => aborted(reason),
        Ok(request) => if !receiving::request_fits(request, 0) {
            aborted(TOO_LONG@)
        } else {
            match (
                encoding::mac_of(encoding::base64_decoded(request.mac)),
                crypto::receiver_keys(private, request.sender_public, request.nonce),
            ) {
                (Err(_), _) => answered(
                    ResponseView { status: 400, reason: "Bad Request"@, body: "{}"@ },
                ),
                (_, Err(error)) => answered(receiving::bad_request(error)),
                (Ok(expected), Ok(keys)) => IncomingStep {
                    next: IncomingView::Directory(
                        ReceivingView { request, keys, expected, content: Seq::empty() },
                    ),
                    action: IncomingActionView::Prepare,
                },
            }
        },
    }
}

/// The next name is tried for the file, unless there is none left.
pub open spec fn look_for(file: ReceivingView, attempt: u32) -> IncomingStep {
    match files::candidate(file.request.file_name, attempt) {
        Some(name) => IncomingStep {
            next: IncomingView::Looking(file, name, attempt),
            action: IncomingActionView::LookFor(name),
        },
        None => answered(receiving::internal_error("too many duplicate file names"@)),
    }
}

/// The next part of the content is read, if something of it is left, unless the transfer was
/// cancelled; otherwise the file is finished. What is told of the last part is told first.
pub open spec fn read_on(
    file: ReceivingView,
    before: Option<ProgressView>,
    cancelled: bool,
) -> IncomingStep {
    let remaining = file.request.content_length - file.content.len();
    if remaining <= 0 {
        IncomingStep {
            next: IncomingView::Flushing(file),
            action: IncomingActionView::Flush(before),
        }
    } else if cancelled {
        IncomingStep {
            next: IncomingView::Closed,
            action: IncomingActionView::Discard(
                before,
                receiving::receiving_progress(
                    file.request,
                    TransferPhase::Failed,
                    file.content.len() as u64,
                    Some(CANCELLED@),
                ),
                ResponseView {
                    status: 499,
                    reason: "Client Closed Request"@,
                    body: "{\"ok\":false,\"error\":\"cancelled\"}"@,
                },
            ),
        }
    } else {
        IncomingStep {
            next: IncomingView::Reading(file),
            action: IncomingActionView::Read(before, receiving::chunk_size(remaining)),
        }
    }
}

/// A part of the content is decrypted and saved, unless it is more than was announced or than can
/// be authenticated.
pub open spec fn after_content(file: ReceivingView, chunk: Seq<u8>) -> IncomingStep {
    let length = file.content.len() + chunk.len();
    if length > file.request.content_length || !receiving::request_fits(
        file.request,
        length as int,
    ) {
        aborted(TOO_LONG@)
    } else {
        let plain = chacha::encrypted(
            file.keys.cipher_key,
            file.keys.nonce,
            file.content.len() as int,
            chunk,
        );
        IncomingStep {
            next: IncomingView::Writing(
                ReceivingView { content: file.content + plain, ..file },
            ),
            action: IncomingActionView::Write(plain),
        }
    }
}

/// A file whose content is complete is kept if it is what the sender sent, and discarded if not.
pub open spec fn after_flush(file: ReceivingView) -> IncomingStep {
    if file.expected == receiving::request_code(file.request, file.keys, file.content) {
        IncomingStep {
            next: IncomingView::Publishing(file.request),
            action: IncomingActionView::Publish,
        }
    } else {
        IncomingStep {
            next: IncomingView::Closed,
            action: IncomingActionView::Discard(
                None,
                receiving::receiving_progress(
                    file.request,
                    TransferPhase::Failed,
                    file.content.len() as u64,
                    Some(VERIFICATION_FAILED@),
                ),
                ResponseView {
                    status: 400,
                    reason: "Bad Request"@,
                    body: "{\"ok\":false,\"error\":\"crypto verification failed\"}"@,
                },
            ),
        }
    }
}

/// What comes of what has happened, for the holder of a private key with an id.
pub open spec fn stepped(
    incoming: IncomingView,
    event: IncomingEvent,
    private: nat,
    own_id: Seq<char>,
    cancelled: bool,
    now_ms: u128,
) -> IncomingStep {
    match (incoming, event) {
        (IncomingView::Head(_), IncomingEvent::Line(Err(error))) => aborted(error@),
        (IncomingView::Head(head), IncomingEvent::Line(Ok(line))) => {
            let longer = http::after_line(head, line@);
            if longer.complete {
                after_head(longer, private, own_id, now_ms)
            } else {
                IncomingStep {
                    next: IncomingView::Head(longer),
                    action: IncomingActionView::ReadLine,
                }
            }
        },
        (IncomingView::Directory(_), IncomingEvent::Prepared(Err(error))) => answered(
            receiving::internal_error(error@),
        ),
        (IncomingView::Directory(file), IncomingEvent::Prepared(Ok(_))) => look_for(file, 0),
        (IncomingView::Looking(file, _, attempt), IncomingEvent::Exists(true)) => look_for(
            file,
            (attempt + 1) as u32,
        ),
        (IncomingView::Looking(file, name, _), IncomingEvent::Exists(false)) => IncomingStep {
            next: IncomingView::Creating(file),
            action: IncomingActionView::Create(
                receiving::receiving_progress(file.request, TransferPhase::Started, 0, None),
                name,
            ),
        },
        (IncomingView::Creating(_), IncomingEvent::Created(Err(error))) => answered(
            receiving::internal_error(error@),
        ),
        (IncomingView::Creating(file), IncomingEvent::Created(Ok(_))) => read_on(
            file,
            None,
            cancelled,
        ),
        (IncomingView::Reading(_), IncomingEvent::Content(Err(error))) => aborted(error@),
        (IncomingView::Reading(file), IncomingEvent::Content(Ok(chunk))) => after_content(
            file,
            chunk@,
        ),
        (IncomingView::Writing(_), IncomingEvent::Written(Err(error))) => answered(
            receiving::internal_error(error@),
        ),
        (IncomingView::Writing(file), IncomingEvent::Written(Ok(_))) => read_on(
            file,
            Some(
                receiving::receiving_progress(
                    file.request,
                    TransferPhase::Progress,
                    file.content.len() as u64,
                    None,
                ),
            ),
            cancelled,
        ),
        (IncomingView::Flushing(_), IncomingEvent::Flushed(Err(error))) => answered(
            receiving::internal_error(error@),
        ),
        (IncomingView::Flushing(file), IncomingEvent::Flushed(Ok(_))) => after_flush(file),
        (IncomingView::Publishing(request), IncomingEvent::Published(published, path)) => {
            IncomingStep {
                next: IncomingView::Closed,
                action: IncomingActionView::Keep(
                    EventView {
                        direction: TransferDirection::Received,
                        file_name: request.file_name,
                        peer_name: request.sender_name,
                        bytes: request.content_length,
                        saved_path: Some(files::place_of(published, path@)),
                        timestamp_ms: now_ms,
                    },
                    receiving::receiving_progress(
                        request,
                        TransferPhase::Finished,
                        request.content_length,
                        None,
                    ),
                    receiving::saved_answer(path@),
                ),
            }
        },
        _ => IncomingStep { next: incoming, action: IncomingActionView::Nothing },
    }
}

/// Whether this is a step.
pub open spec fn is_step(made: (Incoming, IncomingAction), expected: IncomingStep) -> bool {
    made.0.wf() && made.0@ == expected.next && made.1@ == expected.action
}

impl Incoming {
    /// The file that is being received is sound, and of the names that are tried for it there are
    /// no more than there may be.
    pub open spec fn wf(&self) -> bool {
        match self {
            Incoming::Head(_) => true,
            Incoming::Directory(file) => file.wf(),
            Incoming::Looking(file, _, attempt) => file.wf() && *attempt < files::MAX_ATTEMPTS,
            Incoming::Creating(file) => file.wf(),
            Incoming::Reading(file) => file.wf(),
            Incoming::Writing(file) => file.wf(),
            Incoming::Flushing(file) => file.wf(),
            Incoming::Publishing(_) => true,
            Incoming::Closed => true,
        }
    }

    /// A connection of which nothing has been read. The first thing to do is to read a line.
    pub fn new() -> (incoming: Incoming)
        ensures
            incoming.wf(),
            incoming@ == IncomingView::Head(http::empty_head()),
    {
        Incoming::Head(RequestHead::new())
    }

    /// The id of the transfer, once it is known.
    pub fn transfer_id(&self) -> (id: Option<String>)
        ensures
            match self@ {
                IncomingView::Creating(file) => id matches Some(known) && known@
                    == file.request.transfer_id,
                IncomingView::Writing(file) => id matches Some(known) && known@
                    == file.request.transfer_id,
                _ => id is None,
            },
    {
        match self {
            Incoming::Creating(file) => Some(file.transfer_id()),
            Incoming::Writing(file) => Some(file.transfer_id()),
            _ => None,
        }
    }

    /// What comes of a head that is complete.
    fn head_done(head: RequestHead, keys: &KeyPair, own_id: &str, now_ms: u128) -> (step: (
        Incoming,
        IncomingAction,
    ))
        requires
            keys.wf(),
        ensures
            is_step(step, after_head(head@, keys.private(), own_id@, now_ms)),
    {
        let request = match receiving::read_request(&head, own_id, now_ms) {
            Ok(request) => request,
            Err(Refusal::Answer(response)) => {
                return (Incoming::Closed, IncomingAction::Answer(response));
            },
            Err(Refusal::Abort(reason)) => {
                return (Incoming::Closed, IncomingAction::Abort(reason));
            },
        };
        if !request.fits() {
            return (Incoming::Closed, IncomingAction::Abort(TOO_LONG.to_string()));
        }
        match Receiving::start(keys, request) {
            Ok(file) => (Incoming::Directory(file), IncomingAction::Prepare),
            Err(response) => (Incoming::Closed, IncomingAction::Answer(response)),
        }
    }

    /// The next name is tried for the file, unless there is none left.
    fn look(file: Receiving, attempt: u32) -> (step: (Incoming, IncomingAction))
        requires
            file.wf(),
        ensures
            is_step(step, look_for(file@, attempt)),
    {
        proof {
            receiving::lemma_sound(file);
            files::lemma_safe_is_portable(file@.request.file_name);
        }
        match files::destination_candidate(file.file_name().as_str(), attempt) {
            Some(name) => {
                let copy = name.clone();
                (Incoming::Looking(file, name, attempt), IncomingAction::LookFor(copy))
            },
            None => {
                let response = receiving::server_error("too many duplicate file names");
                (Incoming::Closed, IncomingAction::Answer(response))
            },
        }
    }

    /// The next part of the content is read, if something of it is left, unless the transfer was
    /// cancelled.
    fn go_on(file: Receiving, before: Option<TransferProgress>, cancelled: bool) -> (step: (
        Incoming,
        IncomingAction,
    ))
        requires
            file.wf(),
        ensures
            is_step(step, read_on(file@, told(before), cancelled)),
    {
        proof {
            receiving::lemma_sound(file);
        }
        let size: usize = file.wanted();
        if size == 0 {
            (Incoming::Flushing(file), IncomingAction::Flush(before))
        } else if cancelled {
            let unreceived = file.cancelled();
            (
                Incoming::Closed,
                IncomingAction::Discard(before, unreceived.progress, unreceived.response),
            )
        } else {
            (Incoming::Reading(file), IncomingAction::Read(before, size))
        }
    }

    /// A part of the content is decrypted and saved.
    fn take_in(file: Receiving, chunk: Vec<u8>) -> (step: (Incoming, IncomingAction))
        requires
            file.wf(),
        ensures
            is_step(step, after_content(file@, chunk@)),
    {
        if !file.announced(chunk.len()) || !file.authenticates(chunk.len()) {
            return (Incoming::Closed, IncomingAction::Abort(TOO_LONG.to_string()));
        }
        let mut file: Receiving = file;
        let mut chunk: Vec<u8> = chunk;
        file.decrypt(chunk.as_mut_slice());
        (Incoming::Writing(file), IncomingAction::Write(chunk))
    }

    /// What comes of what has happened, for the holder of a key pair with an id, where the
    /// transfer was cancelled or not.
    pub fn step(
        self,
        event: IncomingEvent,
        keys: &KeyPair,
        own_id: &str,
        cancelled: bool,
        now_ms: u128,
    ) -> (step: (Incoming, IncomingAction))
        requires
            self.wf(),
            keys.wf(),
        ensures
            is_step(step, stepped(self@, event, keys.private(), own_id@, cancelled, now_ms)),
    {
        match (self, event) {
            (Incoming::Head(_), IncomingEvent::Line(Err(error))) => {
                (Incoming::Closed, IncomingAction::Abort(error))
            },
            (Incoming::Head(head), IncomingEvent::Line(Ok(line))) => {
                let mut head: RequestHead = head;
                head.read_line(line.as_str());
                if head.is_complete() {
                    Incoming::head_done(head, keys, own_id, now_ms)
                } else {
                    (Incoming::Head(head), IncomingAction::ReadLine)
                }
            },
            (Incoming::Directory(file), IncomingEvent::Prepared(result)) => match result {
                Ok(_) => Incoming::look(file, 0),
                Err(error) => {
                    let response = receiving::server_error(error.as_str());
                    (Incoming::Closed, IncomingAction::Answer(response))
                },
            },
            (Incoming::Looking(file, name, attempt), IncomingEvent::Exists(found)) => {
                if found {
                    Incoming::look(file, attempt + 1)
                } else {
                    let started = file.started();
                    (Incoming::Creating(file), IncomingAction::Create(started, name))
                }
            },
            (Incoming::Creating(file), IncomingEvent::Created(result)) => match result {
                Ok(_) => Incoming::go_on(file, None, cancelled),
                Err(error) => {
                    let response = receiving::server_error(error.as_str());
                    (Incoming::Closed, IncomingAction::Answer(response))
                },
            },
            (Incoming::Reading(file), IncomingEvent::Content(result)) => match result {
                Ok(chunk) => Incoming::take_in(file, chunk),
                Err(error) => (Incoming::Closed, IncomingAction::Abort(error)),
            },
            (Incoming::Writing(file), IncomingEvent::Written(result)) => match result {
                Ok(_) => {
                    let progress = file.progressed();
                    Incoming::go_on(file, Some(progress), cancelled)
                },
                Err(error) => {
                    let response = receiving::server_error(error.as_str());
                    (Incoming::Closed, IncomingAction::Answer(response))
                },
            },
            (Incoming::Flushing(file), IncomingEvent::Flushed(result)) => match result {
                Ok(_) => match file.verify() {
                    Ok(verified) => (Incoming::Publishing(verified), IncomingAction::Publish),
                    Err(unreceived) => (
                        Incoming::Closed,
                        IncomingAction::Discard(None, unreceived.progress, unreceived.response),
                    ),
                },
                Err(error) => {
                    let response = receiving::server_error(error.as_str());
                    (Incoming::Closed, IncomingAction::Answer(response))
                },
            },
            (Incoming::Publishing(file), IncomingEvent::Published(published, path)) => {
                let saved = file.saved(path.as_str(), published, now_ms);
                (
                    Incoming::Closed,
                    IncomingAction::Keep(saved.event, saved.progress, saved.response),
                )
            },
            (same, _) => (same, IncomingAction::Nothing),
        }
    }
}

/// Whether a file is finished whose code is that of the names and the content.
pub open spec fn is_verified(incoming: IncomingView) -> bool {
    incoming matches IncomingView::Flushing(file) && file.expected == receiving::request_code(
        file.request,
        file.keys,
        file.content,
    )
}

/// A file is kept, and its transfer told to be finished, only after its code was found to be that
/// of the names and the content: only a file that is published comes to be kept, and only one whose
/// code matches comes to be published.
pub proof fn law_only_verified_files_are_kept(
    incoming: IncomingView,
    event: IncomingEvent,
    private: nat,
    own_id: Seq<char>,
    cancelled: bool,
    now_ms: u128,
)
    ensures
        ({
            let step = stepped(incoming, event, private, own_id, cancelled, now_ms);
            &&& step.action is Keep ==> incoming is Publishing
            &&& step.next is Publishing && !(incoming is Publishing) ==> is_verified(incoming)
        }),
{
}

/// A connection ends with one answer or by being given up, and nothing is done after that.
pub proof fn law_connection_ends_once(
    incoming: IncomingView,
    event: IncomingEvent,
    private: nat,
    own_id: Seq<char>,
    cancelled: bool,
    now_ms: u128,
)
    ensures
        ({
            let step = stepped(incoming, event, private, own_id, cancelled, now_ms);
            let ends = step.action is Answer || step.action is Discard || step.action is Keep
                || step.action is Abort;
            &&& !(incoming is Closed) ==> (step.next is Closed <==> ends)
            &&& incoming is Closed ==> step.next is Closed && step.action is Nothing
        }),
{
}

/// What is said of a connection is what it holds.
pub proof fn law_connection_is_told_as_it_is(incoming: Incoming)
    ensures
        match incoming {
            Incoming::Head(head) => incoming@ == IncomingView::Head(head@),
            Incoming::Directory(file) => incoming@ == IncomingView::Directory(file@),
            Incoming::Looking(file, name, attempt) => incoming@ == IncomingView::Looking(
                file@,
                name@,
                attempt,
            ),
            Incoming::Creating(file) => incoming@ == IncomingView::Creating(file@),
            Incoming::Reading(file) => incoming@ == IncomingView::Reading(file@),
            Incoming::Writing(file) => incoming@ == IncomingView::Writing(file@),
            Incoming::Flushing(file) => incoming@ == IncomingView::Flushing(file@),
            Incoming::Publishing(file) => incoming@ == IncomingView::Publishing(file@),
            Incoming::Closed => incoming@ is Closed,
        },
{
}

/// What is said of what is to be done is what it holds.
pub proof fn law_receiving_action_is_told_as_it_is(action: IncomingAction)
    ensures
        match action {
            IncomingAction::ReadLine => action@ is ReadLine,
            IncomingAction::Prepare => action@ is Prepare,
            IncomingAction::LookFor(name) => action@ == IncomingActionView::LookFor(name@),
            IncomingAction::Create(progress, name) => action@ == IncomingActionView::Create(
                progress@,
                name@,
            ),
            IncomingAction::Read(Some(progress), size) => action@ == IncomingActionView::Read(
                Some(progress@),
                size as int,
            ),
            IncomingAction::Read(None, size) => action@ == IncomingActionView::Read(
                None,
                size as int,
            ),
            IncomingAction::Write(content) => action@ == IncomingActionView::Write(content@),
            IncomingAction::Flush(Some(progress)) => action@ == IncomingActionView::Flush(
                Some(progress@),
            ),
            IncomingAction::Flush(None) => action@ == IncomingActionView::Flush(None),
            IncomingAction::Publish => action@ is Publish,
            IncomingAction::Answer(response) => action@ == IncomingActionView::Answer(response@),
            IncomingAction::Discard(Some(before), progress, response) => action@
                == IncomingActionView::Discard(Some(before@), progress@, response@),
            IncomingAction::Discard(None, progress, response) => action@
                == IncomingActionView::Discard(None, progress@, response@),
            IncomingAction::Keep(event, progress, response) => action@ == IncomingActionView::Keep(
                event@,
                progress@,
                response@,
            ),
            IncomingAction::Abort(reason) => action@ == IncomingActionView::Abort(reason@),
            IncomingAction::Nothing => action@ is Nothing,
        },
{
}

/// Lines are read until the head is complete; a connection that breaks before that is given up.
pub proof fn law_head_is_read_to_its_end(
    head: HeadView,
    line: String,
    error: String,
    private: nat,
    own_id: Seq<char>,
    cancelled: bool,
    now_ms: u128,
)
    ensures
        ({
            let longer = http::after_line(head, line@);
            let read = stepped(
                IncomingView::Head(head),
                IncomingEvent::Line(Ok(line)),
                private,
                own_id,
                cancelled,
                now_ms,
            );
            let broken = stepped(
                IncomingView::Head(head),
                IncomingEvent::Line(Err(error)),
                private,
                own_id,
                cancelled,
                now_ms,
            );
            &&& !longer.complete ==> read.next == IncomingView::Head(longer) && read.action
                is ReadLine
            &&& longer.complete ==> read == after_head(longer, private, own_id, now_ms)
            &&& broken.next is Closed
            &&& broken.action == IncomingActionView::Abort(error@)
        }),
{
}

/// A request that is refused is answered or given up as the refusal says. One whose names are too
/// long is given up; one whose code cannot be read is a bad request without a word, and one whose
/// keys cannot be read is one that says why. Any other goes on with its code, the keys that the own
/// private key gives, and nothing received.
pub proof fn law_request_goes_on_with_its_keys(
    head: HeadView,
    private: nat,
    own_id: Seq<char>,
    now_ms: u128,
)
    ensures
        ({
            let step = after_head(head, private, own_id, now_ms);
            match receiving::requested(head, own_id, now_ms) {
                Err(RefusalView::Answer(response)) => step.next is Closed && step.action
                    == IncomingActionView::Answer(response),
                Err(RefusalView::Abort(reason)) => step.next is Closed && step.action
                    == IncomingActionView::Abort(reason),
                Ok(request) => {
                    let code = encoding::mac_of(encoding::base64_decoded(request.mac));
                    let keys = crypto::receiver_keys(
                        private,
                        request.sender_public,
                        request.nonce,
                    );
                    if !receiving::request_fits(request, 0) {
                        step.next is Closed && step.action == IncomingActionView::Abort(
                            "content too long"@,
                        )
                    } else if code is Err {
                        step.next is Closed && step.action == IncomingActionView::Answer(
                            ResponseView { status: 400, reason: "Bad Request"@, body: "{}"@ },
                        )
                    } else if keys is Err {
                        step.next is Closed && step.action == IncomingActionView::Answer(
                            receiving::bad_request(keys->Err_0),
                        )
                    } else {
                        &&& step.action is Prepare
                        &&& step.next matches IncomingView::Directory(file)
                        &&& file.request == request
                        &&& file.keys == keys->Ok_0
                        &&& file.expected == code->Ok_0
                        &&& file.content.len() == 0
                    }
                },
            }
        }),
{
}

/// Names are tried in turn, the file's own first and then the numbered ones, until there is no file
/// of a name; then the file is created under that name, and the transfer is told to have started.
/// After ten thousand names there is no other.
pub proof fn law_names_are_tried_in_turn(
    file: ReceivingView,
    name: Seq<char>,
    attempt: u32,
    error: String,
    private: nat,
    own_id: Seq<char>,
    cancelled: bool,
    now_ms: u128,
)
    requires
        attempt < 10_000,
    ensures
        ({
            let after = |incoming: IncomingView, event: IncomingEvent|
                stepped(incoming, event, private, own_id, cancelled, now_ms);
            let own = file.request.file_name;
            let next = files::numbered(own, (attempt + 1) as u32);
            let ready = after(IncomingView::Directory(file), IncomingEvent::Prepared(Ok(())));
            let failed = after(IncomingView::Directory(file), IncomingEvent::Prepared(Err(error)));
            let taken = after(
                IncomingView::Looking(file, name, attempt),
                IncomingEvent::Exists(true),
            );
            let free = after(
                IncomingView::Looking(file, name, attempt),
                IncomingEvent::Exists(false),
            );
            &&& ready.next == IncomingView::Looking(file, own, 0)
            &&& ready.action == IncomingActionView::LookFor(own)
            &&& failed.next is Closed
            &&& failed.action == IncomingActionView::Answer(receiving::internal_error(error@))
            &&& attempt < 9_999 ==> taken.next == IncomingView::Looking(
                file,
                next,
                (attempt + 1) as u32,
            )
            &&& attempt < 9_999 ==> taken.action == IncomingActionView::LookFor(next)
            &&& attempt == 9_999 ==> taken.next is Closed
            &&& attempt == 9_999 ==> taken.action == IncomingActionView::Answer(
                receiving::internal_error("too many duplicate file names"@),
            )
            &&& free.next == IncomingView::Creating(file)
            &&& free.action == IncomingActionView::Create(
                receiving::receiving_progress(file.request, TransferPhase::Started, 0, None),
                name,
            )
        }),
{
}

/// Once the file is created, and once a part of the content is saved, the next part is read, as long
/// as something is left of what was announced; a transfer that was cancelled is then discarded
/// instead. When nothing is left, the file is finished, cancelled or not. How far it has come is told
/// after every part.
pub proof fn law_content_is_read_until_nothing_is_left(
    file: ReceivingView,
    error: String,
    private: nat,
    own_id: Seq<char>,
    cancelled: bool,
    now_ms: u128,
)
    ensures
        ({
            let after = |incoming: IncomingView, event: IncomingEvent|
                stepped(incoming, event, private, own_id, cancelled, now_ms);
            let created = after(IncomingView::Creating(file), IncomingEvent::Created(Ok(())));
            let written = after(IncomingView::Writing(file), IncomingEvent::Written(Ok(())));
            let uncreated = after(IncomingView::Creating(file), IncomingEvent::Created(Err(error)));
            let unwritten = after(IncomingView::Writing(file), IncomingEvent::Written(Err(error)));
            let remaining = file.request.content_length - file.content.len();
            let count = file.content.len() as u64;
            let told = receiving::receiving_progress(
                file.request,
                TransferPhase::Progress,
                count,
                None,
            );
            let end = receiving::receiving_progress(
                file.request,
                TransferPhase::Failed,
                count,
                Some("传输已取消"@),
            );
            let answer = ResponseView {
                status: 499,
                reason: "Client Closed Request"@,
                body: "{\"ok\":false,\"error\":\"cancelled\"}"@,
            };
            let size = if remaining < 65536 {
                remaining
            } else {
                65536
            };
            &&& remaining <= 0 ==> created.next == IncomingView::Flushing(file) && created.action
                == IncomingActionView::Flush(None)
            &&& remaining <= 0 ==> written.next == IncomingView::Flushing(file) && written.action
                == IncomingActionView::Flush(Some(told))
            &&& remaining > 0 && !cancelled ==> created.next == IncomingView::Reading(file)
                && created.action == IncomingActionView::Read(None, size)
            &&& remaining > 0 && !cancelled ==> written.next == IncomingView::Reading(file)
                && written.action == IncomingActionView::Read(Some(told), size)
            &&& remaining > 0 && cancelled ==> created.next is Closed && created.action
                == IncomingActionView::Discard(None, end, answer)
            &&& remaining > 0 && cancelled ==> written.next is Closed && written.action
                == IncomingActionView::Discard(Some(told), end, answer)
            &&& uncreated.next is Closed
            &&& uncreated.action == IncomingActionView::Answer(receiving::internal_error(error@))
            &&& unwritten.next is Closed
            &&& unwritten.action == IncomingActionView::Answer(receiving::internal_error(error@))
        }),
{
}

/// A part of the content is decrypted where it stands in the file, saved, and counted to the content,
/// unless it is more than was announced or can be authenticated. A connection that breaks is given up.
pub proof fn law_content_is_saved_decrypted(
    file: ReceivingView,
    chunk: Vec<u8>,
    error: String,
    private: nat,
    own_id: Seq<char>,
    cancelled: bool,
    now_ms: u128,
)
    ensures
        ({
            let read = stepped(
                IncomingView::Reading(file),
                IncomingEvent::Content(Ok(chunk)),
                private,
                own_id,
                cancelled,
                now_ms,
            );
            let broken = stepped(
                IncomingView::Reading(file),
                IncomingEvent::Content(Err(error)),
                private,
                own_id,
                cancelled,
                now_ms,
            );
            let length = (file.content.len() + chunk@.len()) as int;
            let plain = chacha::encrypted(
                file.keys.cipher_key,
                file.keys.nonce,
                file.content.len() as int,
                chunk@,
            );
            let fits = length <= file.request.content_length && receiving::request_fits(
                file.request,
                length,
            );
            &&& fits ==> {
                &&& read.action == IncomingActionView::Write(plain)
                &&& read.next matches IncomingView::Writing(longer)
                &&& longer.content == file.content + plain
                &&& longer.request == file.request
                &&& longer.keys == file.keys
                &&& longer.expected == file.expected
            }
            &&& !fits ==> read.next is Closed && read.action == IncomingActionView::Abort(
                "content too long"@,
            )
            &&& broken.next is Closed
            &&& broken.action == IncomingActionView::Abort(error@)
        }),
{
}

/// A file whose content is complete is published if the code that came with it is that of the names
/// and the content, and only then; otherwise it is discarded as not authentic. A file that was
/// published is kept: it is remembered with who sent it and where it is, told to be finished, and
/// answered for.
pub proof fn law_authentic_files_are_kept(
    file: ReceivingView,
    request: RequestView,
    published: Option<PublishedFile>,
    path: String,
    error: String,
    private: nat,
    own_id: Seq<char>,
    cancelled: bool,
    now_ms: u128,
)
    ensures
        ({
            let after = |incoming: IncomingView, event: IncomingEvent|
                stepped(incoming, event, private, own_id, cancelled, now_ms);
            let flushed = after(IncomingView::Flushing(file), IncomingEvent::Flushed(Ok(())));
            let unsaved = after(IncomingView::Flushing(file), IncomingEvent::Flushed(Err(error)));
            let kept = after(
                IncomingView::Publishing(request),
                IncomingEvent::Published(published, path),
            );
            let authentic = file.expected == receiving::request_code(
                file.request,
                file.keys,
                file.content,
            );
            &&& authentic ==> flushed.next == IncomingView::Publishing(file.request)
                && flushed.action is Publish
            &&& !authentic ==> flushed.next is Closed && flushed.action
                == IncomingActionView::Discard(
                None,
                receiving::receiving_progress(
                    file.request,
                    TransferPhase::Failed,
                    file.content.len() as u64,
                    Some("加密校验失败"@),
                ),
                ResponseView {
                    status: 400,
                    reason: "Bad Request"@,
                    body: "{\"ok\":false,\"error\":\"crypto verification failed\"}"@,
                },
            )
            &&& unsaved.next is Closed
            &&& unsaved.action == IncomingActionView::Answer(receiving::internal_error(error@))
            &&& kept.next is Closed
            &&& kept.action matches IncomingActionView::Keep(event, progress, response)
            &&& event.direction == TransferDirection::Received
            &&& event.file_name == request.file_name
            &&& event.peer_name == request.sender_name
            &&& event.bytes == request.content_length
            &&& event.saved_path == Some(
                match published {
                    Some(known) => known.uri@,
                    None => path@,
                },
            )
            &&& event.timestamp_ms == now_ms
            &&& progress == receiving::receiving_progress(
                request,
                TransferPhase::Finished,
                request.content_length,
                None,
            )
            &&& response == receiving::saved_answer(path@)
        }),
{
}

/// What was not waited for changes nothing, and nothing is done about it.
pub proof fn law_unexpected_events_do_nothing(
    incoming: IncomingView,
    event: IncomingEvent,
    private: nat,
    own_id: Seq<char>,
    cancelled: bool,
    now_ms: u128,
)
    ensures
        ({
            let step = stepped(incoming, event, private, own_id, cancelled, now_ms);
            let awaited = (incoming is Head && event is Line) || (incoming is Directory && event
                is Prepared) || (incoming is Looking && event is Exists) || (incoming is Creating
                && event is Created) || (incoming is Reading && event is Content) || (incoming
                is Writing && event is Written) || (incoming is Flushing && event is Flushed) || (
            incoming is Publishing && event is Published);
            &&& !awaited ==> step.next == incoming && step.action is Nothing
            &&& awaited ==> !(step.action is Nothing)
        }),
{
}

} // verus!
