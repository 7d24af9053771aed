//! Files that are sent to a device one after another.

use crate::crypto::KeyPair;
use crate::devices::{DeviceInfo, DeviceView};
use crate::history::{EventView, TransferDirection, TransferEvent};
use crate::identity::{Identity, IdentityView};
use crate::incoming;
use crate::outgoing;
use crate::outgoing::{
    Outgoing, OutgoingAction, OutgoingActionView, OutgoingEvent, OutgoingStep, OutgoingView,
};
use crate::sending;
use crate::sending::SendError;
use crate::text;
use crate::transfer::{ProgressView, ReceiptView, TransferProgress, TransferReceipt};
use vstd::prelude::*;

verus! {

/// Files that are sent to a device one after another: their paths, the receipts of those that
/// were sent, and the sending of the one that is next.
pub struct Batch {
    target: DeviceInfo,
    paths: Vec<String>,
    receipts: Vec<TransferReceipt>,
    current: Outgoing,
}

/// Files that are sent to a device one after another, by their texts, keys and bytes.
#[verifier::ext_equal]
pub struct BatchView {
    pub target: DeviceView,
    pub paths: Seq<Seq<char>>,
    pub receipts: Seq<ReceiptView>,
    pub current: OutgoingView,
}

/// A list of receipts by their texts.
pub open spec fn receipt_views(receipts: Seq<TransferReceipt>) -> Seq<ReceiptView> {
    Seq::new(receipts.len(), |index: int| receipts[index]@)
}

impl View for Batch {
    type V = BatchView;

    closed spec fn view(&self) -> BatchView {
        BatchView {
            target: self.target@,
            paths: text::texts(self.paths@),
            receipts: receipt_views(self.receipts@),
            current: self.current@,
        }
    }
}

/// What is to be done.
pub enum BatchAction {
    /// Have the transfers saved that are remembered and tell of the last one, if there is one, and
    /// find out what there is at the path.
    Find(Option<TransferProgress>, String),
    /// Do this for the file that is being sent.
    Work(OutgoingAction),
    /// Have the transfers saved that are remembered, tell of the last one, and hand out the
    /// receipts.
    Finish(TransferProgress, Vec<TransferReceipt>),
    /// Tell of the transfer what there is to tell, and fail.
    Fail(Option<TransferProgress>, Option<TransferProgress>, SendError),
}

/// What is to be done, by its texts and bytes. An error is told by its message.
pub enum BatchActionView {
    Find(Option<ProgressView>, Seq<char>),
    Work(OutgoingActionView),
    Finish(ProgressView, Seq<ReceiptView>),
    Fail(Option<ProgressView>, Option<ProgressView>, Seq<char>),
}

impl View for BatchAction {
    type V = BatchActionView;

    open spec fn view(&self) -> BatchActionView {
        match self {
            BatchAction::Find(progress, path) => BatchActionView::Find(
                incoming::told(*progress),
                path@,
            ),
            BatchAction::Work(action) => BatchActionView::Work(action@),
            BatchAction::Finish(progress, receipts) => BatchActionView::Finish(
                progress@,
                receipt_views(receipts@),
            ),
            BatchAction::Fail(before, progress, error) => BatchActionView::Fail(
                incoming::told(*before),
                incoming::told(*progress),
                sending::send_error_text(*error),
            ),
        }
    }
}

/// What is left to send, what is to be done, and the transfer that is to be remembered.
pub struct BatchStep {
    pub next: BatchView,
    pub action: BatchActionView,
    pub remembered: Option<EventView>,
}

/// The sending of files to a device before anything is known of the first.
pub open spec fn batch_of(target: DeviceView, paths: Seq<Seq<char>>) -> BatchView {
    BatchView {
        target,
        paths,
        receipts: Seq::empty(),
        current: OutgoingView::Finding(target, paths[0]),
    }
}

/// What comes of a step in the sending of a file. Where that was sent, its receipt is kept and the
/// transfer is remembered; it goes on with the next path, or, if there is none, ends with all
/// receipts. Where it failed, the others are not sent.
pub open spec fn after_work(batch: BatchView, step: OutgoingStep) -> BatchStep {
    match step.action {
        OutgoingActionView::Finish(event, progress, receipt) => {
            let receipts = batch.receipts.push(receipt);
            if receipts.len() < batch.paths.len() {
                let path = batch.paths[receipts.len() as int];
                BatchStep {
                    next: BatchView {
                        receipts,
                        current: OutgoingView::Finding(batch.target, path),
                        ..batch
                    },
                    action: BatchActionView::Find(Some(progress), path),
                    remembered: Some(event),
                }
            } else {
                BatchStep {
                    next: BatchView { receipts, current: OutgoingView::Closed, ..batch },
                    action: BatchActionView::Finish(progress, receipts),
                    remembered: Some(event),
                }
            }
        },
        OutgoingActionView::Fail(before, progress, message) => BatchStep {
            next: BatchView { current: step.next, ..batch },
            action: BatchActionView::Fail(before, progress, message),
            remembered: None,
        },
        other => BatchStep {
            next: BatchView { current: step.next, ..batch },
            action: BatchActionView::Work(other),
            remembered: None,
        },
    }
}

/// What comes of what has happened, for a sender, where the transfer was cancelled or not.
pub open spec fn batch_step(
    batch: BatchView,
    event: OutgoingEvent,
    sender: IdentityView,
    cancelled: bool,
    now_ms: u128,
) -> BatchStep {
    after_work(batch, outgoing::sent_step(batch.current, event, sender, cancelled, now_ms))
}

/// A transfer that is to be remembered, if there is one, by its texts.
pub open spec fn remembered_view(event: Option<TransferEvent>) -> Option<EventView> {
    match event {
        Some(known) => Some(known@),
        None => None,
    }
}

/// Whether this is a step.
pub open spec fn is_step(
    made: (Batch, BatchAction, Option<TransferEvent>),
    expected: BatchStep,
) -> bool {
    &&& made.0.wf()
    &&& made.0@ == expected.next
    &&& made.1@ == expected.action
    &&& remembered_view(made.2) == expected.remembered
}

impl Batch {
    /// The sending of the next file is sound, and as long as it goes on there is a path for it.
    pub closed spec fn wf(&self) -> bool {
        &&& self.current.wf()
        &&& self.receipts@.len() <= self.paths@.len()
        &&& !(self.current is Closed) ==> self.receipts@.len() < self.paths@.len()
    }

    /// The sending of files to a device, and what is to be done first.
    pub fn new(target: DeviceInfo, paths: Vec<String>) -> (made: (Batch, BatchAction))
        requires
            paths@.len() > 0,
        ensures
            made.0.wf(),
            made.0@ == batch_of(target@, text::texts(paths@)),
            made.1@ == BatchActionView::Find(None, text::texts(paths@)[0]),
    {
        let path = paths[0].clone();
        let current = Outgoing::new(target.clone(), paths[0].clone());
        let batch = Batch { target, paths, receipts: Vec::new(), current };
        assert(batch@.receipts =~= Seq::<ReceiptView>::empty());
        (batch, BatchAction::Find(None, path))
    }

    /// The id of the transfer, where it matters whether that was cancelled.
    pub fn transfer_id(&self) -> (id: Option<String>)
        ensures
            outgoing::is_id_of(id, self@.current),
    {
        self.current.transfer_id()
    }

    /// What comes of what has happened, for the holder of a key pair, where the transfer was
    /// cancelled or not, and the transfer that is to be remembered.
    pub fn step(
        self,
        event: OutgoingEvent,
        keys: &KeyPair,
        sender: &Identity,
        cancelled: bool,
        now_ms: u128,
    ) -> (step: (Batch, BatchAction, Option<TransferEvent>))
        requires
            self.wf(),
        ensures
            is_step(step, batch_step(self@, event, sender@, cancelled, now_ms)),
            outgoing::is_readable(self@.current, event, step.0@.current),
    {
        proof {
            outgoing::law_sending_ends_once(self@.current, event, sender@, cancelled, now_ms);
        }
        let target = self.target;
        let paths = self.paths;
        let mut receipts: Vec<TransferReceipt> = self.receipts;
        let (current, action) = self.current.step(event, keys, sender, cancelled, now_ms);
        match action {
            OutgoingAction::Finish(event, progress, receipt) => {
                let ghost old_receipts = receipts@;
                receipts.push(receipt);
                assert(receipt_views(receipts@) =~= receipt_views(old_receipts).push(receipt@));
                if receipts.len() < paths.len() {
                    let path = paths[receipts.len()].clone();
                    let current = Outgoing::new(target.clone(), paths[receipts.len()].clone());
                    let batch = Batch { target, paths, receipts, current };
                    (batch, BatchAction::Find(Some(progress), path), Some(event))
                } else {
                    let copy = copied(&receipts);
                    let batch = Batch { target, paths, receipts, current: Outgoing::Closed };
                    (batch, BatchAction::Finish(progress, copy), Some(event))
                }
            },
            OutgoingAction::Fail(before, progress, error) => {
                let batch = Batch { target, paths, receipts, current };
                (batch, BatchAction::Fail(before, progress, error), None)
            },
            other => {
                let batch = Batch { target, paths, receipts, current };
                (batch, BatchAction::Work(other), None)
            },
        }
    }
}

/// A copy of receipts.
fn copied(receipts: &Vec<TransferReceipt>) -> (copy: Vec<TransferReceipt>)
    ensures
        receipt_views(copy@) == receipt_views(receipts@),
{
    let mut copy: Vec<TransferReceipt> = Vec::new();
    let mut index: usize = 0;
    while index < receipts.len()
        invariant
            index <= receipts@.len(),
            copy@.len() == index,
            forall|at: int| 0 <= at < index ==> (#[trigger] copy@[at])@ == receipts@[at]@,
        decreases receipts@.len() - index,
    {
        let receipt = &receipts[index];
        copy.push(
            TransferReceipt {
                file_name: receipt.file_name.clone(),
                target_name: receipt.target_name.clone(),
                bytes: receipt.bytes,
            },
        );
        index = index + 1;
    }
    assert(receipt_views(copy@) =~= receipt_views(receipts@));
    copy
}

/// Something that happens while files are sent.
pub struct Happening {
    pub event: OutgoingEvent,
    pub sender: IdentityView,
    pub cancelled: bool,
    pub now_ms: u128,
}

/// What has come of sending files.
#[verifier::ext_equal]
pub struct Course {
    pub batch: BatchView,
    /// The paths at which it was to be found out what there is, in their order.
    pub looked_at: Seq<Seq<char>>,
    /// The names and lengths of the files that were found there.
    pub found: Seq<(Seq<char>, u64)>,
    /// The transfers that were remembered.
    pub remembered: Seq<EventView>,
    /// The receipts or the error message, once it has ended.
    pub end: Option<Result<Seq<ReceiptView>, Seq<char>>>,
}

/// The name and the length of a file that is found, if one was looked for and there is one.
pub open spec fn file_found(outgoing: OutgoingView, event: OutgoingEvent) -> Option<
    (Seq<char>, u64),
> {
    match (outgoing, event) {
        (OutgoingView::Finding(_, _), OutgoingEvent::Facts(Ok(facts))) => match facts.name {
            Some(name) => if facts.is_file {
                Some((name@, facts.length))
            } else {
                None
            },
            None => None,
        },
        _ => None,
    }
}

/// What comes of sending files, and something that happens.
pub open spec fn course_on(course: Course, happening: Happening) -> Course {
    let step = batch_step(
        course.batch,
        happening.event,
        happening.sender,
        happening.cancelled,
        happening.now_ms,
    );
    Course {
        batch: step.next,
        looked_at: match step.action {
            BatchActionView::Find(_, path) => course.looked_at.push(path),
            _ => course.looked_at,
        },
        found: match file_found(course.batch.current, happening.event) {
            Some(file) => course.found.push(file),
            None => course.found,
        },
        remembered: match step.remembered {
            Some(event) => course.remembered.push(event),
            None => course.remembered,
        },
        end: match step.action {
            BatchActionView::Finish(_, receipts) => Some(Ok(receipts)),
            BatchActionView::Fail(_, _, message) => Some(Err(message)),
            _ => course.end,
        },
    }
}

/// What comes of sending files to a device while things happen, one after another.
pub open spec fn course_of(
    target: DeviceView,
    paths: Seq<Seq<char>>,
    happenings: Seq<Happening>,
) -> Course
    decreases happenings.len(),
{
    if happenings.len() == 0 {
        Course {
            batch: batch_of(target, paths),
            looked_at: seq![paths[0]],
            found: Seq::empty(),
            remembered: Seq::empty(),
            end: None,
        }
    } else {
        course_on(course_of(target, paths, happenings.drop_last()), happenings.last())
    }
}

/// The name and the length of the file that is being sent, and the name of the device that it is
/// sent to, once they are known.
pub open spec fn file_of(outgoing: OutgoingView) -> Option<ReceiptView> {
    match outgoing {
        OutgoingView::Finding(_, _) => None,
        OutgoingView::Opening(plan) => Some(planned(plan)),
        OutgoingView::Addressing(plan) => Some(planned(plan)),
        OutgoingView::Connecting(plan) => Some(planned(plan)),
        OutgoingView::Limiting(plan) => Some(planned(plan)),
        OutgoingView::Drawing(plan) => Some(planned(plan)),
        OutgoingView::Reopening(file) => Some(receipt_of(file)),
        OutgoingView::Scanning(scan) => Some(receipt_of(scan.sending)),
        OutgoingView::Greeting(file) => Some(receipt_of(file)),
        OutgoingView::Reading(file) => Some(receipt_of(file)),
        OutgoingView::Writing(file) => Some(receipt_of(file)),
        OutgoingView::Answering(file) => Some(receipt_of(file)),
        OutgoingView::Closed => None,
    }
}

/// The receipt of a file that is to be sent, if it is.
pub open spec fn planned(plan: outgoing::PlanView) -> ReceiptView {
    ReceiptView {
        file_name: plan.file_name,
        target_name: plan.target.name,
        bytes: plan.length,
    }
}

/// The receipt of a file that is being sent, if it is sent.
pub open spec fn receipt_of(file: sending::SendingView) -> ReceiptView {
    ReceiptView {
        file_name: file.file_name,
        target_name: file.peer_name,
        bytes: file.total_bytes,
    }
}

/// The receipt of a file that was found, if it is sent to a device.
pub open spec fn found_receipt(target: DeviceView, file: (Seq<char>, u64)) -> ReceiptView {
    ReceiptView { file_name: file.0, target_name: target.name, bytes: file.1 }
}

/// Whether a transfer is that of a receipt.
pub open spec fn is_record_of(event: EventView, receipt: ReceiptView) -> bool {
    &&& event.direction == TransferDirection::Sent
    &&& event.file_name == receipt.file_name
    &&& event.peer_name == receipt.target_name
    &&& event.bytes == receipt.bytes
    &&& event.saved_path is None
}

/// The file that is being sent stays the one that was found, and the receipt and the transfer that
/// is remembered are of it.
pub proof fn law_receipt_is_of_the_file(
    outgoing: OutgoingView,
    event: OutgoingEvent,
    sender: IdentityView,
    cancelled: bool,
    now_ms: u128,
)
    ensures
        ({
            let step = outgoing::sent_step(outgoing, event, sender, cancelled, now_ms);
            &&& !(step.next is Closed) && !(outgoing is Finding) ==> file_of(step.next) == file_of(
                outgoing,
            ) && !(step.next is Finding)
            &&& step.action matches OutgoingActionView::Finish(kept, _, receipt) ==> file_of(
                outgoing,
            ) == Some(receipt) && is_record_of(kept, receipt)
        }),
{
}

/// What is found at a path is the file that is sent from there on to the device.
proof fn lemma_found_file(
    target: DeviceView,
    path: Seq<char>,
    event: OutgoingEvent,
    sender: IdentityView,
    cancelled: bool,
    now_ms: u128,
)
    ensures
        ({
            let outgoing = OutgoingView::Finding(target, path);
            let step = outgoing::sent_step(outgoing, event, sender, cancelled, now_ms);
            match file_found(outgoing, event) {
                Some(file) => file_of(step.next) == Some(found_receipt(target, file)),
                None => step.next is Closed || step.next == outgoing,
            }
        }),
{
}

/// Whether files are sent one after another in the order of their paths: it was looked at the paths
/// up to the one that is next, and no further; there is a receipt for each file that was sent, which
/// is of what was found at its path, and the transfer was remembered once; it ends well only with a
/// receipt for every path, and it ends with an error only before a file that was not sent.
pub open spec fn is_in_order(
    course: Course,
    target: DeviceView,
    paths: Seq<Seq<char>>,
) -> bool {
    let sent = course.batch.receipts.len() as int;
    &&& course.batch.target == target
    &&& course.batch.paths == paths
    &&& sent <= paths.len()
    &&& course.looked_at == (if sent < paths.len() {
        paths.take(sent + 1)
    } else {
        paths
    })
    &&& sent <= course.found.len() <= sent + 1
    &&& course.remembered.len() == sent
    &&& forall|index: int|
        0 <= index < sent ==> #[trigger] course.batch.receipts[index] == found_receipt(
            target,
            course.found[index],
        ) && is_record_of(course.remembered[index], course.batch.receipts[index])
    &&& match course.end {
        None => sent < paths.len() && !(course.batch.current is Closed),
        Some(Ok(receipts)) => sent == paths.len() && receipts == course.batch.receipts
            && course.batch.current is Closed,
        Some(Err(_)) => sent < paths.len() && course.batch.current is Closed,
    }
}

/// Whether the sending of the next file is that of its path, and of what was found there.
spec fn is_at_next(course: Course, target: DeviceView, paths: Seq<Seq<char>>) -> bool {
    let sent = course.batch.receipts.len() as int;
    match course.batch.current {
        OutgoingView::Closed => true,
        OutgoingView::Finding(device, path) => device == target && path == paths[sent]
            && course.found.len() == sent,
        other => course.found.len() == sent + 1 && file_of(other) == Some(
            found_receipt(target, course.found[sent]),
        ),
    }
}

/// Something that happens keeps the order.
proof fn lemma_order_is_kept(
    course: Course,
    happening: Happening,
    target: DeviceView,
    paths: Seq<Seq<char>>,
)
    requires
        is_in_order(course, target, paths),
        is_at_next(course, target, paths),
    ensures
        is_in_order(course_on(course, happening), target, paths),
        is_at_next(course_on(course, happening), target, paths),
        course.end is Some ==> course_on(course, happening) == course,
{
    let current = course.batch.current;
    let sent = course.batch.receipts.len() as int;
    let step = outgoing::sent_step(
        current,
        happening.event,
        happening.sender,
        happening.cancelled,
        happening.now_ms,
    );
    let after = course_on(course, happening);
    outgoing::law_sending_ends_once(
        current,
        happening.event,
        happening.sender,
        happening.cancelled,
        happening.now_ms,
    );
    law_receipt_is_of_the_file(
        current,
        happening.event,
        happening.sender,
        happening.cancelled,
        happening.now_ms,
    );
    if let OutgoingView::Finding(device, path) = current {
        lemma_found_file(
            device,
            path,
            happening.event,
            happening.sender,
            happening.cancelled,
            happening.now_ms,
        );
    }
    if let OutgoingActionView::Finish(kept, progress, receipt) = step.action {
        assert(after.batch.receipts =~= course.batch.receipts.push(receipt));
        assert(after.remembered =~= course.remembered.push(kept));
        assert(after.found == course.found);
        if sent + 1 < paths.len() {
            assert(paths.take(sent + 2) =~= paths.take(sent + 1).push(paths[sent + 1]));
        } else {
            assert(paths.take(sent + 1) =~= paths);
        }
        assert forall|index: int| 0 <= index < sent + 1 implies
            #[trigger] after.batch.receipts[index] == found_receipt(target, after.found[index])
            && is_record_of(after.remembered[index], after.batch.receipts[index]) by {
            if index < sent {
                assert(after.batch.receipts[index] == course.batch.receipts[index]);
            }
        }
    } else {
        assert(after.batch.receipts == course.batch.receipts);
        assert(after.remembered == course.remembered);
        assert forall|index: int| 0 <= index < sent implies #[trigger] after.batch.receipts[index]
            == found_receipt(target, after.found[index]) && is_record_of(
            after.remembered[index],
            after.batch.receipts[index],
        ) by {
            assert(course.batch.receipts[index] == after.batch.receipts[index]);
            assert(after.found[index] == course.found[index]);
        }
    }
}

/// However it goes, files are sent one after another in the order of their paths.
pub proof fn law_files_are_sent_in_order(
    target: DeviceView,
    paths: Seq<Seq<char>>,
    happenings: Seq<Happening>,
)
    requires
        paths.len() > 0,
    ensures
        is_in_order(course_of(target, paths, happenings), target, paths),
{
    lemma_course(target, paths, happenings);
}

/// The order is kept from the start on.
proof fn lemma_course(target: DeviceView, paths: Seq<Seq<char>>, happenings: Seq<Happening>)
    requires
        paths.len() > 0,
    ensures
        is_in_order(course_of(target, paths, happenings), target, paths),
        is_at_next(course_of(target, paths, happenings), target, paths),
    decreases happenings.len(),
{
    if happenings.len() == 0 {
        assert(seq![paths[0]] =~= paths.take(1));
        if paths.len() == 1 {
            assert(paths.take(1) =~= paths);
        }
    } else {
        lemma_course(target, paths, happenings.drop_last());
        lemma_order_is_kept(
            course_of(target, paths, happenings.drop_last()),
            happenings.last(),
            target,
            paths,
        );
    }
}

/// Once the sending of files has ended, with receipts or with an error, nothing more comes of
/// anything that happens: after an error no other path is looked at, and what was sent before it
/// stays remembered.
pub proof fn law_nothing_is_sent_after_the_end(
    target: DeviceView,
    paths: Seq<Seq<char>>,
    happenings: Seq<Happening>,
    more: Happening,
)
    requires
        paths.len() > 0,
        course_of(target, paths, happenings).end is Some,
    ensures
        course_of(target, paths, happenings.push(more)) == course_of(target, paths, happenings),
{
    lemma_course(target, paths, happenings);
    lemma_order_is_kept(course_of(target, paths, happenings), more, target, paths);
    assert(happenings.push(more).drop_last() =~= happenings);
}

/// What is said of what is to be done is what it holds.
pub proof fn law_batch_action_is_told_as_it_is(action: BatchAction)
    ensures
        match action {
            BatchAction::Find(Some(progress), path) => action@ == BatchActionView::Find(
                Some(progress@),
                path@,
            ),
            BatchAction::Find(None, path) => action@ == BatchActionView::Find(None, path@),
            BatchAction::Work(work) => action@ == BatchActionView::Work(work@),
            BatchAction::Finish(progress, receipts) => {
                &&& action@ matches BatchActionView::Finish(told, list)
                &&& told == progress@
                &&& list.len() == receipts@.len()
                &&& forall|index: int|
                    0 <= index < list.len() ==> #[trigger] list[index] == receipts@[index]@
            },
            BatchAction::Fail(before, progress, error) => {
                &&& action@ matches BatchActionView::Fail(first, second, message)
                &&& before is None ==> first is None
                &&& before matches Some(told) ==> first == Some(told@)
                &&& progress is None ==> second is None
                &&& progress matches Some(told) ==> second == Some(told@)
                &&& message == sending::send_error_text(error)
            },
        },
{
}

/// Files are sent from the first path on, with no receipts yet.
pub proof fn law_batch_starts_with_the_first_path(target: DeviceView, paths: Seq<Seq<char>>)
    ensures
        batch_of(target, paths).target == target,
        batch_of(target, paths).paths == paths,
        batch_of(target, paths).receipts.len() == 0,
        batch_of(target, paths).current == OutgoingView::Finding(target, paths[0]),
{
}

/// Once a file is sent, its receipt stands behind the others and its transfer is to be remembered,
/// and the next path is looked at, for the same device, or all receipts are handed out. Once a file
/// fails, nothing is remembered, no receipt is added, and the error ends it all. Until then the file's
/// own work is done.
pub proof fn law_files_follow_one_another(batch: BatchView, step: OutgoingStep)
    ensures
        ({
            let after = after_work(batch, step);
            &&& after.next.target == batch.target
            &&& after.next.paths == batch.paths
            &&& match step.action {
                OutgoingActionView::Finish(event, progress, receipt) => {
                    let sent = batch.receipts.push(receipt);
                    &&& after.next.receipts == sent
                    &&& after.remembered == Some(event)
                    &&& batch.receipts.len() + 1 < batch.paths.len() ==> {
                        let path = batch.paths[batch.receipts.len() as int + 1];
                        &&& after.next.current == OutgoingView::Finding(batch.target, path)
                        &&& after.action == BatchActionView::Find(Some(progress), path)
                    }
                    &&& batch.receipts.len() + 1 >= batch.paths.len() ==> {
                        &&& after.next.current is Closed
                        &&& after.action == BatchActionView::Finish(progress, sent)
                    }
                },
                OutgoingActionView::Fail(before, progress, message) => {
                    &&& after.next.receipts == batch.receipts
                    &&& after.next.current == step.next
                    &&& after.remembered is None
                    &&& after.action == BatchActionView::Fail(before, progress, message)
                },
                other => {
                    &&& after.next.receipts == batch.receipts
                    &&& after.next.current == step.next
                    &&& after.remembered is None
                    &&& after.action == BatchActionView::Work(other)
                },
            }
        }),
{
}

/// A step of the whole is a step of the file that is being sent.
pub proof fn law_batch_does_the_work_of_its_file(
    batch: BatchView,
    event: OutgoingEvent,
    sender: IdentityView,
    cancelled: bool,
    now_ms: u128,
)
    ensures
        batch_step(batch, event, sender, cancelled, now_ms) == after_work(
            batch,
            outgoing::sent_step(batch.current, event, sender, cancelled, now_ms),
        ),
{
}

} // verus!
