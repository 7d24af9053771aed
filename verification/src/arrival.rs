//! What comes of a whole connection: which file is created, and what becomes of the directory that
//! files are saved in.

use crate::files;
use crate::history::EventView;
use crate::http;
use crate::incoming;
use crate::incoming::{IncomingActionView, IncomingEvent, IncomingStep, IncomingView};
use crate::names;
use crate::receiving;
use vstd::prelude::*;

verus! {

/// Something that happens while a connection is open, to the holder of a private key with an id, and
/// the names and contents of the files that the directory holds once what is to be done about it
/// was done.
pub struct Happening {
    pub event: IncomingEvent,
    pub private: nat,
    pub own_id: Seq<char>,
    pub cancelled: bool,
    pub now_ms: u128,
    pub directory: Map<Seq<char>, Seq<u8>>,
}

/// What has come of a connection.
#[verifier::ext_equal]
pub struct Course {
    pub incoming: IncomingView,
    /// The names of which there was no file.
    pub free: Seq<Seq<char>>,
    /// The names of the files that were to be created.
    pub created: Seq<Seq<char>>,
    /// The transfers that were to be remembered.
    pub remembered: Seq<EventView>,
    /// The files in the directory.
    pub directory: Map<Seq<char>, Seq<u8>>,
}

/// What comes of something that happens.
pub open spec fn step_of(incoming: IncomingView, happening: Happening) -> IncomingStep {
    incoming::stepped(
        incoming,
        happening.event,
        happening.private,
        happening.own_id,
        happening.cancelled,
        happening.now_ms,
    )
}

/// The name that is found free, if one was looked for and there is no file of it.
pub open spec fn name_found_free(incoming: IncomingView, event: IncomingEvent) -> Option<
    Seq<char>,
> {
    match (incoming, event) {
        (IncomingView::Looking(_, name, _), IncomingEvent::Exists(false)) => Some(name),
        _ => None,
    }
}

/// What comes of a connection, and something that happens.
pub open spec fn course_on(course: Course, happening: Happening) -> Course {
    let step = step_of(course.incoming, happening);
    Course {
        incoming: step.next,
        free: match name_found_free(course.incoming, happening.event) {
            Some(name) => course.free.push(name),
            None => course.free,
        },
        created: match step.action {
            IncomingActionView::Create(_, name) => course.created.push(name),
            _ => course.created,
        },
        remembered: match step.action {
            IncomingActionView::Keep(event, _, _) => course.remembered.push(event),
            _ => course.remembered,
        },
        directory: happening.directory,
    }
}

/// What comes of a connection while things happen, one after another.
pub open spec fn course_of(
    directory: Map<Seq<char>, Seq<u8>>,
    happenings: Seq<Happening>,
) -> Course
    decreases happenings.len(),
{
    if happenings.len() == 0 {
        Course {
            incoming: IncomingView::Head(http::empty_head()),
            free: Seq::empty(),
            created: Seq::empty(),
            remembered: Seq::empty(),
            directory,
        }
    } else {
        course_on(course_of(directory, happenings.drop_last()), happenings.last())
    }
}

/// Whether two directories hold the same files, but for one of a name.
pub open spec fn same_but_for(
    before: Map<Seq<char>, Seq<u8>>,
    after: Map<Seq<char>, Seq<u8>>,
    name: Seq<char>,
) -> bool {
    forall|other: Seq<char>|
        other != name ==> #[trigger] after.contains_key(other) == before.contains_key(other) && (
        before.contains_key(other) ==> after[other] == before[other])
}

/// Whether two directories hold the same files, but for the last one that was created.
pub open spec fn same_but_for_last(
    before: Map<Seq<char>, Seq<u8>>,
    after: Map<Seq<char>, Seq<u8>>,
    created: Seq<Seq<char>>,
) -> bool {
    if created.len() > 0 {
        same_but_for(before, after, created.last())
    } else {
        after == before
    }
}

/// Whether a directory is what it may be once something was done, well or badly, and nobody else has
/// written to it: to create a file touches none but that, to save bytes, to publish the file and to
/// remove it touches none but the one that was created, and nothing else touches any.
pub open spec fn may_become(
    before: Map<Seq<char>, Seq<u8>>,
    action: IncomingActionView,
    created: Seq<Seq<char>>,
    after: Map<Seq<char>, Seq<u8>>,
) -> bool {
    match action {
        IncomingActionView::Create(_, name) => same_but_for(before, after, name),
        IncomingActionView::Write(_) => same_but_for_last(before, after, created),
        IncomingActionView::Flush(_) => same_but_for_last(before, after, created),
        IncomingActionView::Publish => same_but_for_last(before, after, created),
        IncomingActionView::Discard(_, _, _) => same_but_for_last(before, after, created),
        _ => after == before,
    }
}

/// Whether what happens can happen where nobody else writes to the directory: a name of which there
/// is a file is not said to be free, and the directory becomes what it may.
pub open spec fn can_happen(course: Course, happening: Happening) -> bool {
    let step = step_of(course.incoming, happening);
    &&& name_found_free(course.incoming, happening.event) matches Some(name)
        ==> !course.directory.contains_key(name)
    &&& may_become(
        course.directory,
        step.action,
        course_on(course, happening).created,
        happening.directory,
    )
}

/// Whether all that happens can happen where nobody else writes to the directory.
pub open spec fn all_can_happen(
    directory: Map<Seq<char>, Seq<u8>>,
    happenings: Seq<Happening>,
) -> bool
    decreases happenings.len(),
{
    happenings.len() > 0 ==> all_can_happen(directory, happenings.drop_last()) && can_happen(
        course_of(directory, happenings.drop_last()),
        happenings.last(),
    )
}

/// Whether at most one file is created over a connection, under the one name that was found free,
/// which is safe, and a transfer is remembered at most once, and only if there is a file.
pub open spec fn creates_one_file(course: Course) -> bool {
    &&& course.created == course.free
    &&& course.created.len() <= 1
    &&& forall|index: int|
        0 <= index < course.created.len() ==> names::is_safe(#[trigger] course.created[index])
    &&& course.remembered.len() <= course.created.len()
}

/// Whether a file is being received or was.
spec fn has_name(incoming: IncomingView) -> bool {
    match incoming {
        IncomingView::Head(_) => false,
        IncomingView::Directory(_) => false,
        IncomingView::Looking(_, _, _) => false,
        _ => true,
    }
}

/// What holds of a connection as long as it goes on: the names that are tried are safe, a file is
/// only written to once it has a name, and nothing is remembered before the end.
spec fn is_sound(course: Course) -> bool {
    &&& creates_one_file(course)
    &&& !has_name(course.incoming) ==> course.created.len() == 0
    &&& has_name(course.incoming) && !(course.incoming is Closed) ==> course.created.len() == 1
    &&& !(course.incoming is Closed) ==> course.remembered.len() == 0
    &&& match course.incoming {
        IncomingView::Directory(file) => names::is_safe(file.request.file_name),
        IncomingView::Looking(file, name, attempt) => names::is_safe(file.request.file_name)
            && attempt < files::MAX_ATTEMPTS && names::is_safe(name),
        _ => true,
    }
}

/// Something that happens keeps a connection sound.
proof fn lemma_stays_sound(course: Course, happening: Happening)
    requires
        is_sound(course),
    ensures
        is_sound(course_on(course, happening)),
{
    let after = course_on(course, happening);
    match (course.incoming, happening.event) {
        (IncomingView::Head(head), IncomingEvent::Line(Ok(line))) => {
            let longer = http::after_line(head, line@);
            receiving::law_requested_name_is_safe(longer, happening.own_id, happening.now_ms);
        },
        (IncomingView::Directory(file), IncomingEvent::Prepared(Ok(_))) => {
            files::law_candidates_are_safe(file.request.file_name, 0);
        },
        (IncomingView::Looking(file, _, attempt), IncomingEvent::Exists(true)) => {
            if attempt + 1 < files::MAX_ATTEMPTS {
                files::law_candidates_are_safe(file.request.file_name, (attempt + 1) as u32);
            }
        },
        (IncomingView::Looking(_, name, _), IncomingEvent::Exists(false)) => {
            assert(after.created =~= seq![name]);
            assert(after.free =~= seq![name]);
        },
        _ => {},
    }
}

/// A connection is sound from the start on.
proof fn lemma_sound(directory: Map<Seq<char>, Seq<u8>>, happenings: Seq<Happening>)
    ensures
        is_sound(course_of(directory, happenings)),
    decreases happenings.len(),
{
    if happenings.len() > 0 {
        lemma_sound(directory, happenings.drop_last());
        lemma_stays_sound(course_of(directory, happenings.drop_last()), happenings.last());
    }
}

/// Whatever happens over a connection, at most one file is created, under the one name that was
/// found free. The name is safe: it has no slash and no other forbidden character, and leads to no
/// other directory. A transfer is remembered at most once, and only if a file was created.
pub proof fn law_one_file_is_created(
    directory: Map<Seq<char>, Seq<u8>>,
    happenings: Seq<Happening>,
)
    ensures
        creates_one_file(course_of(directory, happenings)),
{
    lemma_sound(directory, happenings);
}

/// Whatever happens over a connection, if nobody else writes to the directory that files are saved
/// in, every file that was there before is still there with the same content, and at most one file
/// is added, which lies in the directory itself under a safe name.
pub proof fn law_other_files_are_left_alone(
    directory: Map<Seq<char>, Seq<u8>>,
    happenings: Seq<Happening>,
)
    requires
        all_can_happen(directory, happenings),
    ensures
        ({
            let course = course_of(directory, happenings);
            &&& forall|name: Seq<char>| #[trigger]
                directory.contains_key(name) ==> course.directory.contains_key(name)
                    && course.directory[name] == directory[name]
            &&& forall|name: Seq<char>| #[trigger]
                course.directory.contains_key(name) && !directory.contains_key(name)
                    ==> course.created == seq![name] && names::is_safe(name)
        }),
{
    lemma_sound(directory, happenings);
    lemma_left_alone(directory, happenings);
    let course = course_of(directory, happenings);
    assert forall|name: Seq<char>| #[trigger]
        course.directory.contains_key(name) && !directory.contains_key(name) implies course.created
        == seq![name] && names::is_safe(name) by {
        assert(course.created =~= seq![name]);
        assert(names::is_safe(course.created[0]));
    }
}

/// The directory is the same as it was, but for the file that was created, which was not there.
proof fn lemma_left_alone(directory: Map<Seq<char>, Seq<u8>>, happenings: Seq<Happening>)
    requires
        all_can_happen(directory, happenings),
    ensures
        ({
            let course = course_of(directory, happenings);
            if course.created.len() == 0 {
                course.directory == directory
            } else {
                &&& course.created.len() == 1
                &&& !directory.contains_key(course.created[0])
                &&& same_but_for(directory, course.directory, course.created[0])
            }
        }),
    decreases happenings.len(),
{
    lemma_sound(directory, happenings);
    if happenings.len() > 0 {
        let before = course_of(directory, happenings.drop_last());
        let after = course_of(directory, happenings);
        let step = step_of(before.incoming, happenings.last());
        lemma_sound(directory, happenings.drop_last());
        lemma_left_alone(directory, happenings.drop_last());
        if step.action is Create {
            assert(before.created.len() == 0);
            assert(after.created[0] == step.action->Create_1);
        } else {
            assert(after.created == before.created);
        }
        if after.created.len() == 1 {
            let name = after.created[0];
            assert(after.created.last() == name);
            assert(same_but_for(before.directory, after.directory, name));
            assert(same_but_for(directory, before.directory, name));
            assert forall|other: Seq<char>| other != name implies #[trigger]
                after.directory.contains_key(other) == directory.contains_key(other) && (
            directory.contains_key(other) ==> after.directory[other] == directory[other]) by {
                assert(before.directory.contains_key(other) == directory.contains_key(other));
            }
        }
    }
}

} // verus!
