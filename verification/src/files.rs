//! Where received files are saved, and which files may be opened.

use crate::digits;
use crate::names;
use crate::text;
use vstd::prelude::*;

verus! {

/// The number of names that are tried for a received file.
pub const MAX_ATTEMPTS: u32 = 10_000;

/// The place of the last `mark` in a text, or -1.
pub open spec fn last_of(name: Seq<char>, mark: char) -> int
    decreases name.len(),
{
    if name.len() == 0 {
        -1
    } else if name.last() == mark {
        name.len() - 1
    } else {
        last_of(name.drop_last(), mark)
    }
}

/// Whether a part of a path leads nowhere: nothing, or this directory.
pub open spec fn leads_nowhere(part: Seq<char>) -> bool {
    part == ""@ || part == "."@
}

/// The last part of a path, between slashes, that leads anywhere, or nothing.
pub open spec fn last_part(path: Seq<char>) -> Seq<char>
    decreases path.len(),
{
    let slash = last_of(path, '/');
    let part = path.skip(slash + 1);
    if !leads_nowhere(part) {
        part
    } else if 0 <= slash < path.len() {
        last_part(path.take(slash))
    } else {
        ""@
    }
}

/// Whether the last part of a path names no file: there is none, or it is the directory above.
pub open spec fn names_no_file(part: Seq<char>) -> bool {
    part == ""@ || part == ".."@
}

/// Whether a path is parted alike on every system: at its slashes. Some part it at a backslash too,
/// or take what stands before a colon, or behind two slashes at the start, for the name of a volume.
pub open spec fn is_portable(path: Seq<char>) -> bool {
    &&& !path.contains('\\')
    &&& !path.contains(':')
    &&& !(path.len() >= 2 && path[0] == '/' && path[1] == '/')
}

/// The name of a file, behind the directories, without its extension, if a file is named.
pub open spec fn stem(path: Seq<char>) -> Option<Seq<char>> {
    let part = last_part(path);
    if names_no_file(part) {
        None
    } else if last_of(part, '.') > 0 {
        Some(part.take(last_of(part, '.')))
    } else {
        Some(part)
    }
}

/// The extension of the name of a file: what stands behind its last full stop, unless that is
/// the first character behind the directories. It may be missing or empty.
pub open spec fn extension(path: Seq<char>) -> Option<Seq<char>> {
    let part = last_part(path);
    if !names_no_file(part) && last_of(part, '.') > 0 {
        Some(part.skip(last_of(part, '.') + 1))
    } else {
        None
    }
}

/// The characters of a text, if there is one.
pub open spec fn part_view(part: Option<String>) -> Option<Seq<char>> {
    match part {
        Some(known) => Some(known@),
        None => None,
    }
}

/// The name to try for a received file: the file's own first, then ones with a number between
/// the stem and the extension, as long as there are any left. The file's own name is one that is
/// parted alike on every system.
pub open spec fn candidate(name: Seq<char>, attempt: u32) -> Option<Seq<char>> {
    if attempt == 0 {
        Some(name)
    } else if attempt >= MAX_ATTEMPTS {
        None
    } else {
        Some(numbered(name, attempt))
    }
}

/// The name of a file with a number between the stem and the extension.
pub open spec fn numbered(name: Seq<char>, number: u32) -> Seq<char> {
    numbered_with(stem(name), extension(name), number)
}

/// A stem with a number, and the extension, unless it is missing or empty. A missing stem is
/// made up.
pub open spec fn numbered_with(
    stem: Option<Seq<char>>,
    extension: Option<Seq<char>>,
    number: u32,
) -> Seq<char> {
    let marked = stem_or_file(stem) + " ("@ + digits::decimal(number as nat) + ")"@;
    if extension_or_none(extension).len() > 0 {
        marked + "."@ + extension_or_none(extension)
    } else {
        marked
    }
}

/// A stem, or one that is made up.
pub open spec fn stem_or_file(stem: Option<Seq<char>>) -> Seq<char> {
    match stem {
        Some(known) => known,
        None => "file"@,
    }
}

/// An extension, or an empty one.
pub open spec fn extension_or_none(extension: Option<Seq<char>>) -> Seq<char> {
    match extension {
        Some(known) => known,
        None => ""@,
    }
}

/// `std::path::Path::file_stem`, as text: the last part of the path, up to its last full stop,
/// unless that comes first; nothing, if the path names no file. Systems part a path differently:
/// nothing is said of one that is not parted alike on all of them.
#[verifier::external_body]
fn file_stem(path: &str) -> (found: Option<String>)
    ensures
        is_portable(path@) ==> part_view(found) == stem(path@),
{
    std::path::Path::new(path).file_stem().and_then(|part| part.to_str()).map(
        |part| part.to_string(),
    )
}

/// `std::path::Path::extension`, as text: what stands in the last part of the path behind its last
/// full stop, unless that comes first; nothing, if there is none or the path names no file. Systems
/// part a path differently: nothing is said of one that is not parted alike on all of them.
#[verifier::external_body]
fn file_extension(path: &str) -> (found: Option<String>)
    ensures
        is_portable(path@) ==> part_view(found) == extension(path@),
{
    std::path::Path::new(path).extension().and_then(|part| part.to_str()).map(
        |part| part.to_string(),
    )
}

/// The name of a file with a number, made of the stem and the extension that the system finds in
/// its name.
pub fn numbered_name(
    stem: Option<String>,
    extension: Option<String>,
    number: u32,
) -> (name: String)
    ensures
        name@ == numbered_with(part_view(stem), part_view(extension), number),
{
    let mut out = match stem {
        Some(known) => known,
        None => "file".to_string(),
    };
    out.append(" (");
    digits::push_decimal(&mut out, number as u64);
    out.append(")");
    proof {
        reveal_strlit("");
    }
    if let Some(known) = extension {
        assert(known@.len() == 0 ==> known@ =~= ""@);
        if !text::same_text(known.as_str(), "") {
            out.append(".");
            out.append(known.as_str());
        }
    }
    out
}

/// The name to try for a received file, of which there are ten thousand. What stands before and
/// behind the number is what the system takes for the stem and the extension.
pub fn destination_candidate(file_name: &str, attempt: u32) -> (name: Option<String>)
    ensures
        is_portable(file_name@) || attempt == 0 || attempt >= MAX_ATTEMPTS ==> part_view(name)
            == candidate(file_name@, attempt),
        0 < attempt < MAX_ATTEMPTS ==> exists|stem: Option<Seq<char>>, extension: Option<Seq<char>>|
            part_view(name) == Some(#[trigger] numbered_with(stem, extension, attempt)),
{
    if attempt == 0 {
        return Some(file_name.to_string());
    }
    if attempt >= MAX_ATTEMPTS {
        return None;
    }
    Some(numbered_name(file_stem(file_name), file_extension(file_name), attempt))
}

/// Where the last `mark` is.
proof fn lemma_last_of(name: Seq<char>, mark: char)
    ensures
        -1 <= last_of(name, mark) < name.len(),
        last_of(name, mark) >= 0 ==> name[last_of(name, mark)] == mark,
        forall|index: int|
            last_of(name, mark) < index < name.len() ==> #[trigger] name[index] != mark,
    decreases name.len(),
{
    if name.len() > 0 && name.last() != mark {
        let front = name.drop_last();
        lemma_last_of(front, mark);
        assert forall|index: int| last_of(name, mark) < index < name.len() implies
            #[trigger] name[index] != mark by {
            if index < front.len() {
                assert(name[index] == front[index]);
            }
        }
    }
}

/// The last part of a path is made of characters of the path, none of them a slash; that of a
/// path without slashes is the path, unless it leads nowhere.
proof fn lemma_last_part(path: Seq<char>)
    ensures
        forall|index: int|
            0 <= index < last_part(path).len() ==> #[trigger] last_part(path)[index] != '/'
                && path.contains(last_part(path)[index]),
        !path.contains('/') ==> last_part(path) == (if leads_nowhere(path) {
            ""@
        } else {
            path
        }),
    decreases path.len(),
{
    reveal_strlit("");
    let slash = last_of(path, '/');
    let part = path.skip(slash + 1);
    lemma_last_of(path, '/');
    if slash >= 0 {
        assert(path.contains('/'));
    } else {
        assert(part =~= path);
    }
    if !leads_nowhere(part) {
        assert forall|index: int| 0 <= index < part.len() implies #[trigger] part[index] != '/'
            && path.contains(part[index]) by {
            assert(part[index] == path[slash + 1 + index]);
        }
    } else if slash >= 0 {
        let front = path.take(slash);
        lemma_last_part(front);
        assert forall|index: int| 0 <= index < last_part(path).len() implies
            #[trigger] last_part(path)[index] != '/' && path.contains(last_part(path)[index]) by {
            let c = last_part(front)[index];
            let at = choose|at: int| 0 <= at < front.len() && front[at] == c;
            assert(path[at] == c);
        }
    }
}

/// Whether a character can stand in a numbered name whatever the file is called.
spec fn is_numbering(c: char) -> bool {
    c == ' ' || c == '(' || c == ')' || c == '.' || digits::is_digit(c) || c == 'f' || c == 'i' || c
        == 'l' || c == 'e'
}

/// A numbered name is made of characters of the last part of the name, and of numbering.
proof fn lemma_numbered_char(name: Seq<char>, number: u32, index: int)
    requires
        0 <= index < numbered(name, number).len(),
    ensures
        is_numbering(numbered(name, number)[index]) || last_part(name).contains(
            numbered(name, number)[index],
        ),
{
    reveal_strlit("");
    reveal_strlit(".");
    reveal_strlit("file");
    reveal_strlit(" (");
    reveal_strlit(")");
    let part = last_part(name);
    lemma_last_of(part, '.');
    digits::lemma_decimal_digits(number as nat);
    let written = digits::decimal(number as nat);
    let found = numbered(name, number);
    let front = stem_or_file(stem(name));
    let back = extension_or_none(extension(name));
    let head = front.len() as int;
    let tail = head + 2 + written.len() as int;
    if index < head {
        assert(found[index] == front[index]);
        if !names_no_file(part) {
            assert(found[index] == part[index]);
        }
    } else if index < head + 2 {
        assert(found[index] == " ("@[index - head]);
    } else if index < tail {
        assert(found[index] == written[index - head - 2]);
        assert(digits::is_digit(written[index - head - 2]));
    } else if index == tail {
        assert(found[index] == ")"@[0]);
    } else if index == tail + 1 {
        assert(found[index] == "."@[0]);
    } else {
        assert(found[index] == back[index - tail - 2]);
        assert(found[index] == part[last_of(part, '.') + 1 + index - tail - 2]);
    }
}

/// A safe name is parted alike on every system.
pub proof fn lemma_safe_is_portable(name: Seq<char>)
    requires
        names::is_safe(name),
    ensures
        is_portable(name),
{
    assert forall|c: char| #[trigger] name.contains(c) implies !names::is_forbidden(c) by {
        let at = choose|at: int| 0 <= at < name.len() && name[at] == c;
        assert(!names::is_forbidden(name[at]));
    }
}

/// Whatever the system takes for the stem and the extension of a name, different numbers make
/// different names of them.
pub proof fn law_numbers_make_names_differ(
    stem: Option<Seq<char>>,
    extension: Option<Seq<char>>,
    first: u32,
    second: u32,
)
    requires
        first != second,
    ensures
        numbered_with(stem, extension, first) != numbered_with(stem, extension, second),
{
    reveal_strlit(".");
    reveal_strlit(" (");
    reveal_strlit(")");
    let back = extension_or_none(extension);
    let before = stem_or_file(stem).len() as int + 2;
    let after = (if back.len() > 0 {
        2 + back.len()
    } else {
        1
    });
    let first_digits = digits::decimal(first as nat);
    let second_digits = digits::decimal(second as nat);
    let first_name = numbered_with(stem, extension, first);
    let second_name = numbered_with(stem, extension, second);
    assert(first_name.len() == before + first_digits.len() + after);
    assert(second_name.len() == before + second_digits.len() + after);
    if first_name == second_name {
        assert(first_name.subrange(before, before + first_digits.len()) =~= first_digits);
        assert(second_name.subrange(before, before + second_digits.len()) =~= second_digits);
        digits::law_decimal_is_injective(first as nat, second as nat);
    }
}

/// A received file gets one of the names to try only once: no two of them are the same.
pub proof fn law_candidates_differ(name: Seq<char>, first: u32, second: u32)
    requires
        is_portable(name),
        first < second < MAX_ATTEMPTS,
    ensures
        candidate(name, first) != candidate(name, second),
{
    if first > 0 {
        law_numbers_make_names_differ(stem(name), extension(name), first, second);
    } else if name.contains('/') {
        let at = choose|at: int| 0 <= at < name.len() && name[at] == '/';
        lemma_last_part(name);
        if name == numbered(name, second) {
            lemma_numbered_char(name, second, at);
        }
    } else {
        reveal_strlit("");
        reveal_strlit(".");
        reveal_strlit("..");
        reveal_strlit("file");
        reveal_strlit(" (");
        reveal_strlit(")");
        lemma_last_of(last_part(name), '.');
        lemma_last_part(name);
        assert(name.len() < numbered(name, second).len());
    }
}

/// Every name that is tried for a file whose name holds no forbidden character holds none either,
/// and every name that is tried for a file with a safe name is safe too.
pub proof fn law_candidates_are_safe(name: Seq<char>, attempt: u32)
    requires
        attempt < MAX_ATTEMPTS,
        forall|index: int| 0 <= index < name.len() ==> !names::is_forbidden(#[trigger] name[index]),
    ensures
        candidate(name, attempt) matches Some(found) && (forall|index: int|
            0 <= index < found.len() ==> !names::is_forbidden(#[trigger] found[index])) && (
        names::is_safe(name) ==> names::is_safe(found)),
{
    if attempt > 0 {
        let found = numbered(name, attempt);
        lemma_last_part(name);
        assert forall|index: int| 0 <= index < found.len() implies !names::is_forbidden(
            #[trigger] found[index],
        ) by {
            lemma_numbered_char(name, attempt, index);
            if !is_numbering(found[index]) {
                let part = last_part(name);
                let at = choose|at: int| 0 <= at < part.len() && part[at] == found[index];
                assert(name.contains(part[at]));
            }
        }
        if names::is_safe(name) {
            reveal_strlit("");
            reveal_strlit(".");
            reveal_strlit("..");
            reveal_strlit(" (");
            reveal_strlit(")");
            lemma_safe_is_portable(name);
            lemma_last_of(name, '.');
            assert(!name.contains('/')) by {
                if name.contains('/') {
                    let at = choose|at: int| 0 <= at < name.len() && name[at] == '/';
                    assert(!names::is_forbidden(name[at]));
                }
            }
            assert(last_part(name) == name);
            assert(found[0] == name[0]);
        }
    }
}

/// A name that is tried after the file's own has no directories in it, whatever directories stand
/// before the file's own.
pub proof fn law_numbered_names_have_no_directories(name: Seq<char>, attempt: u32)
    requires
        is_portable(name),
        0 < attempt < MAX_ATTEMPTS,
    ensures
        candidate(name, attempt) matches Some(found) && !found.contains('/'),
{
    let found = numbered(name, attempt);
    lemma_last_part(name);
    if found.contains('/') {
        let at = choose|at: int| 0 <= at < found.len() && found[at] == '/';
        lemma_numbered_char(name, attempt, at);
    }
}

/// Why a file may not be opened, if it may not: the receive directory or the file cannot be
/// found, the file does not lie in the directory, or it is no file. Both are given by the parts of
/// their full paths.
pub open spec fn saved_file_error(
    receive_dir: Result<Vec<String>, String>,
    path: Result<Vec<String>, String>,
    is_file: bool,
) -> Option<Seq<char>> {
    match (receive_dir, path) {
        (Err(error), _) => Some("接收目录无效："@ + error@),
        (_, Err(error)) => Some("文件不存在："@ + error@),
        (Ok(dir), Ok(file)) => if !text::texts(dir@).is_prefix_of(text::texts(file@)) {
            Some("只能打开本应用接收到的文件"@)
        } else if !is_file {
            Some("只能打开文件"@)
        } else {
            None
        },
    }
}

/// Whether a file may be opened: only one that lies in the receive directory.
pub fn ensure_saved_file_path(
    receive_dir: Result<Vec<String>, String>,
    path: Result<Vec<String>, String>,
    is_file: bool,
) -> (allowed: Result<(), String>)
    ensures
        match saved_file_error(receive_dir, path, is_file) {
            Some(error) => allowed matches Err(found) && found@ == error,
            None => allowed is Ok,
        },
{
    let dir = match receive_dir {
        Ok(parts) => parts,
        Err(error) => return Err(text::concat("接收目录无效：", error.as_str())),
    };
    let file = match path {
        Ok(parts) => parts,
        Err(error) => return Err(text::concat("文件不存在：", error.as_str())),
    };
    if !within(&dir, &file) {
        return Err("只能打开本应用接收到的文件".to_string());
    }
    if !is_file {
        return Err("只能打开文件".to_string());
    }
    Ok(())
}

/// Whether the parts of a path begin with those of another.
fn within(dir: &Vec<String>, file: &Vec<String>) -> (yes: bool)
    ensures
        yes == text::texts(dir@).is_prefix_of(text::texts(file@)),
{
    if dir.len() > file.len() {
        return false;
    }
    let mut index: usize = 0;
    while index < dir.len()
        invariant
            index <= dir@.len() <= file@.len(),
            forall|at: int| 0 <= at < index ==> text::texts(dir@)[at] == text::texts(file@)[at],
        decreases dir@.len() - index,
    {
        if !text::same_text(dir[index].as_str(), file[index].as_str()) {
            assert(text::texts(file@).subrange(0, dir@.len() as int)[index as int] != text::texts(
                dir@,
            )[index as int]);
            return false;
        }
        index = index + 1;
    }
    assert(text::texts(file@).subrange(0, dir@.len() as int) =~= text::texts(dir@));
    true
}

/// What is asked for with the place of a saved file on Android.
#[derive(Clone, Copy, PartialEq, Eq, Structural)]
pub enum SavedPlace {
    /// A file that was published to the media store.
    Published,
    /// Content of another application.
    Foreign,
    /// A path.
    Path,
}

/// What is asked for with the place of a saved file on Android.
pub open spec fn saved_place_of(place: Seq<char>) -> SavedPlace {
    if "content://media/"@.is_prefix_of(place) {
        SavedPlace::Published
    } else if "content://"@.is_prefix_of(place) {
        SavedPlace::Foreign
    } else {
        SavedPlace::Path
    }
}

/// What is asked for with the place of a saved file on Android.
pub fn saved_place(place: &str) -> (kind: SavedPlace)
    ensures
        kind == saved_place_of(place@),
{
    if text::begins_with(place, "content://media/") {
        SavedPlace::Published
    } else if text::begins_with(place, "content://") {
        SavedPlace::Foreign
    } else {
        SavedPlace::Path
    }
}

/// A received file that was made known to the system.
pub struct PublishedFile {
    pub uri: String,
}

/// Where a received file is said to be saved: where it was published, or else its path.
pub open spec fn place_of(published: Option<PublishedFile>, path: Seq<char>) -> Seq<char> {
    match published {
        Some(file) => file.uri@,
        None => path,
    }
}

/// Where a received file is said to be saved.
pub fn saved_path(published: Option<PublishedFile>, path: &str) -> (place: String)
    ensures
        place@ == place_of(published, path@),
{
    match published {
        Some(file) => file.uri,
        None => path.to_string(),
    }
}

/// A directory that the system knows.
#[derive(Clone, Copy, Debug, PartialEq, Eq, Structural)]
pub enum KnownDirectory {
    Home,
    Downloads,
    AppData,
    Working,
    Temporary,
}

/// A directory for received files: where it is, and the names on the way to it from there.
pub struct ReceivePlace {
    pub base: KnownDirectory,
    pub parts: Vec<String>,
}

impl View for ReceivePlace {
    type V = (KnownDirectory, Seq<Seq<char>>);

    open spec fn view(&self) -> (KnownDirectory, Seq<Seq<char>>) {
        (self.base, text::texts(self.parts@))
    }
}

/// The directory for received files as long as none is set: one of its own in `Downloads`, where the
/// home directory holds that, or else `received` in the working directory. Where that is unknown, it
/// lies in the directory for temporary files.
pub fn default_receive_dir(has_downloads: bool, has_working: bool) -> (place: ReceivePlace)
    ensures
        place@ == (if has_downloads {
            (KnownDirectory::Home, seq!["Downloads"@, "File Sharer"@])
        } else if has_working {
            (KnownDirectory::Working, seq!["received"@])
        } else {
            (KnownDirectory::Temporary, seq!["received"@])
        }),
{
    let mut parts: Vec<String> = Vec::new();
    let base = if has_downloads {
        parts.push("Downloads".to_string());
        parts.push("File Sharer".to_string());
        assert(text::texts(parts@) =~= seq!["Downloads"@, "File Sharer"@]);
        KnownDirectory::Home
    } else {
        parts.push("received".to_string());
        assert(text::texts(parts@) =~= seq!["received"@]);
        if has_working {
            KnownDirectory::Working
        } else {
            KnownDirectory::Temporary
        }
    };
    ReceivePlace { base, parts }
}

/// The directory for received files that is set at the start: one of its own in the directory for
/// downloads, or else in that for the data of the application, or else in that for temporary files.
pub fn resolve_receive_dir(has_downloads: bool, has_app_data: bool) -> (place: ReceivePlace)
    ensures
        place@ == (
            if has_downloads {
                KnownDirectory::Downloads
            } else if has_app_data {
                KnownDirectory::AppData
            } else {
                KnownDirectory::Temporary
            },
            seq!["File Sharer"@],
        ),
{
    let base = if has_downloads {
        KnownDirectory::Downloads
    } else if has_app_data {
        KnownDirectory::AppData
    } else {
        KnownDirectory::Temporary
    };
    let mut parts: Vec<String> = Vec::new();
    parts.push("File Sharer".to_string());
    assert(text::texts(parts@) =~= seq!["File Sharer"@]);
    ReceivePlace { base, parts }
}

/// A numbered name is the stem, the number in brackets behind a space, and the extension behind a
/// full stop, if there is one; a file without a stem is called "file".
pub proof fn law_number_stands_before_the_extension(
    stem: Seq<char>,
    extension: Seq<char>,
    number: u32,
)
    requires
        extension.len() > 0,
    ensures
        ({
            let marked = stem + " ("@ + digits::decimal(number as nat) + ")"@;
            &&& numbered_with(Some(stem), Some(extension), number) == marked + "."@ + extension
            &&& numbered_with(Some(stem), Some(Seq::<char>::empty()), number) == marked
            &&& numbered_with(Some(stem), None, number) == marked
            &&& numbered_with(None, Some(extension), number) == numbered_with(
                Some("file"@),
                Some(extension),
                number,
            )
            &&& numbered_with(None, None, number) == numbered_with(Some("file"@), None, number)
        }),
{
    reveal_strlit("");
}

/// The names to try are the file's own and the ones with the numbers from 1 to 9999.
pub proof fn law_ten_thousand_names_are_tried(name: Seq<char>, attempt: u32)
    ensures
        candidate(name, 0) == Some(name),
        0 < attempt < 10_000 ==> candidate(name, attempt) == Some(
            numbered_with(stem(name), extension(name), attempt),
        ),
        attempt >= 10_000 ==> candidate(name, attempt) is None,
{
}

/// The last part of a path stands behind its last slash.
proof fn lemma_part_behind_the_slash(directories: Seq<char>, part: Seq<char>)
    requires
        directories.len() > 0 ==> directories.last() == '/',
        !part.contains('/'),
        !leads_nowhere(part),
    ensures
        last_part(directories + part) == part,
{
    let path = directories + part;
    lemma_last_of(path, '/');
    let slash = last_of(path, '/');
    assert forall|index: int| directories.len() <= index < path.len() implies path[index] != '/' by {
        assert(path[index] == part[index - directories.len()]);
        assert(part.contains(part[index - directories.len()]));
    }
    if directories.len() > 0 {
        assert(path[directories.len() - 1] == '/');
    }
    assert(slash == directories.len() - 1);
    assert(path.skip(slash + 1) =~= part);
}

/// Of a path to a file, the stem is what stands between the last slash and the last full stop, and the
/// extension is what stands behind that.
pub proof fn law_stem_and_extension_meet_at_the_last_full_stop(
    directories: Seq<char>,
    base: Seq<char>,
    behind: Seq<char>,
)
    requires
        directories.len() > 0 ==> directories.last() == '/',
        base.len() > 0,
        !base.contains('/'),
        !behind.contains('/'),
        !behind.contains('.'),
        base != seq!['.'] || behind.len() > 0,
    ensures
        stem(directories + (base + seq!['.'] + behind)) == Some(base),
        extension(directories + (base + seq!['.'] + behind)) == Some(behind),
{
    reveal_strlit("");
    reveal_strlit(".");
    reveal_strlit("..");
    let part = base + seq!['.'] + behind;
    let place = base.len() as int;
    assert forall|c: char| c != '.' && part.contains(c) implies base.contains(c) || behind.contains(
        c,
    ) by {
        let at = choose|at: int| 0 <= at < part.len() && part[at] == c;
        if at < place {
            assert(base[at] == c);
        } else if at > place {
            assert(behind[at - place - 1] == c);
        }
    }
    assert(!part.contains('/'));
    assert(part.len() >= 2);
    assert(!leads_nowhere(part)) by {
        assert(".."@.len() == 2 && "."@.len() == 1 && ""@.len() == 0);
    }
    lemma_part_behind_the_slash(directories, part);
    lemma_last_of(part, '.');
    assert(part[place] == '.');
    assert forall|index: int| place < index < part.len() implies part[index] != '.' by {
        assert(part[index] == behind[index - place - 1]);
        assert(behind.contains(behind[index - place - 1]));
    }
    assert(last_of(part, '.') == place);
    assert(!names_no_file(part)) by {
        if part == ".."@ {
            assert(base.len() == 1 && behind.len() == 0);
            assert(base[0] == part[0]);
            assert(".."@[0] == '.');
            assert(base =~= seq!['.']);
        }
    }
    assert(part.take(place) =~= base);
    assert(part.skip(place + 1) =~= behind);
}

/// A name without a full stop, but for its first character, is all stem, and has no extension.
pub proof fn law_names_without_full_stops_have_no_extension(
    directories: Seq<char>,
    name: Seq<char>,
)
    requires
        directories.len() > 0 ==> directories.last() == '/',
        name.len() > 0,
        !name.contains('/'),
        name != seq!['.'],
        forall|index: int| 0 < index < name.len() ==> #[trigger] name[index] != '.',
    ensures
        stem(directories + name) == Some(name),
        extension(directories + name) is None,
{
    reveal_strlit("");
    reveal_strlit(".");
    reveal_strlit("..");
    assert("."@ =~= seq!['.']);
    assert(!leads_nowhere(name)) by {
        assert(""@.len() == 0);
    }
    assert(name != ".."@) by {
        if name == ".."@ {
            assert(name[1] == '.');
        }
    }
    assert(name != ""@) by {
        assert(""@.len() == 0);
    }
    lemma_part_behind_the_slash(directories, name);
    lemma_last_of(name, '.');
}

/// A path that ends in the directory above, or has no part at all, names no file.
pub proof fn law_directory_above_names_no_file(directories: Seq<char>)
    requires
        directories.len() > 0 ==> directories.last() == '/',
    ensures
        stem(directories + seq!['.', '.']) is None,
        extension(directories + seq!['.', '.']) is None,
        stem(Seq::<char>::empty()) is None,
        extension(Seq::<char>::empty()) is None,
{
    reveal_strlit("");
    reveal_strlit(".");
    reveal_strlit("..");
    let above = seq!['.', '.'];
    assert(".."@ =~= above);
    assert(!above.contains('/'));
    assert(!leads_nowhere(above)) by {
        assert(""@.len() == 0 && "."@.len() == 1);
    }
    lemma_part_behind_the_slash(directories, above);
    assert(Seq::<char>::empty().skip(0) =~= ""@);
}

/// A file may be opened exactly if both places are found, the file's begins with all parts of the
/// directory's, and it is a file; otherwise the first that is wrong is said.
pub proof fn law_only_files_in_the_directory_are_opened(
    directory: Vec<String>,
    file: Vec<String>,
    is_file: bool,
    error: String,
    other: Result<Vec<String>, String>,
)
    ensures
        ({
            let inside = directory@.len() <= file@.len() && forall|index: int|
                0 <= index < directory@.len() ==> (#[trigger] directory@[index])@ == file@[index]@;
            let found = saved_file_error(Ok(directory), Ok(file), is_file);
            &&& inside && is_file ==> found is None
            &&& inside && !is_file ==> found == Some("只能打开文件"@)
            &&& !inside ==> found == Some("只能打开本应用接收到的文件"@)
            &&& saved_file_error(Err(error), other, is_file) == Some("接收目录无效："@ + error@)
            &&& saved_file_error(Ok(directory), Err(error), is_file) == Some(
                "文件不存在："@ + error@,
            )
        }),
{
    let outer = text::texts(directory@);
    let inner = text::texts(file@);
    if outer.is_prefix_of(inner) {
        assert forall|index: int| 0 <= index < directory@.len() implies (
        #[trigger] directory@[index])@ == file@[index]@ by {
            assert(inner.subrange(0, outer.len() as int)[index] == outer[index]);
        }
    } else if directory@.len() <= file@.len() && (forall|index: int|
        0 <= index < directory@.len() ==> (#[trigger] directory@[index])@ == file@[index]@) {
        assert(inner.subrange(0, outer.len() as int) =~= outer);
    }
}

/// A saved file is one of the media store or content of another application if its place says so,
/// and a path otherwise; it is said to be where it was published, if it was.
pub proof fn law_place_says_what_it_is(place: Seq<char>, published: PublishedFile)
    ensures
        "content://media/"@.is_prefix_of(place) ==> saved_place_of(place) == SavedPlace::Published,
        !"content://media/"@.is_prefix_of(place) && "content://"@.is_prefix_of(place)
            ==> saved_place_of(place) == SavedPlace::Foreign,
        !"content://media/"@.is_prefix_of(place) && !"content://"@.is_prefix_of(place)
            ==> saved_place_of(place) == SavedPlace::Path,
        place_of(Some(published), place) == published.uri@,
        place_of(None, place) == place,
{
}

/// The last part of a path is what stands behind its last slash, if that leads anywhere; otherwise it is
/// the last part of what stands before. A text without slashes is a part of its own.
pub proof fn law_last_part_stands_behind_the_last_slash(directory: Seq<char>, name: Seq<char>)
    requires
        !name.contains('/'),
    ensures
        name.len() > 0 && name != "."@ ==> last_part(directory.push('/') + name) == name
            && last_part(name) == name,
        name.len() == 0 || name == "."@ ==> last_part(directory.push('/') + name) == last_part(
            directory,
        ) && last_part(name) == ""@,
{
    reveal_strlit("");
    let path = directory.push('/') + name;
    lemma_last_of(path, '/');
    lemma_last_of(name, '/');
    let slash = last_of(path, '/');
    assert(path[directory.len() as int] == '/');
    if slash > directory.len() {
        assert(path[slash] == name[slash - directory.len() - 1]);
        assert(name.contains('/'));
    }
    if last_of(name, '/') >= 0 {
        assert(name.contains('/'));
    }
    assert(slash == directory.len());
    assert(path.skip(slash + 1) =~= name);
    assert(path.take(slash) =~= directory);
    assert(name.skip(0) =~= name);
    if name.len() == 0 {
        assert(name =~= ""@);
    }
}

} // verus!
