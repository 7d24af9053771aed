//! Names of files and devices: what is taken out of them, and how they travel in a header.

use crate::text;
use crate::text::Trim;
use vstd::prelude::*;
use vstd::utf8::*;

verus! {

/// Whether a character may not stand in a file name on one of the platforms.
pub open spec fn is_forbidden(c: char) -> bool {
    ||| c == '/'
    ||| c == '\\'
    ||| c == ':'
    ||| c == '*'
    ||| c == '?'
    ||| c == '"'
    ||| c == '<'
    ||| c == '>'
    ||| c == '|'
    ||| text::is_control(c)
}

/// Whether a file name is safe: it holds no forbidden character, and neither is it empty nor does it
/// begin or end with a full stop.
pub open spec fn is_safe(name: Seq<char>) -> bool {
    &&& forall|index: int| 0 <= index < name.len() ==> !is_forbidden(#[trigger] name[index])
    &&& name.len() > 0
    &&& name[0] != '.'
    &&& name.last() != '.'
}

/// The character that stands in a file name for a given one.
pub open spec fn safe_char(c: char) -> char {
    if is_forbidden(c) {
        '_'
    } else {
        c
    }
}

/// A text with a safe character for each of its characters.
pub open spec fn safe_chars(name: Seq<char>) -> Seq<char> {
    Seq::new(name.len(), |index: int| safe_char(name[index]))
}

/// A name under which a file can be saved: safe characters, without the white space at the ends,
/// and then without the full stops at the ends.
pub open spec fn safe_file_name(name: Seq<char>) -> Seq<char> {
    text::trimmed(text::trimmed(safe_chars(name), Trim::White), Trim::Dots)
}

/// A name under which a file can be saved.
pub fn sanitize_file_name(file_name: &str) -> (name: String)
    ensures
        name@ == safe_file_name(file_name@),
{
    let mut safe: Vec<char> = Vec::new();
    for c in it: file_name.chars()
        invariant
            it.seq() == file_name@,
            safe@ == safe_chars(file_name@.take(it.index())),
    {
        let kept: char = if c == '/' || c == '\\' || c == ':' || c == '*' || c == '?' || c == '"'
            || c == '<' || c == '>' || c == '|' || text::control(c) {
            '_'
        } else {
            c
        };
        safe.push(kept);
        assert(safe_chars(file_name@.take(it.index() + 1)) =~= safe_chars(
            file_name@.take(it.index()),
        ).push(safe_char(c)));
    }
    assert(file_name@.take(file_name@.len() as int) == file_name@);
    let middle = text::trim_chars(&safe, Trim::White);
    let name = text::trim_chars(&middle, Trim::Dots);
    assert(name@.subrange(0, name@.len() as int) =~= name@);
    text::text_of(&name, 0, name.len())
}

/// A sanitized file name is safe unless it is empty: it names a file in the directory it is joined
/// to, and nothing outside of it.
pub proof fn law_file_name_is_safe(name: Seq<char>)
    ensures
        safe_file_name(name).len() > 0 ==> is_safe(safe_file_name(name)),
{
    let safe = safe_chars(name);
    let middle = text::trimmed(safe, Trim::White);
    let out = safe_file_name(name);
    text::lemma_trimmed_ends(safe, Trim::White);
    text::lemma_trimmed_ends(middle, Trim::Dots);
    assert forall|index: int| 0 <= index < out.len() implies !is_forbidden(
        #[trigger] out[index],
    ) by {
        assert(middle.contains(out[index]));
        let at = choose|at: int| 0 <= at < middle.len() && middle[at] == out[index];
        assert(safe.contains(middle[at]));
        let from = choose|from: int| 0 <= from < safe.len() && safe[from] == middle[at];
        assert(safe[from] == safe_char(name[from]));
    }
}

/// A sanitized file name is left as it is by sanitizing it again, unless white space came to
/// stand at one of its ends when the full stops were taken off.
pub proof fn law_file_name_is_stable(name: Seq<char>)
    requires
        safe_file_name(name).len() > 0 ==> !text::is_white(safe_file_name(name)[0])
            && !text::is_white(safe_file_name(name).last()),
    ensures
        safe_file_name(safe_file_name(name)) == safe_file_name(name),
{
    let out = safe_file_name(name);
    law_file_name_is_safe(name);
    assert(safe_chars(out) =~= out);
    text::lemma_trimmed_id(out, Trim::White);
    text::lemma_trimmed_id(out, Trim::Dots);
}

/// The most characters that a device name has.
pub const MAX_DEVICE_NAME: usize = 32;

/// A text without its control characters.
pub open spec fn without_controls(name: Seq<char>) -> Seq<char>
    decreases name.len(),
{
    if name.len() == 0 {
        name
    } else {
        let front = without_controls(name.drop_last());
        if text::is_control(name.last()) {
            front
        } else {
            front.push(name.last())
        }
    }
}

/// The words of a text, which white space parts, with one space between them.
pub open spec fn spaced_words(name: Seq<char>) -> Seq<char>
    decreases name.len(),
{
    if name.len() == 0 {
        name
    } else {
        let front = spaced_words(name.drop_last());
        let c = name.last();
        if text::is_white(c) {
            front
        } else if front.len() > 0 && text::is_white(name.drop_last().last()) {
            front.push(' ').push(c)
        } else {
            front.push(c)
        }
    }
}

/// The first characters of a text, as many as a device name may have.
pub open spec fn clipped(name: Seq<char>) -> Seq<char> {
    if name.len() <= MAX_DEVICE_NAME {
        name
    } else {
        name.take(MAX_DEVICE_NAME as int)
    }
}

/// A device name: the words of the text without its control characters, cut off after 32
/// characters, without white space at the ends.
pub open spec fn clean_device_name(name: Seq<char>) -> Seq<char> {
    text::trimmed(clipped(spaced_words(without_controls(name))), Trim::White)
}

/// A device name made of a text.
pub fn sanitize_device_name(name: &str) -> (clean: String)
    ensures
        clean@ == clean_device_name(name@),
{
    let mut words: Vec<char> = Vec::new();
    let mut after_space: bool = false;
    let ghost mut kept: Seq<char> = Seq::empty();
    proof {
        assert(without_controls(name@.take(0)) =~= kept);
        assert(spaced_words(kept) =~= kept);
    }
    for c in it: name.chars()
        invariant
            it.seq() == name@,
            kept == without_controls(name@.take(it.index())),
            words@ == spaced_words(kept),
            after_space == (kept.len() > 0 && text::is_white(kept.last())),
    {
        let ghost upto = name@.take(it.index() + 1);
        proof {
            assert(upto.drop_last() =~= name@.take(it.index()));
        }
        if !text::control(c) {
            proof {
                assert(kept.push(c).drop_last() =~= kept);
                kept = kept.push(c);
            }
            if text::white(c) {
                after_space = true;
            } else {
                if after_space && words.len() > 0 {
                    words.push(' ');
                }
                words.push(c);
                after_space = false;
            }
        }
    }
    assert(name@.take(name@.len() as int) == name@);
    if words.len() > MAX_DEVICE_NAME {
        words.truncate(MAX_DEVICE_NAME);
    }
    assert(words@ =~= clipped(spaced_words(without_controls(name@))));
    let clean = text::trim_chars(&words, Trim::White);
    assert(clean@.subrange(0, clean@.len() as int) =~= clean@);
    text::text_of(&clean, 0, clean.len())
}

/// Whether a text is such that sanitizing it as a device name leaves it alone: no control
/// character, no white space but single spaces between other characters, not too long.
pub open spec fn is_clean(name: Seq<char>) -> bool {
    &&& name.len() <= MAX_DEVICE_NAME
    &&& is_spaced(name)
    &&& name.len() > 0 ==> !text::is_white(name.last())
}

/// Whether a text holds no control character, and no white space but single spaces behind other
/// characters.
pub open spec fn is_spaced(name: Seq<char>) -> bool {
    forall|index: int|
        0 <= index < name.len() ==> {
            &&& !text::is_control(#[trigger] name[index])
            &&& text::is_white(name[index]) ==> name[index] == ' ' && index > 0
                && !text::is_white(name[index - 1])
        }
}

/// Leaving out the control characters leaves none.
proof fn lemma_without_controls(name: Seq<char>)
    ensures
        forall|index: int|
            0 <= index < without_controls(name).len() ==> !text::is_control(
                #[trigger] without_controls(name)[index],
            ),
    decreases name.len(),
{
    if name.len() > 0 {
        lemma_without_controls(name.drop_last());
        let front = without_controls(name.drop_last());
        let out = without_controls(name);
        assert forall|index: int| 0 <= index < out.len() implies !text::is_control(
            #[trigger] out[index],
        ) by {
            if index < front.len() {
                assert(out[index] == front[index]);
            }
        }
    }
}

/// Words with one space between them are spaced, and end in a word.
proof fn lemma_spaced_words(name: Seq<char>)
    requires
        forall|index: int| 0 <= index < name.len() ==> !text::is_control(#[trigger] name[index]),
    ensures
        is_spaced(spaced_words(name)),
        spaced_words(name).len() > 0 ==> !text::is_white(spaced_words(name).last()),
    decreases name.len(),
{
    if name.len() > 0 {
        let rest = name.drop_last();
        assert forall|index: int| 0 <= index < rest.len() implies !text::is_control(
            #[trigger] rest[index],
        ) by {
            assert(rest[index] == name[index]);
        }
        lemma_spaced_words(rest);
        assert(!text::is_control(name[name.len() - 1]));
        let front = spaced_words(rest);
        let out = spaced_words(name);
        assert forall|index: int| 0 <= index < out.len() implies {
            &&& !text::is_control(#[trigger] out[index])
            &&& text::is_white(out[index]) ==> out[index] == ' ' && index > 0 && !text::is_white(
                out[index - 1],
            )
        } by {
            if index < front.len() {
                assert(out[index] == front[index]);
                if index > 0 {
                    assert(out[index - 1] == front[index - 1]);
                }
            }
        }
    }
}

/// A spaced text is its own words with one space between them, and has no control characters.
proof fn lemma_spaced_is_fixed(name: Seq<char>)
    requires
        is_spaced(name),
    ensures
        without_controls(name) == name,
        spaced_words(name) == (if name.len() > 0 && text::is_white(name.last()) {
            name.drop_last()
        } else {
            name
        }),
    decreases name.len(),
{
    if name.len() > 0 {
        let rest = name.drop_last();
        assert forall|index: int| 0 <= index < rest.len() implies {
            &&& !text::is_control(#[trigger] rest[index])
            &&& text::is_white(rest[index]) ==> rest[index] == ' ' && index > 0 && !text::is_white(
                rest[index - 1],
            )
        } by {
            assert(rest[index] == name[index]);
        }
        lemma_spaced_is_fixed(rest);
        let c = name[name.len() - 1];
        assert(without_controls(name) =~= name);
        if text::is_white(c) {
            assert(rest.last() == name[name.len() - 2]);
        } else if rest.len() > 0 && text::is_white(rest.last()) {
            assert(name[name.len() - 2] == ' ');
            assert(rest.len() > 1);
            assert(rest.drop_last().push(' ').push(c) =~= name);
        } else {
            assert(rest.push(c) =~= name);
        }
    }
}

/// A device name is clean: it has at most 32 characters, none of them a control character, and no
/// white space but single spaces between other characters.
pub proof fn law_device_name_is_clean(name: Seq<char>)
    ensures
        is_clean(clean_device_name(name)),
{
    let plain = without_controls(name);
    let words = spaced_words(plain);
    let short = clipped(words);
    let out = clean_device_name(name);
    lemma_without_controls(name);
    lemma_spaced_words(plain);
    assert(is_spaced(short)) by {
        assert forall|index: int| 0 <= index < short.len() implies {
            &&& !text::is_control(#[trigger] short[index])
            &&& text::is_white(short[index]) ==> short[index] == ' ' && index > 0
                && !text::is_white(short[index - 1])
        } by {
            assert(short[index] == words[index]);
        }
    }
    assert(short.len() > 0 ==> !text::is_white(short[0]));
    text::lemma_trimmed_start(short, Trim::White);
    assert(text::trimmed_start(short, Trim::White) == short);
    text::lemma_trimmed_end(short, Trim::White);
    assert forall|index: int| 0 <= index < out.len() implies {
        &&& !text::is_control(#[trigger] out[index])
        &&& text::is_white(out[index]) ==> out[index] == ' ' && index > 0 && !text::is_white(
            out[index - 1],
        )
    } by {
        assert(out[index] == short[index]);
    }
}

/// Something is left of a text with a character that is neither a control character nor white
/// space.
proof fn lemma_words_left(name: Seq<char>, place: int)
    requires
        0 <= place < name.len(),
        !text::is_control(name[place]),
        !text::is_white(name[place]),
    ensures
        spaced_words(without_controls(name)).len() > 0,
    decreases name.len(),
{
    let rest = name.drop_last();
    if place < name.len() - 1 {
        lemma_words_left(rest, place);
    }
    if !text::is_control(name.last()) {
        let kept = without_controls(rest);
        assert(without_controls(name).drop_last() =~= kept);
    }
}

/// A text with a character that is neither a control character nor white space makes a device
/// name that is not empty, and so not blank.
pub proof fn law_device_name_is_left(name: Seq<char>, place: int)
    requires
        0 <= place < name.len(),
        !text::is_control(name[place]),
        !text::is_white(name[place]),
    ensures
        clean_device_name(name).len() > 0,
{
    let plain = without_controls(name);
    let words = spaced_words(plain);
    let short = clipped(words);
    lemma_words_left(name, place);
    lemma_without_controls(name);
    lemma_spaced_words(plain);
    assert(!text::is_white(words[0]));
    assert(short[0] == words[0]);
    lemma_solid_start_stays(short);
}

/// Trimming leaves something of a text that begins with something else than white space.
proof fn lemma_solid_start_stays(name: Seq<char>)
    requires
        name.len() > 0,
        !text::is_white(name[0]),
    ensures
        text::trimmed(name, Trim::White).len() > 0,
    decreases name.len(),
{
    if name.len() > 1 && text::is_white(name.last()) {
        lemma_solid_start_stays(name.drop_last());
        assert(text::trimmed_start(name.drop_last(), Trim::White) == name.drop_last());
    }
}

/// A clean name that is not empty is not blank.
pub proof fn lemma_clean_name_is_not_blank(name: Seq<char>)
    requires
        is_clean(name),
        name.len() > 0,
    ensures
        !text::is_blank(name),
{
    assert(!text::is_white(name[0]));
    text::lemma_trimmed_id(name, Trim::White);
}

/// A clean name is its own device name; so making a device name of a device name changes nothing.
pub proof fn law_device_name_is_stable(name: Seq<char>)
    requires
        is_clean(name),
    ensures
        clean_device_name(name) == name,
{
    lemma_spaced_is_fixed(name);
    if name.len() > 0 {
        assert(!text::is_white(name[0]));
    }
    text::lemma_trimmed_id(name, Trim::White);
}

/// Whether a byte travels in a header as it is.
pub open spec fn is_unreserved(byte: u8) -> bool {
    ||| 0x41 <= byte <= 0x5a
    ||| 0x61 <= byte <= 0x7a
    ||| 0x30 <= byte <= 0x39
    ||| byte == 0x2e
    ||| byte == 0x2d
    ||| byte == 0x5f
    ||| byte == 0x7e
}

/// The hexadecimal digit, a capital if a letter, of a number below sixteen.
pub open spec fn capital_hex(value: u8) -> char {
    if value < 10 {
        ((48 + value) as u8) as char
    } else {
        ((55 + value) as u8) as char
    }
}

/// What stands for a byte: the byte itself, or a percent sign and its two hexadecimal digits.
pub open spec fn percent_byte(byte: u8) -> Seq<char> {
    if is_unreserved(byte) {
        seq![byte as char]
    } else {
        seq!['%', capital_hex(byte / 16), capital_hex(byte % 16)]
    }
}

/// What stands for a byte string.
pub open spec fn percent_text(content: Seq<u8>) -> Seq<char>
    decreases content.len(),
{
    if content.len() == 0 {
        Seq::empty()
    } else {
        percent_byte(content[0]) + percent_text(content.skip(1))
    }
}

/// A hexadecimal digit, a capital if a letter.
fn hex_char(value: u8) -> (c: char)
    requires
        value < 16,
    ensures
        c == capital_hex(value),
{
    if value < 10 {
        (48 + value) as char
    } else {
        (55 + value) as char
    }
}

/// A text with its UTF-8 bytes percent-encoded, all but the unreserved ones.
pub fn percent_encode(value: &str) -> (out: String)
    ensures
        out@ == percent_text(encode_utf8(value@)),
{
    let content: &[u8] = value.as_bytes();
    let mut out = String::new();
    let mut index: usize = 0;
    proof {
        assert(content@.skip(0) =~= content@);
        assert(out@ + percent_text(content@) =~= percent_text(content@));
    }
    while index < content.len()
        invariant
            index <= content@.len(),
            content@ == encode_utf8(value@),
            out@ + percent_text(content@.skip(index as int)) == percent_text(content@),
        decreases content@.len() - index,
    {
        let byte: u8 = content[index];
        let ghost before = out@;
        if (0x41 <= byte && byte <= 0x5a) || (0x61 <= byte && byte <= 0x7a) || (0x30 <= byte && byte
            <= 0x39) || byte == 0x2e || byte == 0x2d || byte == 0x5f || byte == 0x7e {
            out.push(byte as char);
        } else {
            out.push('%');
            out.push(hex_char(byte / 16));
            out.push(hex_char(byte % 16));
        }
        proof {
            let rest = content@.skip(index as int);
            assert(rest[0] == byte);
            assert(rest.skip(1) =~= content@.skip(index + 1));
            assert(out@ =~= before + percent_byte(byte));
            assert(out@ + percent_text(content@.skip(index + 1)) =~= before + percent_text(rest));
        }
        index = index + 1;
    }
    proof {
        assert(content@.skip(index as int) =~= Seq::<u8>::empty());
        assert(out@ + Seq::<char>::empty() =~= out@);
    }
    out
}

/// The value of a hexadecimal digit in either case.
pub open spec fn hex_value(byte: u8) -> Option<u8> {
    if 0x30 <= byte <= 0x39 {
        Some((byte - 0x30) as u8)
    } else if 0x41 <= byte <= 0x46 {
        Some((byte - 0x37) as u8)
    } else if 0x61 <= byte <= 0x66 {
        Some((byte - 0x57) as u8)
    } else {
        None
    }
}

/// The byte that two characters behind a percent sign stand for: two hexadecimal digits, or a
/// plus sign and one.
pub open spec fn hex_pair(first: u8, second: u8) -> Option<u8> {
    match (hex_value(first), hex_value(second)) {
        (Some(high), Some(low)) => Some((high * 16 + low) as u8),
        (None, Some(low)) => if first == 0x2b {
            Some(low)
        } else {
            None
        },
        _ => None,
    }
}

/// The byte string that a percent-encoded one stands for, unless a percent sign has no byte
/// behind it.
pub open spec fn percent_bytes(content: Seq<u8>) -> Option<Seq<u8>>
    decreases content.len(),
{
    if content.len() == 0 {
        Some(Seq::empty())
    } else if content[0] != 0x25 {
        match percent_bytes(content.skip(1)) {
            Some(rest) => Some(seq![content[0]] + rest),
            None => None,
        }
    } else if content.len() < 3 {
        None
    } else {
        match (hex_pair(content[1], content[2]), percent_bytes(content.skip(3))) {
            (Some(byte), Some(rest)) => Some(seq![byte] + rest),
            _ => None,
        }
    }
}

/// The text that a percent-encoded one stands for, or what is wrong with it.
pub open spec fn percent_decoded(value: Seq<char>) -> Result<Seq<char>, Seq<char>> {
    match percent_bytes(encode_utf8(value)) {
        None => Err("invalid percent encoding"@),
        Some(content) => if valid_utf8(content) {
            Ok(decode_utf8(content))
        } else {
            Err("invalid utf-8"@)
        },
    }
}

/// The value of a hexadecimal digit in either case.
fn hex_value_of(byte: u8) -> (value: Option<u8>)
    ensures
        value == hex_value(byte),
        value matches Some(number) ==> number < 16,
{
    if 0x30 <= byte && byte <= 0x39 {
        Some(byte - 0x30)
    } else if 0x41 <= byte && byte <= 0x46 {
        Some(byte - 0x37)
    } else if 0x61 <= byte && byte <= 0x66 {
        Some(byte - 0x57)
    } else {
        None
    }
}

/// The byte that two characters behind a percent sign stand for.
fn hex_pair_of(first: u8, second: u8) -> (value: Option<u8>)
    ensures
        value == hex_pair(first, second),
{
    match hex_value_of(second) {
        None => None,
        Some(low) => match hex_value_of(first) {
            Some(high) => Some(high * 16 + low),
            None => if first == 0x2b {
                Some(low)
            } else {
                None
            },
        },
    }
}

/// A result of decoding a text, by its views.
pub open spec fn text_view(decoded: Result<String, String>) -> Result<Seq<char>, Seq<char>> {
    match decoded {
        Ok(value) => Ok(value@),
        Err(error) => Err(error@),
    }
}

/// The text that a percent-encoded one stands for.
pub fn percent_decode(value: &str) -> (decoded: Result<String, String>)
    ensures
        text_view(decoded) == percent_decoded(value@),
{
    let content: &[u8] = value.as_bytes();
    let ghost whole = percent_bytes(content@);
    let mut out: Vec<u8> = Vec::new();
    let mut index: usize = 0;
    proof {
        assert(content@.skip(0) =~= content@);
        if let Some(rest) = whole {
            assert(out@ + rest =~= rest);
        }
    }
    while index < content.len()
        invariant
            index <= content@.len(),
            content@ == encode_utf8(value@),
            whole == percent_bytes(content@),
            whole == prefixed(out@, percent_bytes(content@.skip(index as int))),
        decreases content@.len() - index,
    {
        let ghost rest = content@.skip(index as int);
        let ghost before = out@;
        proof {
            assert(rest[0] == content@[index as int]);
        }
        if content[index] == 0x25 {
            if content.len() - index < 3 {
                return Err("invalid percent encoding".to_string());
            }
            proof {
                assert(rest[1] == content@[index + 1]);
                assert(rest[2] == content@[index + 2]);
                assert(rest.skip(3) =~= content@.skip(index + 3));
            }
            match hex_pair_of(content[index + 1], content[index + 2]) {
                None => {
                    return Err("invalid percent encoding".to_string());
                },
                Some(byte) => {
                    out.push(byte);
                    proof {
                        lemma_prefixed_push(before, byte, percent_bytes(content@.skip(index + 3)));
                    }
                },
            }
            index = index + 3;
        } else {
            out.push(content[index]);
            proof {
                assert(rest.skip(1) =~= content@.skip(index + 1));
                lemma_prefixed_push(before, rest[0], percent_bytes(content@.skip(index + 1)));
            }
            index = index + 1;
        }
    }
    proof {
        assert(content@.skip(index as int) =~= Seq::<u8>::empty());
        assert(out@ + Seq::<u8>::empty() =~= out@);
    }
    match String::from_utf8(out) {
        Ok(decoded) => Ok(decoded),
        Err(_) => Err("invalid utf-8".to_string()),
    }
}

/// A byte string, if there is one, behind another.
spec fn prefixed(front: Seq<u8>, rest: Option<Seq<u8>>) -> Option<Seq<u8>> {
    match rest {
        Some(content) => Some(front + content),
        None => None,
    }
}

/// A byte can go to the front's end from the rest's start.
proof fn lemma_prefixed_push(front: Seq<u8>, byte: u8, rest: Option<Seq<u8>>)
    ensures
        prefixed(front.push(byte), rest) == prefixed(
            front,
            match rest {
                Some(content) => Some(seq![byte] + content),
                None => None,
            },
        ),
{
    if let Some(content) = rest {
        assert(front.push(byte) + content =~= front + (seq![byte] + content));
    }
}

/// A percent-encoded byte string is made of unreserved characters, percent signs and digits, all
/// of them ASCII and none of them white space or a control character.
pub proof fn lemma_percent_chars(content: Seq<u8>)
    ensures
        forall|index: int|
            0 <= index < percent_text(content).len() ==> is_header_char(
                #[trigger] percent_text(content)[index],
            ),
    decreases content.len(),
{
    if content.len() > 0 {
        lemma_percent_chars(content.skip(1));
        let head = percent_byte(content[0]);
        let rest = percent_text(content.skip(1));
        let out = percent_text(content);
        assert forall|index: int| 0 <= index < out.len() implies is_header_char(
            #[trigger] out[index],
        ) by {
            if index < head.len() {
                assert(out[index] == head[index]);
            } else {
                assert(out[index] == rest[index - head.len()]);
            }
        }
    }
}

/// Whether a character is one of those that percent-encoding writes.
pub open spec fn is_header_char(c: char) -> bool {
    ||| 'A' <= c <= 'Z'
    ||| 'a' <= c <= 'z'
    ||| '0' <= c <= '9'
    ||| c == '.'
    ||| c == '-'
    ||| c == '_'
    ||| c == '~'
    ||| c == '%'
}

/// The bytes of the characters of an ASCII text.
spec fn ascii_bytes(value: Seq<char>) -> Seq<u8> {
    Seq::new(value.len(), |index: int| value[index] as u8)
}

/// Decoding the bytes of a percent-encoded byte string gives the byte string.
proof fn lemma_percent_reads_back(content: Seq<u8>)
    ensures
        percent_bytes(ascii_bytes(percent_text(content))) == Some(content),
    decreases content.len(),
{
    if content.len() == 0 {
        assert(ascii_bytes(percent_text(content)) =~= Seq::<u8>::empty());
        assert(content =~= Seq::<u8>::empty());
    } else {
        let byte = content[0];
        let rest = content.skip(1);
        lemma_percent_reads_back(rest);
        let tail = ascii_bytes(percent_text(rest));
        let whole = ascii_bytes(percent_text(content));
        if is_unreserved(byte) {
            assert(whole =~= seq![byte] + tail);
            assert(whole.skip(1) =~= tail);
        } else {
            let high = capital_hex(byte / 16) as u8;
            let low = capital_hex(byte % 16) as u8;
            assert(whole =~= seq![0x25u8, high, low] + tail);
            assert(whole.skip(3) =~= tail);
            assert(hex_value(high) == Some((byte / 16) as u8));
            assert(hex_value(low) == Some((byte % 16) as u8));
            assert(hex_pair(high, low) == Some(byte));
        }
        assert(seq![byte] + rest =~= content);
    }
}

/// A percent-encoded text is decoded to the text.
pub proof fn law_percent_reads_back(value: Seq<char>)
    ensures
        percent_decoded(percent_text(encode_utf8(value))) matches Ok(back) && back == value,
{
    let content = encode_utf8(value);
    let out = percent_text(content);
    lemma_percent_chars(content);
    assert(is_ascii_chars(out));
    is_ascii_chars_encode_utf8(out);
    assert(encode_utf8(out) =~= ascii_bytes(out));
    lemma_percent_reads_back(content);
    encode_utf8_valid_utf8(value);
    encode_utf8_decode_utf8(value);
}

/// What stands for a character inside a JSON string.
pub open spec fn json_char(c: char) -> Seq<char> {
    if c == '\\' {
        seq!['\\', '\\']
    } else if c == '"' {
        seq!['\\', '"']
    } else if c == '\n' {
        seq!['\\', 'n']
    } else if c == '\r' {
        seq!['\\', 'r']
    } else {
        seq![c]
    }
}

/// What stands for a text inside a JSON string.
pub open spec fn json_text(value: Seq<char>) -> Seq<char>
    decreases value.len(),
{
    if value.len() == 0 {
        Seq::empty()
    } else {
        json_text(value.drop_last()) + json_char(value.last())
    }
}

/// A text with its backslashes, quotes and line ends escaped.
pub fn json_escape(value: &str) -> (out: String)
    ensures
        out@ == json_text(value@),
{
    let mut out = String::new();
    for c in it: value.chars()
        invariant
            it.seq() == value@,
            out@ == json_text(value@.take(it.index())),
    {
        let ghost before = out@;
        if c == '\\' {
            out.push('\\');
            out.push('\\');
        } else if c == '"' {
            out.push('\\');
            out.push('"');
        } else if c == '\n' {
            out.push('\\');
            out.push('n');
        } else if c == '\r' {
            out.push('\\');
            out.push('r');
        } else {
            out.push(c);
        }
        proof {
            let upto = value@.take(it.index() + 1);
            assert(upto.drop_last() =~= value@.take(it.index()));
            assert(out@ =~= before + json_char(c));
        }
    }
    assert(value@.take(value@.len() as int) == value@);
    out
}

/// What stands for a text inside a JSON string begins with what stands for its first character.
proof fn lemma_json_text_front(value: Seq<char>)
    requires
        value.len() > 0,
    ensures
        json_text(value) == json_char(value[0]) + json_text(value.skip(1)),
    decreases value.len(),
{
    let front = value.drop_last();
    if value.len() == 1 {
        assert(json_text(front) =~= Seq::<char>::empty());
        assert(json_text(value.skip(1)) =~= Seq::<char>::empty());
        assert(json_text(value) =~= json_char(value[0]) + json_text(value.skip(1)));
    } else {
        lemma_json_text_front(front);
        assert(front.skip(1) =~= value.skip(1).drop_last());
        assert(value.skip(1).last() == value.last());
        assert(json_text(value) =~= json_char(value[0]) + json_text(value.skip(1)));
    }
}

/// The text that an escaped one stands for: a backslash makes a line end of an `n` and a carriage
/// return of an `r`, and is left out before any other character.
pub open spec fn json_read(value: Seq<char>) -> Seq<char>
    decreases value.len(),
{
    if value.len() == 0 {
        value
    } else if value[0] != '\\' {
        seq![value[0]] + json_read(value.skip(1))
    } else if value.len() == 1 {
        value
    } else {
        let meant = if value[1] == 'n' {
            '\n'
        } else if value[1] == 'r' {
            '\r'
        } else {
            value[1]
        };
        seq![meant] + json_read(value.skip(2))
    }
}

/// An escaped text is read back as the text.
pub proof fn law_json_text_reads_back(value: Seq<char>)
    ensures
        json_read(json_text(value)) == value,
    decreases value.len(),
{
    if value.len() > 0 {
        lemma_json_text_front(value);
        let rest = value.skip(1);
        law_json_text_reads_back(rest);
        let first = json_char(value[0]);
        let escaped = first + json_text(rest);
        assert(escaped.skip(first.len() as int) =~= json_text(rest));
        assert(escaped[0] == first[0]);
        if first.len() == 2 {
            assert(escaped[1] == first[1]);
        }
        assert(seq![value[0]] + rest =~= value);
    }
}

/// An escaped text has no line ends in it, and no quotes but behind a backslash.
pub proof fn law_json_text_stays_inside(value: Seq<char>)
    ensures
        forall|index: int|
            0 <= index < json_text(value).len() ==> {
                &&& #[trigger] json_text(value)[index] != '\n'
                &&& json_text(value)[index] != '\r'
                &&& json_text(value)[index] == '"' ==> index > 0 && json_text(value)[index - 1]
                    == '\\'
            },
    decreases value.len(),
{
    if value.len() > 0 {
        let front = json_text(value.drop_last());
        let last = json_char(value.last());
        let out = json_text(value);
        law_json_text_stays_inside(value.drop_last());
        assert forall|index: int| 0 <= index < out.len() implies {
            &&& #[trigger] out[index] != '\n'
            &&& out[index] != '\r'
            &&& out[index] == '"' ==> index > 0 && out[index - 1] == '\\'
        } by {
            if index < front.len() {
                assert(out[index] == front[index]);
                if index > 0 {
                    assert(out[index - 1] == front[index - 1]);
                }
            } else {
                assert(out[index] == last[index - front.len()]);
                if index > front.len() {
                    assert(out[index - 1] == last[index - 1 - front.len()]);
                }
            }
        }
    }
}

/// How any text becomes a file name. Seen from outside, it is white space, full stops and a middle
/// between them; a white space that is a control character counts as part of the middle. What is
/// left is the middle, each of its characters as it is, but for / \ : * ? " < > | and the control
/// characters, which become underscores.
pub proof fn law_file_name_is_made_of_the_middle(
    white_front: Seq<char>,
    dots_front: Seq<char>,
    middle: Seq<char>,
    dots_back: Seq<char>,
    white_back: Seq<char>,
)
    requires
        forall|index: int|
            0 <= index < white_front.len() ==> text::is_white(#[trigger] white_front[index])
                && !text::is_control(white_front[index]),
        forall|index: int|
            0 <= index < white_back.len() ==> text::is_white(#[trigger] white_back[index])
                && !text::is_control(white_back[index]),
        forall|index: int| 0 <= index < dots_front.len() ==> #[trigger] dots_front[index] == '.',
        forall|index: int| 0 <= index < dots_back.len() ==> #[trigger] dots_back[index] == '.',
        middle.len() > 0 ==> middle[0] != '.' && middle.last() != '.',
        middle.len() > 0 && dots_front.len() == 0 ==> !text::is_white(middle[0])
            || text::is_control(middle[0]),
        middle.len() > 0 && dots_back.len() == 0 ==> !text::is_white(middle.last())
            || text::is_control(middle.last()),
    ensures
        ({
            let out = safe_file_name(
                white_front + dots_front + middle + dots_back + white_back,
            );
            &&& out.len() == middle.len()
            &&& forall|index: int|
                0 <= index < middle.len() ==> {
                    let c = middle[index];
                    let replaced = c == '/' || c == '\\' || c == ':' || c == '*' || c == '?' || c
                        == '"' || c == '<' || c == '>' || c == '|' || c <= '\u{1f}' || '\u{7f}'
                        <= c <= '\u{9f}';
                    #[trigger] out[index] == (if replaced {
                        '_'
                    } else {
                        c
                    })
                }
        }),
{
    let whole = white_front + dots_front + middle + dots_back + white_back;
    let made = safe_chars(middle);
    let inner = dots_front + made + dots_back;
    assert(safe_chars(whole) =~= white_front + inner + white_back);
    if inner.len() > 0 {
        if dots_front.len() > 0 {
            assert(inner[0] == dots_front[0]);
        } else if middle.len() > 0 {
            assert(inner[0] == made[0]);
        } else {
            assert(inner[0] == dots_back[0]);
        }
        if dots_back.len() > 0 {
            assert(inner.last() == dots_back[dots_back.len() - 1]);
        } else if middle.len() > 0 {
            assert(inner.last() == made.last());
        } else {
            assert(inner.last() == dots_front[dots_front.len() - 1]);
        }
    }
    text::law_trimming_leaves_the_middle(white_front, inner, white_back, Trim::White);
    text::law_trimming_leaves_the_middle(dots_front, made, dots_back, Trim::Dots);
    assert(safe_file_name(whole) == made);
}

/// A file name that is safe already stays as it is, down to the last character.
pub proof fn law_safe_file_names_stay(name: Seq<char>)
    requires
        forall|index: int|
            0 <= index < name.len() ==> {
                let c = #[trigger] name[index];
                c != '/' && c != '\\' && c != ':' && c != '*' && c != '?' && c != '"' && c != '<' && c
                    != '>' && c != '|' && !(c <= '\u{1f}') && !('\u{7f}' <= c <= '\u{9f}')
            },
        name.len() > 0 ==> name[0] != '.' && name.last() != '.' && !text::is_white(name[0])
            && !text::is_white(name.last()),
    ensures
        safe_file_name(name) == name,
        name.len() > 0 ==> is_safe(name),
{
    let none = Seq::<char>::empty();
    law_file_name_is_made_of_the_middle(none, none, name, none, none);
    assert(none + none + name + none + none =~= name);
    assert(safe_file_name(name) =~= name);
}

/// Whether a name is safe can be told by its characters.
pub proof fn law_safe_file_names_are_told_by_their_characters(name: Seq<char>)
    ensures
        is_safe(name) <==> name.len() > 0 && name[0] != '.' && name.last() != '.' && !(exists|
            index: int,
        |
            0 <= index < name.len() && ({
                let c = #[trigger] name[index];
                c == '/' || c == '\\' || c == ':' || c == '*' || c == '?' || c == '"' || c == '<' || c
                    == '>' || c == '|' || c <= '\u{1f}' || '\u{7f}' <= c <= '\u{9f}'
            })),
{
}

/// A device name has at most 32 characters, none of which is a control character, and of white
/// space only spaces, each with other characters next to it on both sides.
pub proof fn law_device_name_has_no_stray_characters(name: Seq<char>)
    ensures
        ({
            let out = clean_device_name(name);
            &&& out.len() <= 32
            &&& forall|index: int|
                0 <= index < out.len() ==> {
                    &&& ' ' <= #[trigger] out[index]
                    &&& !('\u{7f}' <= out[index] <= '\u{9f}')
                    &&& text::is_white(out[index]) ==> {
                        &&& out[index] == ' '
                        &&& 0 < index < out.len() - 1
                        &&& !text::is_white(out[index - 1])
                        &&& !text::is_white(out[index + 1])
                    }
                }
        }),
{
    let out = clean_device_name(name);
    law_device_name_is_clean(name);
    assert forall|index: int| 0 <= index < out.len() && text::is_white(
        #[trigger] out[index],
    ) implies index < out.len() - 1 && !text::is_white(out[index + 1]) by {
        if index < out.len() - 1 {
            assert(text::is_white(out[index + 1]) ==> !text::is_white(out[index]));
        }
    }
}

/// A text of words with single spaces between them and without control characters is its own device
/// name, or the first 32 characters of it are, without the space that they may end in.
pub proof fn law_device_name_is_the_start_of_the_words(name: Seq<char>)
    requires
        forall|index: int|
            0 <= index < name.len() ==> {
                &&& ' ' <= #[trigger] name[index]
                &&& !('\u{7f}' <= name[index] <= '\u{9f}')
                &&& text::is_white(name[index]) ==> {
                    &&& name[index] == ' '
                    &&& 0 < index < name.len() - 1
                    &&& !text::is_white(name[index - 1])
                }
            },
    ensures
        name.len() <= 32 ==> clean_device_name(name) == name,
        name.len() > 32 && name[31] != ' ' ==> clean_device_name(name) == name.take(32),
        name.len() > 32 && name[31] == ' ' ==> clean_device_name(name) == name.take(31),
{
    assert forall|index: int| 0 <= index < name.len() implies {
        &&& !text::is_control(#[trigger] name[index])
        &&& text::is_white(name[index]) ==> name[index] == ' ' && index > 0 && !text::is_white(
            name[index - 1],
        )
    } by {
        assert(' ' <= name[index]);
    }
    assert(is_spaced(name));
    if name.len() > 0 {
        assert(!text::is_white(name[name.len() - 1]));
        assert(!text::is_white(name[0]));
    }
    lemma_spaced_is_fixed(name);
    assert(spaced_words(without_controls(name)) == name);
    let none = Seq::<char>::empty();
    if name.len() <= 32 {
        text::lemma_trimmed_id(name, Trim::White);
    } else if name[31] != ' ' {
        let short = name.take(32);
        assert(short.last() == name[31] && short[0] == name[0]);
        assert(!text::is_white(name[31]));
        text::lemma_trimmed_id(short, Trim::White);
    } else {
        let short = name.take(31);
        assert(text::is_white(name[31]));
        assert(short.last() == name[30] && short[0] == name[0]);
        assert(!text::is_white(name[30]));
        text::law_trimming_leaves_the_middle(none, short, seq![' '], Trim::White);
        assert(none + short + seq![' '] =~= name.take(32));
    }
}

/// Leaving out control characters goes part by part.
proof fn lemma_without_controls_splits(front: Seq<char>, back: Seq<char>)
    ensures
        without_controls(front + back) == without_controls(front) + without_controls(back),
    decreases back.len(),
{
    let whole = front + back;
    if back.len() == 0 {
        assert(whole =~= front);
        assert(without_controls(back) =~= Seq::<char>::empty());
        assert(without_controls(front) + without_controls(back) =~= without_controls(front));
    } else {
        assert(whole.drop_last() =~= front + back.drop_last());
        assert(whole.last() == back.last());
        lemma_without_controls_splits(front, back.drop_last());
        assert(without_controls(whole) =~= without_controls(front) + without_controls(back));
    }
}

/// One white space parts words as well as another, and as well as two.
proof fn lemma_white_parts_words(front: Seq<char>, back: Seq<char>, first: char, second: char)
    requires
        text::is_white(first),
        text::is_white(second),
    ensures
        spaced_words(front.push(first) + back) == spaced_words(front.push(second) + back),
        spaced_words(front.push(first).push(second) + back) == spaced_words(
            front.push(first) + back,
        ),
    decreases back.len(),
{
    let one = front.push(first) + back;
    let other = front.push(second) + back;
    let both = front.push(first).push(second) + back;
    if back.len() == 0 {
        assert(one =~= front.push(first));
        assert(other =~= front.push(second));
        assert(both =~= front.push(first).push(second));
        assert(one.drop_last() =~= front);
        assert(other.drop_last() =~= front);
        assert(both.drop_last() =~= one);
    } else {
        let less = back.drop_last();
        assert(one.drop_last() =~= front.push(first) + less);
        assert(other.drop_last() =~= front.push(second) + less);
        assert(both.drop_last() =~= front.push(first).push(second) + less);
        lemma_white_parts_words(front, less, first, second);
        if less.len() == 0 {
            assert(one.drop_last().last() == first);
            assert(other.drop_last().last() == second);
            assert(both.drop_last().last() == second);
        } else {
            assert(one.drop_last().last() == less.last());
            assert(other.drop_last().last() == less.last());
            assert(both.drop_last().last() == less.last());
        }
    }
}

/// White space before the first word does not matter.
proof fn lemma_white_start_goes(first: char, back: Seq<char>)
    requires
        text::is_white(first),
    ensures
        spaced_words(seq![first] + back) == spaced_words(back),
    decreases back.len(),
{
    let whole = seq![first] + back;
    if back.len() == 0 {
        assert(whole =~= seq![first]);
        assert(whole.drop_last() =~= Seq::<char>::empty());
        assert(spaced_words(whole.drop_last()) =~= Seq::<char>::empty());
        assert(spaced_words(back) =~= Seq::<char>::empty());
    } else {
        let less = back.drop_last();
        assert(whole.drop_last() =~= seq![first] + less);
        assert(whole.last() == back.last());
        lemma_white_start_goes(first, less);
        if less.len() > 0 {
            assert(whole.drop_last().last() == less.last());
        } else {
            assert(spaced_words(less) =~= Seq::<char>::empty());
        }
    }
}

/// A control character anywhere in a text makes no difference to the device name, and neither does
/// white space at the ends, more of it between words, or which white space it is.
pub proof fn law_device_name_does_not_depend_on_space(
    front: Seq<char>,
    back: Seq<char>,
    control: char,
    first: char,
    second: char,
)
    requires
        control <= '\u{1f}' || '\u{7f}' <= control <= '\u{9f}',
        text::is_white(first) && !text::is_control(first),
        text::is_white(second) && !text::is_control(second),
    ensures
        clean_device_name(front.push(control) + back) == clean_device_name(front + back),
        clean_device_name(front.push(first) + back) == clean_device_name(front.push(' ') + back),
        clean_device_name(front.push(first).push(second) + back) == clean_device_name(
            front.push(first) + back,
        ),
        clean_device_name(seq![first] + back) == clean_device_name(back),
        clean_device_name(front.push(first)) == clean_device_name(front),
{
    let plain_front = without_controls(front);
    let plain_back = without_controls(back);
    let none = Seq::<char>::empty();
    assert(front.push(control).drop_last() =~= front);
    assert(front.push(first).drop_last() =~= front);
    assert(front.push(' ').drop_last() =~= front);
    assert(front.push(first).push(second).drop_last() =~= front.push(first));
    lemma_without_controls_splits(front.push(control), back);
    lemma_without_controls_splits(front, back);
    lemma_without_controls_splits(front.push(first), back);
    lemma_without_controls_splits(front.push(' '), back);
    lemma_without_controls_splits(front.push(first).push(second), back);
    lemma_without_controls_splits(seq![first], back);
    assert(seq![first].drop_last() =~= none);
    assert(without_controls(none) =~= none);
    assert(without_controls(seq![first]) =~= seq![first]);
    lemma_white_parts_words(plain_front, plain_back, first, ' ');
    lemma_white_parts_words(plain_front, plain_back, first, second);
    lemma_white_start_goes(first, plain_back);
    assert(plain_front.push(first).drop_last() =~= plain_front);
}

/// What stands for a byte in a header: a letter, a digit, a full stop, a hyphen, an underscore or a
/// tilde stands for itself, and a percent sign with two hexadecimal digits in capitals for any
/// other.
pub proof fn law_byte_is_percent_encoded(byte: u8)
    ensures
        ({
            let out = percent_text(seq![byte]);
            let plain = 65 <= byte <= 90 || 97 <= byte <= 122 || 48 <= byte <= 57 || byte == 46
                || byte == 45 || byte == 95 || byte == 126;
            let high = byte / 16;
            let low = byte % 16;
            &&& plain ==> out.len() == 1 && out[0] as u32 == byte
            &&& !plain ==> {
                &&& out.len() == 3
                &&& out[0] == '%'
                &&& out[1] as u32 == (if high < 10 {
                    48 + high
                } else {
                    55 + high
                })
                &&& out[2] as u32 == (if low < 10 {
                    48 + low
                } else {
                    55 + low
                })
            }
        }),
{
    assert(seq![byte].skip(1) =~= Seq::<u8>::empty());
    assert(percent_text(seq![byte].skip(1)) =~= Seq::<char>::empty());
    assert(percent_text(seq![byte]) =~= percent_byte(byte));
}

/// Byte strings are percent-encoded part by part.
pub proof fn law_percent_encoding_goes_part_by_part(front: Seq<u8>, back: Seq<u8>)
    ensures
        percent_text(Seq::<u8>::empty()).len() == 0,
        percent_text(front + back) == percent_text(front) + percent_text(back),
    decreases front.len(),
{
    let whole = front + back;
    if front.len() == 0 {
        assert(whole =~= back);
        assert(percent_text(front) + percent_text(back) =~= percent_text(back));
    } else {
        assert(whole.skip(1) =~= front.skip(1) + back);
        law_percent_encoding_goes_part_by_part(front.skip(1), back);
        assert(percent_text(whole) =~= percent_text(front) + percent_text(back));
    }
}

/// What a percent-encoded byte string stands for: any byte but the percent sign for itself, and a
/// percent sign with the digits of two numbers below sixteen, in either case, or with a plus sign
/// and one such digit, for the byte that the numbers make. Anything else behind a percent sign
/// stands for nothing.
pub proof fn law_percent_decoding_goes_byte_by_byte(
    byte: u8,
    first: u8,
    second: u8,
    high: u8,
    low: u8,
    rest: Seq<u8>,
)
    requires
        byte != 37,
        high < 16,
        low < 16,
    ensures
        ({
            let first_is = |value: u8|
                (48 <= first <= 57 && value == first - 48) || (65 <= first <= 70 && value == first
                    - 55) || (97 <= first <= 102 && value == first - 87);
            let second_is = |value: u8|
                (48 <= second <= 57 && value == second - 48) || (65 <= second <= 70 && value
                    == second - 55) || (97 <= second <= 102 && value == second - 87);
            let behind = |found: u8|
                match percent_bytes(rest) {
                    Some(content) => Some(seq![found] + content),
                    None => None::<Seq<u8>>,
                };
            let some_first = 48 <= first <= 57 || 65 <= first <= 70 || 97 <= first <= 102;
            let some_second = 48 <= second <= 57 || 65 <= second <= 70 || 97 <= second <= 102;
            let pair = percent_bytes(seq![37u8, first, second] + rest);
            &&& percent_bytes(Seq::<u8>::empty()) == Some(Seq::<u8>::empty())
            &&& percent_bytes(seq![byte] + rest) == behind(byte)
            &&& percent_bytes(seq![37u8]) is None
            &&& percent_bytes(seq![37u8, first]) is None
            &&& first_is(high) && second_is(low) ==> pair == behind((16 * high + low) as u8)
            &&& first == 43 && second_is(low) ==> pair == behind(low)
            &&& !some_first && first != 43 ==> pair is None
            &&& !some_second ==> pair is None
        }),
{
    assert((seq![byte] + rest).skip(1) =~= rest);
    assert((seq![37u8, first, second] + rest).skip(3) =~= rest);
}

/// A percent-encoded text stands for the text whose bytes its bytes stand for, if they stand for
/// any and those are a text.
pub proof fn law_percent_decoding_gives_a_text(value: Seq<char>)
    ensures
        match percent_bytes(encode_utf8(value)) {
            None => percent_decoded(value) == Err::<Seq<char>, Seq<char>>(
                "invalid percent encoding"@,
            ),
            Some(content) => if valid_utf8(content) {
                percent_decoded(value) == Ok::<Seq<char>, Seq<char>>(decode_utf8(content))
            } else {
                percent_decoded(value) == Err::<Seq<char>, Seq<char>>("invalid utf-8"@)
            },
        },
{
}

/// A text is escaped character by character: a backslash before a backslash and a quote, an `n` and
/// an `r` behind one for the two line ends, and every other character as it is.
pub proof fn law_json_text_is_written_character_by_character(front: Seq<char>, last: char)
    ensures
        json_text(Seq::<char>::empty()).len() == 0,
        last == '\\' ==> json_text(front.push(last)) == json_text(front) + seq!['\\', '\\'],
        last == '"' ==> json_text(front.push(last)) == json_text(front) + seq!['\\', '"'],
        last == '\n' ==> json_text(front.push(last)) == json_text(front) + seq!['\\', 'n'],
        last == '\r' ==> json_text(front.push(last)) == json_text(front) + seq!['\\', 'r'],
        last != '\\' && last != '"' && last != '\n' && last != '\r' ==> json_text(front.push(last))
            == json_text(front) + seq![last],
{
    assert(front.push(last).drop_last() =~= front);
}

} // verus!
