//! Texts as sequences of characters: classes of characters, trimming, comparing, cutting up.

use vstd::prelude::*;
use vstd::utf8::*;

verus! {

/// `String::push`: appends a character.
pub assume_specification[ String::push ](string: &mut String, character: char)
    ensures
        final(string)@ == old(string)@.push(character),
;

/// `std::string::FromUtf8Error`: what `String::from_utf8` says of bytes that are not UTF-8.
#[verifier::external_type_specification]
#[verifier::external_body]
pub struct ExFromUtf8Error(std::string::FromUtf8Error);

/// `String::from_utf8`: the text that the bytes encode, if they are UTF-8.
pub assume_specification[ String::from_utf8 ](content: Vec<u8>) -> (string: Result<
    String,
    std::string::FromUtf8Error,
>)
    ensures
        string is Ok <==> valid_utf8(content@),
        string is Ok ==> string->Ok_0@ == decode_utf8(content@),
;

/// The texts of a list.
pub open spec fn texts(list: Seq<String>) -> Seq<Seq<char>> {
    Seq::new(list.len(), |index: int| list[index]@)
}

/// Whether a character has the Unicode property White_Space.
pub open spec fn is_white(c: char) -> bool {
    ||| '\u{9}' <= c <= '\u{d}'
    ||| c == ' '
    ||| c == '\u{85}'
    ||| c == '\u{a0}'
    ||| c == '\u{1680}'
    ||| '\u{2000}' <= c <= '\u{200a}'
    ||| c == '\u{2028}'
    ||| c == '\u{2029}'
    ||| c == '\u{202f}'
    ||| c == '\u{205f}'
    ||| c == '\u{3000}'
}

/// Whether a character is a control character, of the Unicode category Cc.
pub open spec fn is_control(c: char) -> bool {
    c <= '\u{1f}' || '\u{7f}' <= c <= '\u{9f}'
}

/// Whether a character has the Unicode property White_Space.
pub fn white(c: char) -> (yes: bool)
    ensures
        yes == is_white(c),
{
    ('\u{9}' <= c && c <= '\u{d}') || c == ' ' || c == '\u{85}' || c == '\u{a0}' || c == '\u{1680}'
        || ('\u{2000}' <= c && c <= '\u{200a}') || c == '\u{2028}' || c == '\u{2029}' || c
        == '\u{202f}' || c == '\u{205f}' || c == '\u{3000}'
}

/// Whether a character is a control character, of the Unicode category Cc.
pub fn control(c: char) -> (yes: bool)
    ensures
        yes == is_control(c),
{
    c <= '\u{1f}' || ('\u{7f}' <= c && c <= '\u{9f}')
}

/// The characters of a text.
pub fn chars_of(text: &str) -> (chars: Vec<char>)
    ensures
        chars@ == text@,
{
    let mut chars: Vec<char> = Vec::new();
    for c in it: text.chars()
        invariant
            it.seq() == text@,
            chars@ == text@.take(it.index()),
    {
        chars.push(c);
        assert(text@.take(it.index() + 1) == text@.take(it.index()).push(c));
    }
    assert(text@.take(text@.len() as int) == text@);
    chars
}

/// The text of the characters from `from` up to, but not including, `to`.
pub fn text_of(chars: &Vec<char>, from: usize, to: usize) -> (text: String)
    requires
        from <= to <= chars@.len(),
    ensures
        text@ == chars@.subrange(from as int, to as int),
{
    let mut text = String::new();
    let mut index: usize = from;
    assert(chars@.subrange(from as int, from as int) =~= Seq::<char>::empty());
    while index < to
        invariant
            from <= index <= to <= chars@.len(),
            text@ == chars@.subrange(from as int, index as int),
        decreases to - index,
    {
        text.push(chars[index]);
        assert(chars@.subrange(from as int, index + 1) =~= chars@.subrange(
            from as int,
            index as int,
        ).push(chars@[index as int]));
        index = index + 1;
    }
    text
}

/// What is cut off the ends of a text.
#[derive(Clone, Copy, PartialEq, Eq, Structural)]
pub enum Trim {
    /// White space.
    White,
    /// Full stops.
    Dots,
}

impl Trim {
    /// Whether a character is cut off.
    pub open spec fn drops(self, c: char) -> bool {
        match self {
            Trim::White => is_white(c),
            Trim::Dots => c == '.',
        }
    }

    /// Whether a character is cut off.
    fn cuts(self, c: char) -> (yes: bool)
        ensures
            yes == self.drops(c),
    {
        match self {
            Trim::White => white(c),
            Trim::Dots => c == '.',
        }
    }
}

/// A text without what is cut off its start.
pub open spec fn trimmed_start(text: Seq<char>, trim: Trim) -> Seq<char>
    decreases text.len(),
{
    if text.len() > 0 && trim.drops(text[0]) {
        trimmed_start(text.skip(1), trim)
    } else {
        text
    }
}

/// A text without what is cut off its end.
pub open spec fn trimmed_end(text: Seq<char>, trim: Trim) -> Seq<char>
    decreases text.len(),
{
    if text.len() > 0 && trim.drops(text.last()) {
        trimmed_end(text.drop_last(), trim)
    } else {
        text
    }
}

/// A text without what is cut off its ends.
pub open spec fn trimmed(text: Seq<char>, trim: Trim) -> Seq<char> {
    trimmed_end(trimmed_start(text, trim), trim)
}

/// The end of `chars[start..]` once what is cut off has gone.
fn end_of(chars: &Vec<char>, start: usize, trim: Trim) -> (end: usize)
    requires
        start <= chars@.len(),
    ensures
        start <= end <= chars@.len(),
        chars@.subrange(start as int, end as int) == trimmed_end(chars@.skip(start as int), trim),
{
    let mut end: usize = chars.len();
    assert(chars@.subrange(start as int, end as int) =~= chars@.skip(start as int));
    while end > start && trim.cuts(chars[end - 1])
        invariant
            start <= end <= chars@.len(),
            trimmed_end(chars@.subrange(start as int, end as int), trim) == trimmed_end(
                chars@.skip(start as int),
                trim,
            ),
        decreases end,
    {
        let ghost current = chars@.subrange(start as int, end as int);
        assert(current.last() == chars@[end - 1]);
        assert(current.drop_last() =~= chars@.subrange(start as int, end - 1));
        end = end - 1;
    }
    assert(end > start ==> chars@.subrange(start as int, end as int).last() == chars@[end - 1]);
    end
}

/// A text without what is cut off its ends, of characters.
pub fn trim_chars(chars: &Vec<char>, trim: Trim) -> (rest: Vec<char>)
    ensures
        rest@ == trimmed(chars@, trim),
{
    let mut start: usize = 0;
    assert(chars@.skip(0) =~= chars@);
    while start < chars.len() && trim.cuts(chars[start])
        invariant
            start <= chars@.len(),
            trimmed_start(chars@.skip(start as int), trim) == trimmed_start(chars@, trim),
        decreases chars@.len() - start,
    {
        assert(chars@.skip(start as int)[0] == chars@[start as int]);
        assert(chars@.skip(start as int).skip(1) =~= chars@.skip(start + 1));
        start = start + 1;
    }
    assert(start < chars@.len() ==> chars@.skip(start as int)[0] == chars@[start as int]);
    let end: usize = end_of(chars, start, trim);
    let mut rest: Vec<char> = Vec::new();
    let mut index: usize = start;
    assert(chars@.subrange(start as int, start as int) =~= Seq::<char>::empty());
    while index < end
        invariant
            start <= index <= end <= chars@.len(),
            rest@ == chars@.subrange(start as int, index as int),
        decreases end - index,
    {
        rest.push(chars[index]);
        assert(chars@.subrange(start as int, index + 1) =~= chars@.subrange(
            start as int,
            index as int,
        ).push(chars@[index as int]));
        index = index + 1;
    }
    rest
}

/// A text without the white space at its ends.
pub fn trim_white(text: &str) -> (rest: String)
    ensures
        rest@ == trimmed(text@, Trim::White),
{
    let rest = trim_chars(&chars_of(text), Trim::White);
    assert(rest@.subrange(0, rest@.len() as int) =~= rest@);
    text_of(&rest, 0, rest.len())
}

/// A text without the white space at its end.
pub fn trim_white_end(text: &str) -> (rest: String)
    ensures
        rest@ == trimmed_end(text@, Trim::White),
{
    let chars = chars_of(text);
    assert(chars@.skip(0) =~= chars@);
    let end: usize = end_of(&chars, 0, Trim::White);
    text_of(&chars, 0, end)
}

/// Whether a text is nothing but white space.
pub open spec fn is_blank(text: Seq<char>) -> bool {
    trimmed(text, Trim::White).len() == 0
}

/// Whether a text is nothing but white space.
pub fn blank(text: &str) -> (yes: bool)
    ensures
        yes == is_blank(text@),
{
    trim_chars(&chars_of(text), Trim::White).len() == 0
}

/// Whether a text begins with another.
pub fn begins_with(text: &str, start: &str) -> (yes: bool)
    ensures
        yes == start@.is_prefix_of(text@),
{
    let whole = chars_of(text);
    let part = chars_of(start);
    if part.len() > whole.len() {
        return false;
    }
    let mut index: usize = 0;
    while index < part.len()
        invariant
            index <= part@.len() <= whole@.len(),
            part@ == start@,
            whole@ == text@,
            forall|at: int| 0 <= at < index ==> whole@[at] == part@[at],
        decreases part@.len() - index,
    {
        if whole[index] != part[index] {
            assert(text@.subrange(0, start@.len() as int)[index as int] != start@[index as int]);
            return false;
        }
        index = index + 1;
    }
    assert(text@.subrange(0, start@.len() as int) =~= start@);
    true
}

/// Whether two texts are the same.
pub fn same_text(left: &str, right: &str) -> (yes: bool)
    ensures
        yes == (left@ == right@),
{
    let l = chars_of(left);
    let r = chars_of(right);
    if l.len() != r.len() {
        return false;
    }
    let mut index: usize = 0;
    while index < l.len()
        invariant
            index <= l@.len() == r@.len(),
            l@ == left@,
            r@ == right@,
            forall|at: int| 0 <= at < index ==> l@[at] == r@[at],
        decreases l@.len() - index,
    {
        if l[index] != r[index] {
            return false;
        }
        index = index + 1;
    }
    assert(left@ =~= right@);
    true
}

/// `first` followed by `second`.
pub fn concat(first: &str, second: &str) -> (text: String)
    ensures
        text@ == first@ + second@,
{
    let mut text = first.to_string();
    text.append(second);
    text
}

/// A character in lower case, if it is an ASCII capital.
pub open spec fn lower(c: char) -> char {
    if 'A' <= c <= 'Z' {
        ((c as u32 + 32) as u32) as char
    } else {
        c
    }
}

/// A text with its ASCII capitals in lower case.
pub open spec fn lowered(text: Seq<char>) -> Seq<char> {
    Seq::new(text.len(), |index: int| lower(text[index]))
}

/// A text with its ASCII capitals in lower case.
pub fn ascii_lowercase(text: &str) -> (low: String)
    ensures
        low@ == lowered(text@),
{
    let mut low = String::new();
    for c in it: text.chars()
        invariant
            it.seq() == text@,
            low@ == lowered(text@.take(it.index())),
    {
        if 'A' <= c && c <= 'Z' {
            low.push(((c as u8) + 32) as char);
        } else {
            low.push(c);
        }
        assert(lowered(text@.take(it.index() + 1)) =~= lowered(text@.take(it.index())).push(
            lower(c),
        ));
    }
    assert(text@.take(text@.len() as int) == text@);
    low
}

/// The place of the first `mark` in a text at or after `from`, or the text's length.
pub open spec fn find_from(text: Seq<char>, mark: char, from: int) -> int
    decreases text.len() - from,
{
    if from >= text.len() {
        text.len() as int
    } else if text[from] == mark {
        from
    } else {
        find_from(text, mark, from + 1)
    }
}

/// The first `mark` is at a place before which there is none.
pub proof fn lemma_find_from(text: Seq<char>, mark: char, from: int, place: int)
    requires
        0 <= from <= place < text.len(),
        text[place] == mark,
        forall|index: int| from <= index < place ==> text[index] != mark,
    ensures
        find_from(text, mark, from) == place,
    decreases place - from,
{
    if from < place {
        lemma_find_from(text, mark, from + 1, place);
    }
}

/// The place of the first `mark` among characters, or their number.
pub fn find(chars: &Vec<char>, mark: char) -> (place: usize)
    ensures
        place == find_from(chars@, mark, 0),
        place <= chars@.len(),
        place < chars@.len() ==> chars@[place as int] == mark,
        forall|index: int| 0 <= index < place ==> chars@[index] != mark,
{
    let mut place: usize = 0;
    while place < chars.len() && chars[place] != mark
        invariant
            place <= chars@.len(),
            find_from(chars@, mark, place as int) == find_from(chars@, mark, 0),
            forall|index: int| 0 <= index < place ==> chars@[index] != mark,
        decreases chars@.len() - place,
    {
        place = place + 1;
    }
    place
}

/// Trimming leaves a piece of the text, whose ends, if it has any, are not cut off.
pub proof fn lemma_trimmed_ends(text: Seq<char>, trim: Trim)
    ensures
        ({
            let rest = trimmed(text, trim);
            &&& rest.len() <= text.len()
            &&& rest.len() > 0 ==> !trim.drops(rest[0]) && !trim.drops(rest.last())
            &&& forall|index: int| 0 <= index < rest.len() ==> text.contains(#[trigger] rest[index])
        }),
{
    let front = trimmed_start(text, trim);
    lemma_trimmed_start(text, trim);
    lemma_trimmed_end(front, trim);
    let rest = trimmed(text, trim);
    assert forall|index: int| 0 <= index < rest.len() implies text.contains(
        #[trigger] rest[index],
    ) by {
        assert(rest[index] == front[index]);
    }
}

/// Trimming the start leaves the rest of the text from a character on that is not cut off.
pub proof fn lemma_trimmed_start(text: Seq<char>, trim: Trim)
    ensures
        trimmed_start(text, trim).len() <= text.len(),
        trimmed_start(text, trim) == text.skip(text.len() - trimmed_start(text, trim).len()),
        trimmed_start(text, trim).len() > 0 ==> !trim.drops(trimmed_start(text, trim)[0]),
        forall|index: int|
            0 <= index < trimmed_start(text, trim).len() ==> text.contains(
                #[trigger] trimmed_start(text, trim)[index],
            ),
    decreases text.len(),
{
    let rest = trimmed_start(text, trim);
    if text.len() > 0 && trim.drops(text[0]) {
        lemma_trimmed_start(text.skip(1), trim);
        assert(text.skip(1).skip(text.len() - 1 - rest.len()) =~= text.skip(
            text.len() - rest.len(),
        ));
    } else {
        assert(text.skip(0) =~= text);
    }
    let gone = text.len() - rest.len();
    assert forall|index: int| 0 <= index < rest.len() implies text.contains(
        #[trigger] rest[index],
    ) by {
        assert(text[gone + index] == rest[index]);
    }
}

/// Trimming the end leaves the text up to a character that is not cut off.
pub proof fn lemma_trimmed_end(text: Seq<char>, trim: Trim)
    ensures
        trimmed_end(text, trim).len() <= text.len(),
        trimmed_end(text, trim) == text.take(trimmed_end(text, trim).len() as int),
        trimmed_end(text, trim).len() > 0 ==> !trim.drops(trimmed_end(text, trim).last()),
    decreases text.len(),
{
    let rest = trimmed_end(text, trim);
    if text.len() > 0 && trim.drops(text.last()) {
        lemma_trimmed_end(text.drop_last(), trim);
        assert(text.drop_last().take(rest.len() as int) =~= text.take(rest.len() as int));
    } else {
        assert(text.take(text.len() as int) =~= text);
    }
}

/// A text whose ends are not cut off is left as it is.
pub proof fn lemma_trimmed_id(text: Seq<char>, trim: Trim)
    requires
        text.len() > 0 ==> !trim.drops(text[0]) && !trim.drops(text.last()),
    ensures
        trimmed(text, trim) == text,
        trimmed_start(text, trim) == text,
        trimmed_end(text, trim) == text,
{
}

/// The white space characters are those of the Unicode property White_Space, and no others.
pub proof fn law_white_space_is_that_of_unicode(c: char)
    ensures
        is_white(c) <==> ({
            let code = c as u32;
            ||| 9 <= code <= 13
            ||| code == 32
            ||| code == 0x85
            ||| code == 0xa0
            ||| code == 0x1680
            ||| 0x2000 <= code <= 0x200a
            ||| code == 0x2028
            ||| code == 0x2029
            ||| code == 0x202f
            ||| code == 0x205f
            ||| code == 0x3000
        }),
{
}

/// The control characters are the 32 below the space, the one behind the tilde and the 32 behind
/// that, and no others.
pub proof fn law_control_characters_are_those_of_unicode(c: char)
    ensures
        is_control(c) <==> (c as u32) < 32 || 127 <= (c as u32) < 160,
{
}

/// What is cut off is white space or full stops, as asked for.
pub proof fn law_trimming_cuts_what_is_asked_for(c: char)
    ensures
        Trim::White.drops(c) <==> is_white(c),
        Trim::Dots.drops(c) <==> c == '.',
{
}

/// What is to be cut off goes from the start of any text.
proof fn lemma_front_goes(front: Seq<char>, rest: Seq<char>, trim: Trim)
    requires
        forall|index: int| 0 <= index < front.len() ==> trim.drops(#[trigger] front[index]),
    ensures
        trimmed_start(front + rest, trim) == trimmed_start(rest, trim),
    decreases front.len(),
{
    let whole = front + rest;
    if front.len() == 0 {
        assert(whole =~= rest);
    } else {
        assert(whole[0] == front[0]);
        assert(whole.skip(1) =~= front.skip(1) + rest);
        assert forall|index: int| 0 <= index < front.skip(1).len() implies trim.drops(
            #[trigger] front.skip(1)[index],
        ) by {
            assert(front.skip(1)[index] == front[index + 1]);
        }
        lemma_front_goes(front.skip(1), rest, trim);
    }
}

/// What is to be cut off goes from the end of any text.
proof fn lemma_back_goes(rest: Seq<char>, back: Seq<char>, trim: Trim)
    requires
        forall|index: int| 0 <= index < back.len() ==> trim.drops(#[trigger] back[index]),
    ensures
        trimmed_end(rest + back, trim) == trimmed_end(rest, trim),
    decreases back.len(),
{
    let whole = rest + back;
    if back.len() == 0 {
        assert(whole =~= rest);
    } else {
        let shorter = back.drop_last();
        assert(whole.last() == back[back.len() - 1]);
        assert(whole.drop_last() =~= rest + shorter);
        assert forall|index: int| 0 <= index < shorter.len() implies trim.drops(
            #[trigger] shorter[index],
        ) by {
            assert(shorter[index] == back[index]);
        }
        lemma_back_goes(rest, shorter, trim);
    }
}

/// However much of what is to be cut off stands around a text, what is left is the text, if its own
/// ends are not cut off; and of nothing but what is to be cut off nothing is left.
pub proof fn law_trimming_leaves_the_middle(
    front: Seq<char>,
    middle: Seq<char>,
    back: Seq<char>,
    trim: Trim,
)
    requires
        forall|index: int| 0 <= index < front.len() ==> trim.drops(#[trigger] front[index]),
        forall|index: int| 0 <= index < back.len() ==> trim.drops(#[trigger] back[index]),
        middle.len() > 0 ==> !trim.drops(middle[0]) && !trim.drops(middle.last()),
    ensures
        trimmed(front + middle + back, trim) == middle,
        trimmed_start(front + middle, trim) == middle,
        trimmed_end(middle + back, trim) == middle,
{
    assert(front + middle + back =~= front + (middle + back));
    lemma_front_goes(front, middle + back, trim);
    lemma_front_goes(front, middle, trim);
    lemma_back_goes(middle, back, trim);
    if middle.len() == 0 {
        assert(middle + back =~= back);
        assert(back + middle =~= back);
        lemma_front_goes(back, middle, trim);
        assert(trimmed_start(middle, trim) == middle);
        assert(trimmed_end(middle, trim) == middle);
    } else {
        assert((middle + back)[0] == middle[0]);
    }
}

/// A text is blank exactly if all of its characters are white space.
pub proof fn law_blank_texts_are_white_space(text: Seq<char>)
    ensures
        is_blank(text) <==> forall|index: int|
            0 <= index < text.len() ==> is_white(#[trigger] text[index]),
{
    let none = Seq::<char>::empty();
    if forall|index: int| 0 <= index < text.len() ==> is_white(#[trigger] text[index]) {
        law_trimming_leaves_the_middle(text, none, none, Trim::White);
        assert(text + none + none =~= text);
    } else {
        let place = choose|place: int| 0 <= place < text.len() && !is_white(text[place]);
        lemma_solid_character_stays(text, place);
    }
}

/// A character that is not white space is not cut off.
proof fn lemma_solid_character_stays(text: Seq<char>, place: int)
    requires
        0 <= place < text.len(),
        !is_white(text[place]),
    ensures
        trimmed(text, Trim::White).len() > 0,
    decreases text.len(),
{
    if is_white(text[0]) {
        assert(text.skip(1)[place - 1] == text[place]);
        lemma_solid_character_stays(text.skip(1), place - 1);
    } else {
        lemma_solid_start_stays(text);
    }
}

/// A first character that is not white space is not cut off with what is cut off the end.
proof fn lemma_solid_start_stays(text: Seq<char>)
    requires
        text.len() > 0,
        !is_white(text[0]),
    ensures
        trimmed_end(text, Trim::White).len() > 0,
    decreases text.len(),
{
    if is_white(text.last()) {
        lemma_solid_start_stays(text.drop_last());
    }
}

/// The place that is found is that of the first mark, or the end of the text if there is none.
pub proof fn law_first_mark_is_found(text: Seq<char>, mark: char, from: int)
    requires
        0 <= from <= text.len(),
    ensures
        ({
            let place = find_from(text, mark, from);
            &&& from <= place <= text.len()
            &&& place < text.len() ==> text[place] == mark
            &&& forall|index: int| from <= index < place ==> #[trigger] text[index] != mark
        }),
    decreases text.len() - from,
{
    if from < text.len() && text[from] != mark {
        law_first_mark_is_found(text, mark, from + 1);
    }
}

/// In lower case the 26 capitals have codes that are larger by 32, and every other character stays
/// as it is.
pub proof fn law_capitals_are_lowered(text: Seq<char>, index: int)
    requires
        0 <= index < text.len(),
    ensures
        lowered(text).len() == text.len(),
        65 <= text[index] as u32 <= 90 ==> lowered(text)[index] as u32 == text[index] as u32 + 32,
        !(65 <= text[index] as u32 <= 90) ==> lowered(text)[index] == text[index],
{
}

/// The texts of a list are those of its strings, in their order.
pub proof fn law_texts_are_those_of_the_list(list: Seq<String>, index: int)
    requires
        0 <= index < list.len(),
    ensures
        texts(list).len() == list.len(),
        texts(list)[index] == list[index]@,
{
}

} // verus!
