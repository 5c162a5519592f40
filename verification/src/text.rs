//! Text as sequences of characters: trimming, searching, joining and alignment.

use vstd::prelude::*;

verus! {

/// `String::push` of the standard library: it appends the character to the string.
pub assume_specification[ std::string::String::push ](buffer: &mut std::string::String, appended: char)
    ensures
        final(buffer)@ == old(buffer)@.push(appended),
;

/// The characters of the texts of a list.
pub open spec fn texts(list: Seq<String>) -> Seq<Seq<char>> {
    list.map_values(|text: String| text@)
}

/// Copies the characters of `text` into a vector.
pub fn chars_of(text: &str) -> (chars: Vec<char>)
    ensures
        chars@ == text@,
{
    let mut chars: Vec<char> = Vec::new();
    for ch in it: text.chars()
        invariant
            it.seq() == text@,
            chars@ == text@.take(it.index() as int),
    {
        chars.push(ch);
    }
    assert(text@.take(text@.len() as int) =~= text@);
    chars
}

/// The characters of `chars` from `from` up to `to`, as a string.
pub fn string_of(chars: &Vec<char>, from: usize, to: usize) -> (text: String)
    requires
        from <= to <= chars@.len(),
    ensures
        text@ == chars@.subrange(from as int, to as int),
{
    let mut text = String::new();
    let mut i: usize = from;
    while i < to
        invariant
            from <= i <= to <= chars@.len(),
            text@ == chars@.subrange(from as int, i as int),
        decreases to - i,
    {
        text.push(chars[i]);
        i = i + 1;
    }
    text
}

/// Whether two texts hold the same characters.
pub fn same_text(left: &str, right: &str) -> (same: bool)
    ensures
        same == (left@ == right@),
{
    left.to_owned() == right.to_owned()
}

/// Whether Unicode gives the character the property `White_Space`.
pub open spec fn is_white_space(ch: char) -> bool {
    ||| '\u{9}' <= ch <= '\u{d}'
    ||| ch == ' '
    ||| ch == '\u{85}'
    ||| ch == '\u{a0}'
    ||| ch == '\u{1680}'
    ||| '\u{2000}' <= ch <= '\u{200a}'
    ||| ch == '\u{2028}'
    ||| ch == '\u{2029}'
    ||| ch == '\u{202f}'
    ||| ch == '\u{205f}'
    ||| ch == '\u{3000}'
}

/// Decides `is_white_space`.
pub fn white_space(ch: char) -> (white: bool)
    ensures
        white == is_white_space(ch),
{
    ('\u{9}' <= ch && ch <= '\u{d}') || ch == ' ' || ch == '\u{85}' || ch == '\u{a0}' || ch
        == '\u{1680}' || ('\u{2000}' <= ch && ch <= '\u{200a}') || ch == '\u{2028}' || ch
        == '\u{2029}' || ch == '\u{202f}' || ch == '\u{205f}' || ch == '\u{3000}'
}

/// The text without the white space at its start.
pub open spec fn trim_start(text: Seq<char>) -> Seq<char>
    decreases text.len(),
{
    if text.len() > 0 && is_white_space(text[0]) {
        trim_start(text.skip(1))
    } else {
        text
    }
}

/// The text without the white space at its end.
pub open spec fn trim_end(text: Seq<char>) -> Seq<char>
    decreases text.len(),
{
    if text.len() > 0 && is_white_space(text.last()) {
        trim_end(text.drop_last())
    } else {
        text
    }
}

/// The text without the white space at either end.
pub open spec fn trim(text: Seq<char>) -> Seq<char> {
    trim_end(trim_start(text))
}

/// The first position from `from` on, below `to`, that holds no white space; `to` if there is
/// none.
pub fn start_of_trimmed(chars: &Vec<char>, from: usize, to: usize) -> (start: usize)
    requires
        from <= to <= chars@.len(),
    ensures
        from <= start <= to,
        chars@.subrange(start as int, to as int) == trim_start(
            chars@.subrange(from as int, to as int),
        ),
{
    let mut start: usize = from;
    while start < to && white_space(chars[start])
        invariant
            from <= start <= to <= chars@.len(),
            trim_start(chars@.subrange(start as int, to as int)) == trim_start(
                chars@.subrange(from as int, to as int),
            ),
        decreases to - start,
    {
        assert(chars@.subrange(start as int, to as int).skip(1) =~= chars@.subrange(
            start + 1,
            to as int,
        ));
        start = start + 1;
    }
    start
}

/// The position behind the last character from `from` on, below `to`, that is no white space;
/// `from` if there is none.
pub fn end_of_trimmed(chars: &Vec<char>, from: usize, to: usize) -> (end: usize)
    requires
        from <= to <= chars@.len(),
    ensures
        from <= end <= to,
        chars@.subrange(from as int, end as int) == trim_end(
            chars@.subrange(from as int, to as int),
        ),
{
    let mut end: usize = to;
    while from < end && white_space(chars[end - 1])
        invariant
            from <= end <= to <= chars@.len(),
            trim_end(chars@.subrange(from as int, end as int)) == trim_end(
                chars@.subrange(from as int, to as int),
            ),
        decreases end - from,
    {
        assert(chars@.subrange(from as int, end as int).drop_last() =~= chars@.subrange(
            from as int,
            end - 1,
        ));
        end = end - 1;
    }
    end
}

/// A copy of `text` without the white space at its end.
pub fn trimmed_end(text: &str) -> (trimmed: String)
    ensures
        trimmed@ == trim_end(text@),
{
    let chars = chars_of(text);
    let end: usize = end_of_trimmed(&chars, 0, chars.len());
    assert(chars@.subrange(0, chars@.len() as int) =~= text@);
    string_of(&chars, 0, end)
}

/// A copy of `text` without the white space at either end.
pub fn trimmed(text: &str) -> (trimmed: String)
    ensures
        trimmed@ == trim(text@),
{
    let chars = chars_of(text);
    let start: usize = start_of_trimmed(&chars, 0, chars.len());
    let end: usize = end_of_trimmed(&chars, start, chars.len());
    assert(chars@.subrange(0, chars@.len() as int) =~= text@);
    string_of(&chars, start, end)
}

/// The characters before the first `stop`, or all if there is none.
pub open spec fn before(source: Seq<char>, stop: char) -> Seq<char>
    decreases source.len(),
{
    if source.len() == 0 || source[0] == stop {
        Seq::empty()
    } else {
        seq![source[0]] + before(source.skip(1), stop)
    }
}

/// What stands before the first `stop` is the longest start of the text without it.
pub proof fn lemma_before(source: Seq<char>, stop: char)
    ensures
        before(source, stop).len() <= source.len(),
        before(source, stop) == source.take(before(source, stop).len() as int),
        !before(source, stop).contains(stop),
        before(source, stop).len() < source.len() ==> source[before(source, stop).len() as int]
            == stop,
    decreases source.len(),
{
    if source.len() > 0 && source[0] != stop {
        let rest = source.skip(1);
        lemma_before(rest, stop);
        let found = before(source, stop);
        assert(found =~= source.take(found.len() as int));
        assert forall|i: int| 0 <= i < found.len() implies found[i] != stop by {
            if i > 0 {
                assert(before(rest, stop)[i - 1] != stop);
            }
        }
    }
}

/// A text without `stop` is what stands before it, when it follows.
pub proof fn lemma_before_stop(start: Seq<char>, stop: char, rest: Seq<char>)
    requires
        !start.contains(stop),
    ensures
        before(start + seq![stop] + rest, stop) == start,
    decreases start.len(),
{
    let whole = start + seq![stop] + rest;
    if start.len() > 0 {
        let shorter = start.skip(1);
        assert(start.contains(start[0]));
        assert forall|i: int| 0 <= i < shorter.len() implies shorter[i] != stop by {
            assert(start.contains(start[i + 1]));
        }
        lemma_before_stop(shorter, stop, rest);
        assert(whole.skip(1) =~= shorter + seq![stop] + rest);
        assert(seq![start[0]] + shorter =~= start);
    } else {
        assert(before(whole, stop) =~= start);
    }
}

/// The first position from `from` on that holds `stop`, or else the end.
pub fn position_of(chars: &Vec<char>, from: usize, stop: char) -> (end: usize)
    requires
        from <= chars@.len(),
    ensures
        from <= end <= chars@.len(),
        chars@.subrange(from as int, end as int) == before(chars@.skip(from as int), stop),
        end < chars@.len() ==> chars@[end as int] == stop,
{
    let mut end: usize = from;
    let ghost source = chars@.skip(from as int);
    assert(source.take(0) + before(source, stop) =~= before(source, stop));
    assert(source.skip(0) =~= source);
    while end < chars.len() && chars[end] != stop
        invariant
            from <= end <= chars@.len(),
            source == chars@.skip(from as int),
            source.take(end - from) + before(source.skip(end - from), stop) == before(source, stop),
        decreases chars@.len() - end,
    {
        proof {
            let rest = source.skip(end - from);
            assert(rest.skip(1) =~= source.skip(end + 1 - from));
            assert(rest[0] == chars@[end as int]);
            assert(source.take(end - from) + before(rest, stop) =~= source.take(end + 1 - from)
                + before(rest.skip(1), stop));
        }
        end = end + 1;
    }
    assert(source.take(end - from) + Seq::<char>::empty() =~= chars@.subrange(
        from as int,
        end as int,
    ));
    end
}

/// The parts into which `stop` splits a text; some may be empty, and there is at least one.
pub open spec fn split(source: Seq<char>, stop: char) -> Seq<Seq<char>>
    decreases source.len(),
{
    if source.len() == 0 {
        seq![Seq::empty()]
    } else {
        let earlier = split(source.drop_last(), stop);
        if source.last() == stop {
            earlier.push(Seq::empty())
        } else {
            earlier.drop_last().push(earlier.last().push(source.last()))
        }
    }
}

/// A text has at least one part.
pub proof fn lemma_split_len(source: Seq<char>, stop: char)
    ensures
        split(source, stop).len() > 0,
    decreases source.len(),
{
    if source.len() > 0 {
        lemma_split_len(source.drop_last(), stop);
    }
}

/// Of two texts side by side, the last part of the one and the first part of the other are one
/// part.
pub proof fn lemma_split_len_of_sum(left: Seq<char>, right: Seq<char>, stop: char)
    ensures
        split(left + right, stop).len() == split(left, stop).len() + split(right, stop).len() - 1,
    decreases right.len(),
{
    if right.len() == 0 {
        assert(left + right =~= left);
    } else {
        assert((left + right).drop_last() =~= left + right.drop_last());
        lemma_split_len_of_sum(left, right.drop_last(), stop);
        lemma_split_len(left + right.drop_last(), stop);
        lemma_split_len(right.drop_last(), stop);
    }
}

/// A `stop` between two texts parts them.
pub proof fn lemma_split_at(left: Seq<char>, right: Seq<char>, stop: char)
    ensures
        split(left + seq![stop] + right, stop) == split(left, stop) + split(right, stop),
    decreases right.len(),
{
    let whole = left + seq![stop] + right;
    if right.len() == 0 {
        assert(whole.drop_last() =~= left);
        assert(right =~= Seq::empty());
        assert(split(whole, stop) =~= split(left, stop) + split(right, stop));
    } else {
        let shorter = right.drop_last();
        assert(whole.drop_last() =~= left + seq![stop] + shorter);
        lemma_split_at(left, shorter, stop);
        lemma_split_len(shorter, stop);
        assert(split(whole, stop) =~= split(left, stop) + split(right, stop));
    }
}

/// A text without `stop` is one part.
pub proof fn lemma_split_one(source: Seq<char>, stop: char)
    requires
        !source.contains(stop),
    ensures
        split(source, stop) == seq![source],
    decreases source.len(),
{
    if source.len() > 0 {
        let shorter = source.drop_last();
        assert(source.contains(source[source.len() - 1]));
        assert forall|i: int| 0 <= i < shorter.len() implies shorter[i] != stop by {
            assert(source.contains(source[i]));
        }
        lemma_split_one(shorter, stop);
        assert(shorter.push(source.last()) =~= source);
        assert(split(source, stop) =~= seq![source]);
    } else {
        assert(source =~= Seq::empty());
    }
}

/// Each part stands in the text, at its start or behind a `stop`.
pub proof fn lemma_part_stands(source: Seq<char>, stop: char, i: int) -> (at: int)
    requires
        0 <= i < split(source, stop).len(),
    ensures
        0 <= at <= at + split(source, stop)[i].len() <= source.len(),
        source.subrange(at, at + split(source, stop)[i].len()) == split(source, stop)[i],
        at > 0 ==> source[at - 1] == stop,
        i == split(source, stop).len() - 1 ==> at + split(source, stop)[i].len() == source.len(),
    decreases source.len(),
{
    let parts = split(source, stop);
    if source.len() == 0 {
        assert(source.subrange(0, 0) =~= parts[i]);
        0
    } else {
        let shorter = source.drop_last();
        let earlier = split(shorter, stop);
        lemma_split_len(shorter, stop);
        if source.last() == stop && i == earlier.len() {
            let at = source.len() as int;
            assert(source.subrange(at, at) =~= parts[i]);
            at
        } else {
            let at = lemma_part_stands(shorter, stop, i);
            assert(source.subrange(at, at + earlier[i].len()) =~= shorter.subrange(
                at,
                at + earlier[i].len(),
            ));
            if source.last() != stop && i == earlier.len() - 1 {
                assert(source.subrange(at, source.len() as int) =~= parts[i]);
            }
            at
        }
    }
}

/// The parts into which `stop` splits the characters from `from` on.
pub fn split_parts(chars: &Vec<char>, from: usize, stop: char) -> (parts: Vec<String>)
    requires
        from <= chars@.len(),
    ensures
        texts(parts@) == split(chars@.skip(from as int), stop),
{
    let ghost source = chars@.skip(from as int);
    let mut parts: Vec<String> = Vec::new();
    let mut current = String::new();
    let mut i: usize = from;
    assert(texts(parts@).push(current@) =~= split(source.take(0), stop));
    while i < chars.len()
        invariant
            from <= i <= chars@.len(),
            source == chars@.skip(from as int),
            texts(parts@).push(current@) == split(source.take(i - from), stop),
        decreases chars@.len() - i,
    {
        let ghost above = parts@;
        let ghost earlier = split(source.take(i - from), stop);
        proof {
            let longer = source.take(i + 1 - from);
            assert(longer.drop_last() =~= source.take(i - from));
            assert(longer.last() == chars@[i as int]);
            assert(earlier.last() == current@);
            assert(earlier.drop_last() =~= texts(above));
        }
        if chars[i] == stop {
            parts.push(current);
            current = String::new();
            assert(texts(parts@) =~= earlier);
            assert(current@ =~= Seq::empty());
        } else {
            current.push(chars[i]);
        }
        assert(texts(parts@).push(current@) =~= split(source.take(i + 1 - from), stop));
        i = i + 1;
    }
    assert(source.take(source.len() as int) =~= source);
    let ghost above = parts@;
    let ghost last = current@;
    parts.push(current);
    assert(texts(parts@) =~= texts(above).push(last));
    parts
}

/// Whether the text starts with `prefix`.
pub open spec fn starts_with(source: Seq<char>, prefix: Seq<char>) -> bool {
    prefix.len() <= source.len() && source.take(prefix.len() as int) == prefix
}

/// Whether the characters from `from` on start with `prefix`.
pub fn prefix_at(chars: &Vec<char>, from: usize, prefix: &str) -> (found: bool)
    requires
        from <= chars@.len(),
    ensures
        found == starts_with(chars@.skip(from as int), prefix@),
{
    let wanted = chars_of(prefix);
    let ghost source = chars@.skip(from as int);
    let available: usize = chars.len() - from;
    if wanted.len() > available {
        return false;
    }
    let mut i: usize = 0;
    while i < wanted.len()
        invariant
            available == chars@.len() - from,
            chars@.len() <= usize::MAX,
            0 <= i <= wanted@.len() <= available,
            wanted@ == prefix@,
            source == chars@.skip(from as int),
            source.take(i as int) == prefix@.take(i as int),
        decreases wanted@.len() - i,
    {
        if wanted[i] != chars[from + i] {
            assert(source.take(prefix@.len() as int)[i as int] != prefix@[i as int]);
            return false;
        }
        assert(source.take(i + 1) =~= source.take(i as int).push(source[i as int]));
        assert(prefix@.take(i + 1) =~= prefix@.take(i as int).push(prefix@[i as int]));
        i = i + 1;
    }
    assert(prefix@.take(prefix@.len() as int) =~= prefix@);
    true
}

/// The texts one after the other, with `separator` between them.
pub open spec fn join(list: Seq<Seq<char>>, separator: Seq<char>) -> Seq<char>
    decreases list.len(),
{
    if list.len() == 0 {
        Seq::empty()
    } else if list.len() == 1 {
        list[0]
    } else {
        join(list.drop_last(), separator) + separator + list.last()
    }
}

/// Joins the texts of a list with `separator` between them.
pub fn joined(list: &Vec<String>, separator: &str) -> (text: String)
    ensures
        text@ == join(texts(list@), separator@),
{
    let mut text = String::new();
    let mut i: usize = 0;
    while i < list.len()
        invariant
            0 <= i <= list@.len(),
            text@ == join(texts(list@.take(i as int)), separator@),
        decreases list@.len() - i,
    {
        if i > 0 {
            text.append(separator);
        }
        text.append(list[i].as_str());
        proof {
            let longer = texts(list@.take(i + 1));
            assert(longer.drop_last() =~= texts(list@.take(i as int)));
            assert(longer.last() == list@[i as int]@);
            if i == 0 {
                assert(text@ =~= list@[0]@);
            }
        }
        i = i + 1;
    }
    assert(list@.take(list@.len() as int) =~= list@);
    text
}

/// Whether `part` stands somewhere in `whole`.
pub open spec fn holds(whole: Seq<char>, part: Seq<char>) -> bool {
    exists|before: Seq<char>, after: Seq<char>| whole == #[trigger] (before + part + after)
}

/// What stands in a part stands in the whole.
pub proof fn lemma_holds_inside(whole: Seq<char>, part: Seq<char>, piece: Seq<char>)
    requires
        holds(whole, part),
        holds(part, piece),
    ensures
        holds(whole, piece),
{
    let (before, after) = choose|before: Seq<char>, after: Seq<char>|
        whole == #[trigger] (before + part + after);
    let (start, end) = choose|start: Seq<char>, end: Seq<char>|
        part == #[trigger] (start + piece + end);
    assert(whole =~= (before + start) + piece + (end + after));
}

/// Each text of a list stands in the joined text.
pub proof fn lemma_join_holds(list: Seq<Seq<char>>, separator: Seq<char>, i: int)
    requires
        0 <= i < list.len(),
    ensures
        holds(join(list, separator), list[i]),
    decreases list.len(),
{
    let whole = join(list, separator);
    if list.len() == 1 {
        assert(whole =~= Seq::empty() + list[i] + Seq::empty());
    } else if i == list.len() - 1 {
        let earlier = join(list.drop_last(), separator) + separator;
        assert(whole =~= earlier + list[i] + Seq::empty());
    } else {
        let earlier = join(list.drop_last(), separator);
        lemma_join_holds(list.drop_last(), separator, i);
        assert(list.drop_last()[i] == list[i]);
        assert(whole =~= Seq::empty() + earlier + (separator + list.last()));
        lemma_holds_inside(whole, earlier, list[i]);
    }
}

/// `count` spaces.
pub open spec fn spaces(count: nat) -> Seq<char> {
    Seq::new(count, |i: int| ' ')
}

/// The text filled up with spaces on its right to `width` characters.
pub open spec fn pad_right(text: Seq<char>, width: nat) -> Seq<char> {
    if text.len() < width {
        text + spaces((width - text.len()) as nat)
    } else {
        text
    }
}

/// The number of bytes of the text in UTF-8.
pub open spec fn byte_len(text: Seq<char>) -> nat {
    vstd::utf8::encode_utf8(text).len()
}

/// The largest number of bytes that a text of the list has in UTF-8; none for an empty list.
pub open spec fn widest(list: Seq<Seq<char>>) -> nat
    decreases list.len(),
{
    if list.len() == 0 {
        0
    } else {
        let rest = widest(list.drop_last());
        let last = byte_len(list.last());
        if last > rest {
            last
        } else {
            rest
        }
    }
}

/// No text of the list has more bytes than the widest.
pub proof fn lemma_widest(list: Seq<Seq<char>>, i: int)
    requires
        0 <= i < list.len(),
    ensures
        byte_len(list[i]) <= widest(list),
    decreases list.len(),
{
    if i < list.len() - 1 {
        lemma_widest(list.drop_last(), i);
        assert(list.drop_last()[i] == list[i]);
    }
}

/// A text has at most as many characters as bytes.
pub proof fn lemma_char_count_within_bytes(text: Seq<char>)
    ensures
        text.len() <= byte_len(text),
    decreases text.len(),
{
    if text.len() > 0 {
        lemma_char_count_within_bytes(text.drop_first());
    }
}

/// The largest number of bytes that a text of the list has.
pub fn widest_of(list: &Vec<String>) -> (width: usize)
    ensures
        width == widest(texts(list@)),
{
    let mut width: usize = 0;
    let mut i: usize = 0;
    while i < list.len()
        invariant
            0 <= i <= list@.len(),
            width == widest(texts(list@.take(i as int))),
        decreases list@.len() - i,
    {
        let bytes: usize = list[i].as_str().as_bytes().len();
        proof {
            let longer = texts(list@.take(i + 1));
            assert(longer.drop_last() =~= texts(list@.take(i as int)));
            assert(longer.last() == list@[i as int]@);
        }
        if bytes > width {
            width = bytes;
        }
        i = i + 1;
    }
    assert(list@.take(list@.len() as int) =~= list@);
    width
}

}
