//! Texts: joining, splitting, columns, white space and numbers.

use vstd::prelude::*;

use crate::decimal;
use crate::decimal::decimal_text;
use crate::sorted_map;
use crate::sorted_map::comes_before;
use crate::text;
use crate::text::{joined, split_parts, white_space, widest_of};

verus! {

/// No texts joined are the empty text, and one more text comes behind the separator, unless it is
/// the first.
pub proof fn law_joined_grows(
    list: &Vec<String>,
    longer: &Vec<String>,
    added: String,
    separator: &str,
    whole: String,
    grown: String,
)
    requires
        longer@ == list@.push(added),
        call_ensures(joined, (list, separator), whole),
        call_ensures(joined, (longer, separator), grown),
    ensures
        list@.len() == 0 ==> whole@.len() == 0 && grown@ == added@,
        list@.len() > 0 ==> grown@ == whole@ + separator@ + added@,
{
    let texts = text::texts(longer@);
    assert(texts.drop_last() =~= text::texts(list@));
    assert(texts.last() == added@);
    if list@.len() == 0 {
        assert(texts[0] == added@);
    }
}

/// The parts joined are the text.
pub proof fn lemma_split_join(source: Seq<char>, stop: char)
    ensures
        text::split(source, stop).len() > 0,
        text::join(text::split(source, stop), seq![stop]) == source,
        forall|i: int|
            0 <= i < text::split(source, stop).len() ==> !(#[trigger] text::split(
                source,
                stop,
            )[i]).contains(stop),
    decreases source.len(),
{
    let parts = text::split(source, stop);
    if source.len() == 0 {
        assert(source =~= Seq::empty());
    } else {
        let shorter = source.drop_last();
        lemma_split_join(shorter, stop);
        let earlier = text::split(shorter, stop);
        assert(source =~= shorter.push(source.last()));
        if source.last() == stop {
            assert(parts.drop_last() =~= earlier);
            assert(text::join(parts, seq![stop]) =~= source);
        } else {
            let front = earlier.drop_last();
            assert(parts.drop_last() =~= front);
            assert(parts.last() == earlier.last().push(source.last()));
            if earlier.len() == 1 {
                assert(text::join(parts, seq![stop]) =~= source);
            } else {
                assert(text::join(parts, seq![stop]) =~= text::join(front, seq![stop])
                    + seq![stop] + earlier.last().push(source.last()));
                assert(text::join(parts, seq![stop]) =~= source);
            }
            assert forall|i: int| 0 <= i < parts.len() implies !(
            #[trigger] parts[i]).contains(stop) by {
                if i < front.len() {
                    assert(parts[i] == earlier[i]);
                } else {
                    let last = earlier.last();
                    assert(!earlier[earlier.len() - 1].contains(stop));
                    assert forall|k: int| 0 <= k < parts[i].len() implies parts[i][k] != stop by {
                        if k < last.len() {
                            assert(last.contains(last[k]));
                        }
                    }
                }
            }
        }
    }
}

/// The parts of a text hold no `stop`, and joined with it they are the text.
pub proof fn law_split(
    chars: &Vec<char>,
    from: usize,
    stop: char,
    separator: &str,
    parts: Vec<String>,
    whole: String,
)
    requires
        from <= chars@.len(),
        separator@ == seq![stop],
        call_ensures(split_parts, (chars, from, stop), parts),
        call_ensures(joined, (&parts, separator), whole),
    ensures
        parts@.len() > 0,
        forall|i: int| 0 <= i < parts@.len() ==> !(#[trigger] parts@[i])@.contains(stop),
        whole@ == chars@.skip(from as int),
{
    let source = chars@.skip(from as int);
    lemma_split_join(source, stop);
    assert(text::texts(parts@).len() == parts@.len());
    assert forall|i: int| 0 <= i < parts@.len() implies !(#[trigger] parts@[i])@.contains(
        stop,
    ) by {
        assert(text::texts(parts@)[i] == parts@[i]@);
    }
}

/// The width of a column is the number of bytes of one of its texts, and none has more; a column
/// without texts has no width.
pub proof fn law_widest(list: &Vec<String>, width: usize)
    requires
        call_ensures(widest_of, (list,), width),
    ensures
        list@.len() == 0 ==> width == 0,
        forall|i: int|
            0 <= i < list@.len() ==> vstd::utf8::encode_utf8((#[trigger] list@[i])@).len()
                <= width,
        list@.len() > 0 ==> exists|i: int|
            0 <= i < list@.len() && vstd::utf8::encode_utf8((#[trigger] list@[i])@).len() == width,
{
    let texts = text::texts(list@);
    assert forall|i: int| 0 <= i < list@.len() implies vstd::utf8::encode_utf8(
        (#[trigger] list@[i])@,
    ).len() <= width by {
        text::lemma_widest(texts, i);
        assert(texts[i] == list@[i]@);
    }
    if list@.len() > 0 {
        let i = lemma_widest_is_one(texts);
        assert(texts[i] == list@[i]@);
    }
}

/// The widest text is one of the texts.
proof fn lemma_widest_is_one(list: Seq<Seq<char>>) -> (at: int)
    requires
        list.len() > 0,
    ensures
        0 <= at < list.len(),
        text::byte_len(list[at]) == text::widest(list),
    decreases list.len(),
{
    let last = list.len() - 1;
    reveal_with_fuel(text::widest, 2);
    if text::widest(list) == text::byte_len(list[last]) {
        last
    } else {
        assert(list.drop_last().len() > 0);
        let at = lemma_widest_is_one(list.drop_last());
        assert(list.drop_last()[at] == list[at]);
        at
    }
}

/// White space is what Unicode calls so, by its code points.
pub proof fn law_white_space(ch: char, white: bool)
    requires
        call_ensures(white_space, (ch,), white),
    ensures
        white == ({
            let code = ch as nat;
            ||| 9 <= code <= 13
            ||| code == 32
            ||| code == 133
            ||| code == 160
            ||| code == 5760
            ||| 8192 <= code <= 8202
            ||| code == 8232
            ||| code == 8233
            ||| code == 8239
            ||| code == 8287
            ||| code == 12288
        }),
{
}

/// A number below ten is written as its digit, and any other as its tenth with one more digit.
pub proof fn law_decimal_grows(value: u32, tenth: u32, written: String, shorter: String)
    requires
        tenth == value / 10,
        call_ensures(decimal_text, (value,), written),
        call_ensures(decimal_text, (tenth,), shorter),
    ensures
        written@.len() > 0,
        written@.last() as nat == 48 + value % 10,
        value < 10 ==> written@.len() == 1,
        value >= 10 ==> written@.drop_last() == shorter@,
{
    if value >= 10 {
        assert(decimal::decimal(value as nat) == decimal::decimal(value as nat / 10).push(
            decimal::digit(value as nat % 10),
        ));
        assert(written@.drop_last() =~= shorter@);
    }
}

/// One text comes before another if it is a shorter start of the other, or if its character at the
/// first difference comes first.
pub proof fn law_text_order(left: &str, right: &str, before: bool)
    requires
        call_ensures(comes_before, (left, right), before),
    ensures
        before <==> exists|common: int|
            {
                &&& 0 <= common <= left@.len() && common < right@.len()
                &&& #[trigger] left@.take(common) == right@.take(common)
                &&& common == left@.len() || left@[common] < right@[common]
            },
{
    lemma_text_order(left@, right@);
}

/// The order of texts by their first difference.
proof fn lemma_text_order(left: Seq<char>, right: Seq<char>)
    ensures
        sorted_map::text_before(left, right) <==> exists|common: int|
            {
                &&& 0 <= common <= left.len() && common < right.len()
                &&& #[trigger] left.take(common) == right.take(common)
                &&& common == left.len() || left[common] < right[common]
            },
    decreases left.len(),
{
    if right.len() > 0 {
        if left.len() == 0 || left[0] != right[0] {
            assert(left.take(0) =~= right.take(0));
            if exists|common: int|
                {
                    &&& 0 <= common <= left.len() && common < right.len()
                    &&& #[trigger] left.take(common) == right.take(common)
                    &&& common == left.len() || left[common] < right[common]
                } {
                let common = choose|common: int|
                    {
                        &&& 0 <= common <= left.len() && common < right.len()
                        &&& #[trigger] left.take(common) == right.take(common)
                        &&& common == left.len() || left[common] < right[common]
                    };
                if common > 0 {
                    assert(left.take(common)[0] == right.take(common)[0]);
                }
            }
        } else {
            let l = left.skip(1);
            let r = right.skip(1);
            lemma_text_order(l, r);
            if sorted_map::text_before(l, r) {
                let common = choose|common: int|
                    {
                        &&& 0 <= common <= l.len() && common < r.len()
                        &&& #[trigger] l.take(common) == r.take(common)
                        &&& common == l.len() || l[common] < r[common]
                    };
                assert(left.take(common + 1) =~= seq![left[0]] + l.take(common));
                assert(right.take(common + 1) =~= seq![right[0]] + r.take(common));
            }
            if exists|common: int|
                {
                    &&& 0 <= common <= left.len() && common < right.len()
                    &&& #[trigger] left.take(common) == right.take(common)
                    &&& common == left.len() || left[common] < right[common]
                } {
                let common = choose|common: int|
                    {
                        &&& 0 <= common <= left.len() && common < right.len()
                        &&& #[trigger] left.take(common) == right.take(common)
                        &&& common == left.len() || left[common] < right[common]
                    };
                assert(common > 0);
                assert(l.take(common - 1) =~= left.take(common).skip(1));
                assert(r.take(common - 1) =~= right.take(common).skip(1));
            }
        }
    }
}

}
