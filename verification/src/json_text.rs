//! The compact text of JSON values, written and read by `serde_json`.

use vstd::prelude::*;

use crate::decimal;
use crate::entries;
use crate::json;
use crate::json::{Json, JsonObject, JsonView};
use crate::text;

verus! {

/// The hexadecimal digit, in lower case, of a number below sixteen.
pub open spec fn hex_digit(value: nat) -> char {
    if value < 10 {
        (48 + value) as u8 as char
    } else {
        (87 + value) as u8 as char
    }
}

/// A character as it stands in a JSON string: quotation marks, backslashes and the control
/// characters below the space are escaped, all others stand for themselves.
pub open spec fn escape_char(ch: char) -> Seq<char> {
    if ch == '"' {
        seq!['\\', '"']
    } else if ch == '\\' {
        seq!['\\', '\\']
    } else if ch == '\u{8}' {
        seq!['\\', 'b']
    } else if ch == '\t' {
        seq!['\\', 't']
    } else if ch == '\n' {
        seq!['\\', 'n']
    } else if ch == '\u{c}' {
        seq!['\\', 'f']
    } else if ch == '\r' {
        seq!['\\', 'r']
    } else if (ch as nat) < 32 {
        seq!['\\', 'u', '0', '0', hex_digit(ch as nat / 16), hex_digit(ch as nat % 16)]
    } else {
        seq![ch]
    }
}

/// The characters of a text, escaped one by one.
pub open spec fn escape(characters: Seq<char>) -> Seq<char>
    decreases characters.len(),
{
    if characters.len() == 0 {
        Seq::empty()
    } else {
        escape(characters.drop_last()) + escape_char(characters.last())
    }
}

/// A text as a JSON string.
pub open spec fn json_string(characters: Seq<char>) -> Seq<char> {
    seq!['"'] + escape(characters) + seq!['"']
}

/// The compact text of a JSON value: no white space stands between its tokens.
pub open spec fn json_text(value: JsonView) -> Seq<char>
    decreases value,
{
    match value {
        JsonView::Null => seq!['n', 'u', 'l', 'l'],
        JsonView::Bool(flag) => if flag {
            seq!['t', 'r', 'u', 'e']
        } else {
            seq!['f', 'a', 'l', 's', 'e']
        },
        JsonView::Number(digits) => digits,
        JsonView::Text(characters) => json_string(characters),
        JsonView::Array(items) => seq!['['] + text::join(item_texts(items), seq![',']) + seq![']'],
        JsonView::Object(members) => seq!['{'] + text::join(member_texts(members), seq![','])
            + seq!['}'],
    }
}

/// The compact texts of the items of an array.
pub open spec fn item_texts(items: Seq<JsonView>) -> Seq<Seq<char>>
    decreases items,
{
    Seq::new(
        items.len(),
        |i: int|
            if 0 <= i < items.len() {
                json_text(items[i])
            } else {
                Seq::empty()
            },
    )
}

/// The compact texts of the members of an object: the key, a colon and the value.
pub open spec fn member_texts(members: Seq<(Seq<char>, JsonView)>) -> Seq<Seq<char>>
    decreases members,
{
    Seq::new(
        members.len(),
        |i: int|
            if 0 <= i < members.len() {
                json_string(members[i].0) + seq![':'] + json_text(members[i].1)
            } else {
                Seq::empty()
            },
    )
}

/// The decimal notation of an integer.
pub open spec fn integer_text(value: int) -> Seq<char> {
    if value < 0 {
        seq!['-'] + decimal::decimal((-value) as nat)
    } else {
        decimal::decimal(value as nat)
    }
}

/// Whether the text is the decimal notation of an integer that fits in 64 bits, with or without a
/// sign.
pub open spec fn is_integer(digits: Seq<char>) -> bool {
    exists|value: int|
        i64::MIN <= value <= u64::MAX && digits == #[trigger] integer_text(value)
}

/// Whether the value is made of nulls, booleans, integers, texts, arrays and objects with distinct
/// keys, with at most `depth` arrays and objects inside each other.
pub open spec fn plain(value: JsonView, depth: nat) -> bool
    decreases value,
{
    match value {
        JsonView::Number(digits) => is_integer(digits),
        JsonView::Array(items) => {
            &&& depth > 0
            &&& forall|i: int|
                0 <= i < items.len() ==> plain(#[trigger] items[i], (depth - 1) as nat)
        },
        JsonView::Object(members) => {
            &&& depth > 0
            &&& entries::distinct_keys(members)
            &&& forall|i: int|
                0 <= i < members.len() ==> plain((#[trigger] members[i]).1, (depth - 1) as nat)
        },
        _ => true,
    }
}

/// Whether no control character below the space stands in the text; line breaks are among these.
pub open spec fn no_control(written: Seq<char>) -> bool {
    forall|i: int| 0 <= i < written.len() ==> (#[trigger] written[i] as nat) >= 32
}

/// Escaping leaves no control character.
pub proof fn lemma_escape_no_control(characters: Seq<char>)
    ensures
        no_control(escape(characters)),
        no_control(json_string(characters)),
    decreases characters.len(),
{
    if characters.len() > 0 {
        lemma_escape_no_control(characters.drop_last());
        assert(no_control(escape_char(characters.last())));
    }
}

/// A joined text holds no control character if none of its parts and not the separator does.
pub proof fn lemma_join_no_control(list: Seq<Seq<char>>, separator: Seq<char>)
    requires
        no_control(separator),
        forall|i: int| 0 <= i < list.len() ==> no_control(#[trigger] list[i]),
    ensures
        no_control(text::join(list, separator)),
    decreases list.len(),
{
    if list.len() > 1 {
        let shorter = list.drop_last();
        assert forall|i: int| 0 <= i < shorter.len() implies no_control(#[trigger] shorter[i]) by {
            assert(shorter[i] == list[i]);
        }
        lemma_join_no_control(shorter, separator);
        assert(no_control(list[list.len() - 1]));
    } else if list.len() == 1 {
        assert(no_control(list[0]));
    }
}

/// The compact text of a value without floating-point numbers stands on one line: it holds no
/// control character.
pub proof fn law_json_text_on_one_line(value: JsonView, depth: nat)
    requires
        plain(value, depth),
    ensures
        no_control(json_text(value)),
    decreases value,
{
    match value {
        JsonView::Number(digits) => {
            let number = choose|number: int|
                i64::MIN <= number <= u64::MAX && digits == #[trigger] integer_text(number);
            let magnitude = if number < 0 {
                decimal::decimal((-number) as nat)
            } else {
                decimal::decimal(number as nat)
            };
            decimal::lemma_decimal_value(
                if number < 0 {
                    (-number) as nat
                } else {
                    number as nat
                },
            );
            assert forall|i: int| 0 <= i < digits.len() implies (#[trigger] digits[i] as nat)
                >= 32 by {
                if number < 0 && i > 0 {
                    assert(decimal::is_digit(magnitude[i - 1]));
                } else if number >= 0 {
                    assert(decimal::is_digit(magnitude[i]));
                }
            }
        },
        JsonView::Null => {},
        JsonView::Bool(_) => {},
        JsonView::Text(characters) => {
            lemma_escape_no_control(characters);
        },
        JsonView::Array(items) => {
            let parts = item_texts(items);
            assert forall|i: int| 0 <= i < parts.len() implies no_control(#[trigger] parts[i]) by {
                law_json_text_on_one_line(items[i], (depth - 1) as nat);
            }
            lemma_join_no_control(parts, seq![',']);
        },
        JsonView::Object(members) => {
            let parts = member_texts(members);
            assert forall|i: int| 0 <= i < parts.len() implies no_control(#[trigger] parts[i]) by {
                assert(decreases_to!(value => members));
                assert(decreases_to!(members => members[i]));
                assert(decreases_to!(members[i] => members[i].1));
                lemma_escape_no_control(members[i].0);
                law_json_text_on_one_line(members[i].1, (depth - 1) as nat);
            }
            lemma_join_no_control(parts, seq![',']);
        },
    }
}

/// Whether no character of the text needs an escape in a JSON string.
pub open spec fn needs_no_escape(characters: Seq<char>) -> bool {
    forall|i: int|
        0 <= i < characters.len() ==> (#[trigger] characters[i] as nat) >= 32 && characters[i]
            != '"' && characters[i] != '\\'
}

/// A text of characters that need no escape stands in its JSON string as it is.
pub proof fn law_json_string_verbatim(characters: Seq<char>)
    requires
        needs_no_escape(characters),
    ensures
        json_string(characters) == seq!['"'] + characters + seq!['"'],
    decreases characters.len(),
{
    if characters.len() > 0 {
        let shorter = characters.drop_last();
        assert(needs_no_escape(shorter));
        law_json_string_verbatim(shorter);
        assert(escape(shorter) =~= json_string(shorter).subrange(1, shorter.len() as int + 1));
        assert(escape(shorter) =~= shorter);
        assert(escape_char(characters.last()) =~= seq![characters.last()]);
        assert(shorter + seq![characters.last()] =~= characters);
    } else {
        assert(json_string(characters) =~= seq!['"'] + characters + seq!['"']);
    }
}

/// A JSON value as `serde_json` holds it.
#[verifier::external_type_specification]
#[verifier::external_body]
pub struct ExValue(serde_json::Value);

/// The map in which `serde_json` holds the members of an object.
#[verifier::external_type_specification]
#[verifier::external_body]
#[verifier::reject_recursive_types(K)]
#[verifier::reject_recursive_types(V)]
pub struct ExMap<K, V>(serde_json::Map<K, V>);

/// The error with which `serde_json` refuses a text.
#[verifier::external_type_specification]
#[verifier::external_body]
pub struct ExError(serde_json::Error);

/// What a value of `serde_json` holds.
pub uninterp spec fn value_contents(value: serde_json::Value) -> JsonView;

/// The entries of a map of `serde_json`, in the order in which it walks them.
pub uninterp spec fn map_contents(map: serde_json::Map<String, serde_json::Value>) -> Seq<
    (Seq<char>, JsonView),
>;

/// The value that `serde_json` reads from a text, if it accepts the text.
pub uninterp spec fn parse_result(source: Seq<char>) -> Option<JsonView>;

/// What the values of a list hold.
pub open spec fn list_contents(list: Seq<serde_json::Value>) -> Seq<JsonView> {
    Seq::new(list.len(), |i: int| value_contents(list[i]))
}

/// What the entries of a list hold.
pub open spec fn pair_contents(pairs: Seq<(String, serde_json::Value)>) -> Seq<
    (Seq<char>, JsonView),
> {
    Seq::new(pairs.len(), |i: int| (pairs[i].0@, value_contents(pairs[i].1)))
}

/// The variants of `serde_json::Value`, with what each holds.
pub enum ValueParts {
    Null,
    Bool(bool),
    Number(serde_json::Number),
    Text(String),
    Array(Vec<serde_json::Value>),
    Object(serde_json::Map<String, serde_json::Value>),
}

/// The constructors of `serde_json::Value`: the value is of the variant named, and holds what
/// the variant is given.
#[verifier::external_body]
fn assemble(parts: ValueParts) -> (value: serde_json::Value)
    ensures
        parts is Null ==> value_contents(value) == JsonView::Null,
        parts matches ValueParts::Bool(flag) ==> value_contents(value) == JsonView::Bool(flag),
        parts matches ValueParts::Number(number) ==> value_contents(value) == JsonView::Number(
            json::number_text(number),
        ),
        parts matches ValueParts::Text(string) ==> value_contents(value) == JsonView::Text(string@),
        parts matches ValueParts::Array(items) ==> value_contents(value) == JsonView::Array(
            list_contents(items@),
        ),
        parts matches ValueParts::Object(map) ==> value_contents(value) == JsonView::Object(
            map_contents(map),
        ),
{
    match parts {
        ValueParts::Null => serde_json::Value::Null,
        ValueParts::Bool(flag) => serde_json::Value::Bool(flag),
        ValueParts::Number(number) => serde_json::Value::Number(number),
        ValueParts::Text(string) => serde_json::Value::String(string),
        ValueParts::Array(items) => serde_json::Value::Array(items),
        ValueParts::Object(map) => serde_json::Value::Object(map),
    }
}

/// The variants of `serde_json::Value`, taken apart: the parts name the variant of the value and
/// hold what it holds.
#[verifier::external_body]
fn take_apart(value: serde_json::Value) -> (parts: ValueParts)
    ensures
        value_contents(value) == (match parts {
            ValueParts::Null => JsonView::Null,
            ValueParts::Bool(flag) => JsonView::Bool(flag),
            ValueParts::Number(number) => JsonView::Number(json::number_text(number)),
            ValueParts::Text(string) => JsonView::Text(string@),
            ValueParts::Array(items) => JsonView::Array(list_contents(items@)),
            ValueParts::Object(map) => JsonView::Object(map_contents(map)),
        }),
{
    match value {
        serde_json::Value::Null => ValueParts::Null,
        serde_json::Value::Bool(flag) => ValueParts::Bool(flag),
        serde_json::Value::Number(number) => ValueParts::Number(number),
        serde_json::Value::String(string) => ValueParts::Text(string),
        serde_json::Value::Array(items) => ValueParts::Array(items),
        serde_json::Value::Object(map) => ValueParts::Object(map),
    }
}

/// `serde_json::Map::new`: the map has no entries.
#[verifier::external_body]
fn empty_map() -> (map: serde_json::Map<String, serde_json::Value>)
    ensures
        map_contents(map) == Seq::<(Seq<char>, JsonView)>::empty(),
{
    serde_json::Map::new()
}

/// `serde_json::Map::insert` with the order of insertion preserved: the value takes the place of
/// what the key held, or else stands behind all other entries.
#[verifier::external_body]
fn insert_into_map(
    map: &mut serde_json::Map<String, serde_json::Value>,
    key: String,
    value: serde_json::Value,
)
    ensures
        map_contents(*final(map)) == entries::put(
            map_contents(*old(map)),
            key@,
            value_contents(value),
        ),
{
    map.insert(key, value);
}

/// `serde_json::Map::into_iter`: it hands out the entries in order, and no key twice.
#[verifier::external_body]
fn map_entries(map: serde_json::Map<String, serde_json::Value>) -> (pairs: Vec<
    (String, serde_json::Value),
>)
    ensures
        pair_contents(pairs@) == map_contents(map),
        entries::distinct_keys(pair_contents(pairs@)),
{
    map.into_iter().collect()
}

/// `serde_json::Value::to_string`: the compact text of the value. `serde_json::from_str` gives a
/// value back from it that has no floating-point numbers, distinct keys and no deeper nesting than
/// the parser allows.
#[verifier::external_body]
fn value_to_text(value: &serde_json::Value) -> (compact: String)
    ensures
        compact@ == json_text(value_contents(*value)),
        plain(value_contents(*value), 127) ==> parse_result(compact@) == Some(
            value_contents(*value),
        ),
{
    value.to_string()
}

/// `serde_json::from_str` into a `serde_json::Value`: what comes back depends on the text alone;
/// and of a value without floating-point numbers, with distinct keys and nested no deeper than the
/// parser allows, the compact text is accepted and gives the value back. What the parser makes of other
/// texts is not described further.
#[verifier::external_body]
fn value_from_text(source: &str) -> (value: Result<serde_json::Value, serde_json::Error>)
    ensures
        parse_result(source@) == (match value {
            Ok(found) => Some(value_contents(found)),
            Err(_) => None,
        }),
        forall|written: JsonView|
            plain(written, 127) && source@ == #[trigger] json_text(written) ==> (value is Ok
                && value_contents(value->Ok_0) == written),
{
    serde_json::from_str(source)
}

/// Hands a value over to `serde_json`.
fn to_value(value: &Json) -> (converted: serde_json::Value)
    ensures
        value_contents(converted) == value@,
    decreases value@,
{
    match value {
        Json::Null => assemble(ValueParts::Null),
        Json::Bool(flag) => assemble(ValueParts::Bool(*flag)),
        Json::Number(number) => assemble(ValueParts::Number(number.clone())),
        Json::Text(string) => assemble(ValueParts::Text(string.clone())),
        Json::Array(items) => {
            let mut converted: Vec<serde_json::Value> = Vec::new();
            let mut i: usize = 0;
            while i < items.len()
                invariant
                    0 <= i <= items@.len(),
                    converted@.len() == i,
                    value == Json::Array(*items),
                    forall|j: int|
                        0 <= j < i ==> value_contents(#[trigger] converted@[j]) == items@[j]@,
                decreases items@.len() - i,
            {
                assert(decreases_to!(value@ => value@->Array_0));
                assert(decreases_to!(value@->Array_0 => value@->Array_0[i as int]));
                converted.push(to_value(&items[i]));
                i = i + 1;
            }
            assert(list_contents(converted@) =~= value@->Array_0);
            assemble(ValueParts::Array(converted))
        },
        Json::Object(object) => {
            assert(decreases_to!(value@ => value@->Object_0));
            let map = to_map(object);
            assemble(ValueParts::Object(map))
        },
    }
}

/// Hands the members of an object over to `serde_json`.
fn to_map(object: &JsonObject) -> (map: serde_json::Map<String, serde_json::Value>)
    ensures
        map_contents(map) == object@,
    decreases object@,
{
    let mut map = empty_map();
    let members = object.members();
    let mut i: usize = 0;
    while i < members.len()
        invariant
            0 <= i <= members@.len(),
            json::member_views(members@) == object@,
            entries::distinct_keys(object@),
            map_contents(map) == object@.take(i as int),
        decreases members@.len() - i,
    {
        let ghost done = object@.take(i as int);
        assert(decreases_to!(object@ => object@[i as int]));
        assert(decreases_to!(object@[i as int] => object@[i as int].1));
        let value = to_value(&members[i].1);
        let key = members[i].0.clone();
        proof {
            assert(object@[i as int] == (members@[i as int].0@, members@[i as int].1@));
            assert forall|j: int| 0 <= j < done.len() implies (#[trigger] done[j]).0 != key@ by {
                assert(object@[j].0 != object@[i as int].0);
            }
            entries::lemma_put_absent(done, key@, value_contents(value));
            assert(done.push(object@[i as int]) =~= object@.take(i + 1));
        }
        insert_into_map(&mut map, key, value);
        i = i + 1;
    }
    assert(object@.take(object@.len() as int) =~= object@);
    map
}

/// Takes a value over from `serde_json`.
fn from_value(value: serde_json::Value) -> (converted: Json)
    ensures
        converted@ == value_contents(value),
    decreases value_contents(value),
{
    match take_apart(value) {
        ValueParts::Null => Json::Null,
        ValueParts::Bool(flag) => Json::Bool(flag),
        ValueParts::Number(number) => Json::Number(number),
        ValueParts::Text(string) => Json::Text(string),
        ValueParts::Array(items) => {
            let ghost contents = list_contents(items@);
            let mut converted: Vec<Json> = Vec::new();
            for item in it: items.into_iter()
                invariant
                    it.seq() == items@,
                    contents == list_contents(items@),
                    value_contents(value) == JsonView::Array(contents),
                    converted@.len() == it.index(),
                    forall|j: int|
                        0 <= j < it.index() ==> (#[trigger] converted@[j])@ == contents[j],
            {
                assert(decreases_to!(value_contents(value) => value_contents(value)->Array_0));
                assert(decreases_to!(contents => contents[it.index() as int]));
                assert(contents[it.index() as int] == value_contents(item));
                converted.push(from_value(item));
            }
            let array = Json::Array(converted);
            assert(array@->Array_0 =~= contents);
            array
        },
        ValueParts::Object(map) => {
            let ghost contents = map_contents(map);
            let pairs = map_entries(map);
            let mut object = JsonObject::new();
            for pair in it: pairs.into_iter()
                invariant
                    it.seq() == pairs@,
                    contents == pair_contents(pairs@),
                    entries::distinct_keys(contents),
                    value_contents(value) == JsonView::Object(contents),
                    object@ == contents.take(it.index() as int),
            {
                let ghost i = it.index() as int;
                let ghost done = contents.take(i);
                assert(decreases_to!(value_contents(value) => value_contents(value)->Object_0));
                assert(decreases_to!(contents => contents[i]));
                assert(decreases_to!(contents[i] => contents[i].1));
                assert(contents[i] == (pair.0@, value_contents(pair.1)));
                let key = pair.0;
                let member = from_value(pair.1);
                proof {
                    assert forall|j: int| 0 <= j < done.len() implies (#[trigger] done[j]).0
                        != key@ by {
                        assert(contents[j].0 != contents[i].0);
                    }
                    entries::lemma_put_absent(done, key@, member@);
                    assert(done.push(contents[i]) =~= contents.take(i + 1));
                }
                object.insert(key, member);
            }
            assert(contents.take(contents.len() as int) =~= contents);
            Json::Object(object)
        },
    }
}

/// Writes a value as compact JSON, from which a value without floating-point numbers is read
/// back.
pub fn print_json(value: &Json) -> (compact: String)
    ensures
        compact@ == json_text(value@),
        plain(value@, 127) ==> parse_result(compact@) == Some(value@),
{
    let converted = to_value(value);
    value_to_text(&converted)
}

/// Reads a JSON value, if the text holds one.
pub fn parse_json(source: &str) -> (value: Option<Json>)
    ensures
        parse_result(source@) == (match value {
            Some(found) => Some(found@),
            None => None,
        }),
        forall|written: JsonView|
            plain(written, 127) && source@ == #[trigger] json_text(written) ==> parse_result(
                source@,
            ) == Some(written),
{
    match value_from_text(source) {
        Ok(found) => Some(from_value(found)),
        Err(_) => None,
    }
}

}
