//! Names of tools and properties as they are written in generated modules.

use vstd::prelude::*;

use crate::letters;
use crate::text;

verus! {

/// Whether the character separates words in the name of a tool.
pub open spec fn separates_words(ch: char) -> bool {
    ch == '-' || ch == ' ' || ch == '_'
}

/// What the last character of a name adds to its snake-case form. Hyphens and spaces become
/// underscores, one for a run of separators; a capital letter becomes a small one, behind an
/// underscore unless a separator or nothing stands before it.
pub open spec fn snake_piece(name: Seq<char>) -> Seq<char> {
    let ch = name.last();
    let underscore = if name.len() > 1 && !separates_words(name[name.len() - 2]) {
        seq!['_']
    } else {
        Seq::empty()
    };
    if ch == '-' || ch == ' ' {
        underscore
    } else if letters::is_capital(ch) {
        underscore.push(letters::to_small(ch))
    } else {
        seq![ch]
    }
}

/// The snake-case form of a name.
pub open spec fn snake_case(name: Seq<char>) -> Seq<char>
    decreases name.len(),
{
    if name.len() == 0 {
        Seq::empty()
    } else {
        snake_case(name.drop_last()) + snake_piece(name)
    }
}

/// Whether a name holds no hyphen, no space and no capital letter of ASCII.
pub open spec fn is_snake_case(name: Seq<char>) -> bool {
    forall|i: int|
        0 <= i < name.len() ==> {
            &&& !letters::is_capital(#[trigger] name[i])
            &&& name[i] != '-'
            &&& name[i] != ' '
        }
}

/// Every snake-case form is in snake case.
pub proof fn law_snake_case(name: Seq<char>)
    ensures
        is_snake_case(snake_case(name)),
    decreases name.len(),
{
    if name.len() > 0 {
        law_snake_case(name.drop_last());
        let head = snake_case(name.drop_last());
        let piece = snake_piece(name);
        let whole = snake_case(name);
        assert forall|i: int| 0 <= i < whole.len() implies {
            &&& !letters::is_capital(#[trigger] whole[i])
            &&& whole[i] != '-'
            &&& whole[i] != ' '
        } by {
            if i < head.len() {
                assert(whole[i] == head[i]);
            } else {
                assert(whole[i] == piece[i - head.len()]);
            }
        }
    }
}

/// A name in snake case is its own snake-case form.
pub proof fn law_snake_case_is_stable(name: Seq<char>)
    requires
        is_snake_case(name),
    ensures
        snake_case(name) == name,
    decreases name.len(),
{
    if name.len() > 0 {
        let before = name.drop_last();
        assert forall|i: int| 0 <= i < before.len() implies {
            &&& !letters::is_capital(#[trigger] before[i])
            &&& before[i] != '-'
            &&& before[i] != ' '
        } by {
            assert(before[i] == name[i]);
        }
        law_snake_case_is_stable(before);
        assert(!letters::is_capital(name[name.len() - 1]));
        assert(snake_case(name) =~= name);
    } else {
        assert(snake_case(name) =~= name);
    }
}

/// The name of a tool or property in a Python module.
pub fn to_snake_case(name: &str) -> (output: String)
    ensures
        output@ == snake_case(name@),
{
    let chars = text::chars_of(name);
    let mut output = String::new();
    let mut previous_was_separator = false;
    let mut i: usize = 0;
    while i < chars.len()
        invariant
            0 <= i <= chars@.len(),
            chars@ == name@,
            output@ == snake_case(name@.take(i as int)),
            previous_was_separator == (i > 0 && separates_words(name@[i - 1])),
        decreases chars@.len() - i,
    {
        let ch = chars[i];
        let ghost before = output@;
        if ch == '-' || ch == ' ' {
            if i > 0 && !previous_was_separator {
                output.push('_');
            }
            previous_was_separator = true;
        } else if letters::capital(ch) {
            if i > 0 && !previous_was_separator {
                output.push('_');
            }
            output.push(letters::small(ch));
            previous_was_separator = false;
        } else {
            output.push(ch);
            previous_was_separator = ch == '_';
        }
        proof {
            let longer = name@.take(i + 1);
            assert(longer.drop_last() =~= name@.take(i as int));
            assert(longer.last() == ch);
            assert(i > 0 ==> longer[longer.len() - 2] == name@[i - 1]);
            assert(output@ =~= before + snake_piece(longer));
        }
        i = i + 1;
    }
    assert(name@.take(name@.len() as int) =~= name@);
    output
}

/// What the last character of a name adds to its camel-case form: underscores and hyphens are
/// dropped, and the character behind one is put in upper case.
pub open spec fn camel_piece(name: Seq<char>) -> Seq<char> {
    let ch = name.last();
    if ch == '_' || ch == '-' {
        Seq::empty()
    } else if name.len() > 1 && (name[name.len() - 2] == '_' || name[name.len() - 2] == '-') {
        letters::upper_case(ch)
    } else {
        seq![ch]
    }
}

/// The camel-case form of a name.
pub open spec fn camel_case(name: Seq<char>) -> Seq<char>
    decreases name.len(),
{
    if name.len() == 0 {
        Seq::empty()
    } else {
        camel_case(name.drop_last()) + camel_piece(name)
    }
}

/// What the last character of a name of ASCII adds to its camel-case form.
pub open spec fn ascii_camel_piece(name: Seq<char>) -> Seq<char> {
    let ch = name.last();
    if ch == '_' || ch == '-' {
        Seq::empty()
    } else if name.len() > 1 && (name[name.len() - 2] == '_' || name[name.len() - 2] == '-') {
        seq![letters::to_capital(ch)]
    } else {
        seq![ch]
    }
}

/// The camel-case form of a name of ASCII.
pub open spec fn ascii_camel_case(name: Seq<char>) -> Seq<char>
    decreases name.len(),
{
    if name.len() == 0 {
        Seq::empty()
    } else {
        ascii_camel_case(name.drop_last()) + ascii_camel_piece(name)
    }
}

/// The camel-case form of a name of ASCII holds no underscore and no hyphen.
pub proof fn law_ascii_camel_case(name: Seq<char>)
    ensures
        forall|i: int|
            0 <= i < ascii_camel_case(name).len() ==> (#[trigger] ascii_camel_case(name)[i]) != '_'
                && ascii_camel_case(name)[i] != '-',
    decreases name.len(),
{
    if name.len() > 0 {
        law_ascii_camel_case(name.drop_last());
        let head = ascii_camel_case(name.drop_last());
        let whole = ascii_camel_case(name);
        assert forall|i: int| 0 <= i < whole.len() implies (#[trigger] whole[i]) != '_' && whole[i]
            != '-' by {
            if i < head.len() {
                assert(whole[i] == head[i]);
            } else {
                assert(whole[i] == ascii_camel_piece(name)[i - head.len()]);
            }
        }
    }
}

/// A name without underscores and hyphens is its own camel-case form.
pub proof fn law_camel_case_is_stable(name: Seq<char>)
    requires
        forall|i: int| 0 <= i < name.len() ==> (#[trigger] name[i]) != '_' && name[i] != '-',
    ensures
        camel_case(name) == name,
    decreases name.len(),
{
    if name.len() > 0 {
        let before = name.drop_last();
        assert forall|i: int| 0 <= i < before.len() implies (#[trigger] before[i]) != '_'
            && before[i] != '-' by {
            assert(before[i] == name[i]);
        }
        law_camel_case_is_stable(before);
        assert(name[name.len() - 1] != '_');
        if name.len() > 1 {
            assert(name[name.len() - 2] != '_');
        }
        assert(camel_case(name) =~= name);
    } else {
        assert(camel_case(name) =~= name);
    }
}

/// The name with underscores in the place of its hyphens.
pub open spec fn with_underscores(name: Seq<char>) -> Seq<char> {
    name.map_values(
        |ch: char|
            if ch == '-' {
                '_'
            } else {
                ch
            },
    )
}

/// Hyphens count as underscores.
pub proof fn law_camel_case_of_hyphens(name: Seq<char>)
    ensures
        camel_case(with_underscores(name)) == camel_case(name),
    decreases name.len(),
{
    let replaced = with_underscores(name);
    if name.len() > 0 {
        law_camel_case_of_hyphens(name.drop_last());
        assert(replaced.drop_last() =~= with_underscores(name.drop_last()));
        assert(camel_piece(replaced) == camel_piece(name));
    } else {
        assert(replaced =~= name);
    }
}

/// The name of a tool in a TypeScript module: it holds no underscore and no hyphen, and is its own
/// camel-case form.
pub fn snake_to_camel(name: &str) -> (output: String)
    ensures
        output@ == camel_case(name@),
        !output@.contains('_'),
        !output@.contains('-'),
        camel_case(output@) == output@,
        (forall|i: int| 0 <= i < name@.len() ==> (#[trigger] name@[i]) as nat <= 127) ==> output@
            == ascii_camel_case(name@),
{
    let ghost ascii = forall|i: int| 0 <= i < name@.len() ==> (#[trigger] name@[i]) as nat <= 127;
    let chars = text::chars_of(name);
    let mut output = String::new();
    let mut uppercase_next = false;
    let mut i: usize = 0;
    while i < chars.len()
        invariant
            0 <= i <= chars@.len(),
            chars@ == name@,
            output@ == camel_case(name@.take(i as int)),
            forall|j: int|
                0 <= j < output@.len() ==> (#[trigger] output@[j]) != '_' && output@[j] != '-',
            ascii == (forall|i: int|
                0 <= i < name@.len() ==> (#[trigger] name@[i]) as nat <= 127),
            ascii ==> output@ == ascii_camel_case(name@.take(i as int)),
            uppercase_next == (i > 0 && (name@[i - 1] == '_' || name@[i - 1] == '-')),
        decreases chars@.len() - i,
    {
        let ch = chars[i];
        let ghost before = output@;
        if ch == '_' || ch == '-' {
            uppercase_next = true;
        } else if uppercase_next {
            let mapped = letters::upper_case_of(ch);
            output.append(mapped.as_str());
            uppercase_next = false;
            assert forall|j: int| 0 <= j < output@.len() implies (#[trigger] output@[j]) != '_'
                && output@[j] != '-' by {
                if j >= before.len() {
                    assert(mapped@.contains(mapped@[j - before.len()]));
                }
            }
        } else {
            output.push(ch);
        }
        proof {
            let longer = name@.take(i + 1);
            assert(longer.drop_last() =~= name@.take(i as int));
            assert(longer.last() == ch);
            assert(i > 0 ==> longer[longer.len() - 2] == name@[i - 1]);
            assert(output@ =~= before + camel_piece(longer));
            assert(ascii ==> output@ =~= before + ascii_camel_piece(longer));
        }
        i = i + 1;
    }
    assert(name@.take(name@.len() as int) =~= name@);
    proof {
        law_camel_case_is_stable(output@);
    }
    output
}

}
