//! Names of tools and properties as they are typed on a command line.

use vstd::prelude::*;

use crate::letters;
use crate::text;

verus! {

/// Whether the character separates the words of a name.
pub open spec fn is_separator(ch: char) -> bool {
    ch == '_' || ch == '-' || ch == ' '
}

/// What the last character of a name adds to its kebab-case form. A hyphen stands between two
/// words, whether a separator or a capital letter parts them.
pub open spec fn kebab_piece(name: Seq<char>) -> Seq<char> {
    let ch = name.last();
    let hyphen = if name.len() > 1 && !is_separator(name[name.len() - 2]) {
        seq!['-']
    } else {
        Seq::empty()
    };
    if is_separator(ch) {
        hyphen
    } else if letters::is_capital(ch) {
        hyphen.push(letters::to_small(ch))
    } else {
        seq![ch]
    }
}

/// The kebab-case form of a name.
pub open spec fn kebab_case(name: Seq<char>) -> Seq<char>
    decreases name.len(),
{
    if name.len() == 0 {
        Seq::empty()
    } else {
        kebab_case(name.drop_last()) + kebab_piece(name)
    }
}

/// Whether a name is in kebab case: small letters and other characters, and single hyphens
/// inside or at the end.
pub open spec fn is_kebab_case(name: Seq<char>) -> bool {
    forall|i: int|
        0 <= i < name.len() ==> {
            &&& !letters::is_capital(#[trigger] name[i])
            &&& name[i] != '_'
            &&& name[i] != ' '
            &&& name[i] == '-' ==> i > 0 && name[i - 1] != '-'
        }
}

/// A name has a non-empty kebab-case form that does not end in a hyphen, if it does not end in a
/// separator; and every kebab-case form is in kebab case.
proof fn lemma_kebab_case(name: Seq<char>)
    ensures
        is_kebab_case(kebab_case(name)),
        name.len() > 0 && !is_separator(name.last()) ==> {
            &&& kebab_case(name).len() > 0
            &&& kebab_case(name).last() != '-'
        },
    decreases name.len(),
{
    if name.len() > 0 {
        let before = name.drop_last();
        lemma_kebab_case(before);
        let head = kebab_case(before);
        let piece = kebab_piece(name);
        let whole = kebab_case(name);
        assert(before.len() > 0 ==> before.last() == name[name.len() - 2]);
        assert forall|i: int| 0 <= i < whole.len() implies {
            &&& !letters::is_capital(#[trigger] whole[i])
            &&& whole[i] != '_'
            &&& whole[i] != ' '
            &&& whole[i] == '-' ==> i > 0 && whole[i - 1] != '-'
        } by {
            if i < head.len() {
                assert(whole[i] == head[i]);
                if i > 0 {
                    assert(whole[i - 1] == head[i - 1]);
                }
            } else {
                assert(whole[i] == piece[i - head.len()]);
                if i > head.len() {
                    assert(whole[i - 1] == piece[i - 1 - head.len()]);
                } else if i > 0 {
                    assert(whole[i - 1] == head.last());
                }
            }
        }
    }
}

/// The subcommand of every tool is in kebab case.
pub proof fn law_subcommand_is_kebab_case(name: Seq<char>)
    ensures
        is_kebab_case(kebab_case(name)),
{
    lemma_kebab_case(name);
}

/// A name in kebab case is its own subcommand.
pub proof fn law_kebab_case_is_stable(name: Seq<char>)
    requires
        is_kebab_case(name),
    ensures
        kebab_case(name) == name,
    decreases name.len(),
{
    if name.len() > 0 {
        let before = name.drop_last();
        assert forall|i: int| 0 <= i < before.len() implies {
            &&& !letters::is_capital(#[trigger] before[i])
            &&& before[i] != '_'
            &&& before[i] != ' '
            &&& before[i] == '-' ==> i > 0 && before[i - 1] != '-'
        } by {
            assert(before[i] == name[i]);
            if i > 0 {
                assert(before[i - 1] == name[i - 1]);
            }
        }
        law_kebab_case_is_stable(before);
        let last = name[name.len() - 1];
        assert(!letters::is_capital(last));
        if name.len() > 1 {
            let previous = name[name.len() - 2];
            assert(previous != '_' && previous != ' ');
        }
        assert(kebab_piece(name) =~= seq![last]);
        assert(kebab_case(name) =~= name);
    } else {
        assert(kebab_case(name) =~= name);
    }
}

/// The subcommand under which a tool is called: its name in kebab case.
pub fn tool_name_to_subcommand(name: &str) -> (subcommand: String)
    ensures
        subcommand@ == kebab_case(name@),
        is_kebab_case(subcommand@),
{
    let chars = text::chars_of(name);
    let mut subcommand = String::new();
    let mut i: usize = 0;
    while i < chars.len()
        invariant
            0 <= i <= chars@.len(),
            chars@ == name@,
            subcommand@ == kebab_case(name@.take(i as int)),
        decreases chars@.len() - i,
    {
        let ch = chars[i];
        let gap = i > 0 && chars[i - 1] != '_' && chars[i - 1] != '-' && chars[i - 1] != ' ';
        let ghost before = subcommand@;
        if ch == '_' || ch == '-' || ch == ' ' {
            if gap {
                subcommand.push('-');
            }
        } else if letters::capital(ch) {
            if gap {
                subcommand.push('-');
            }
            subcommand.push(letters::small(ch));
        } else {
            subcommand.push(ch);
        }
        proof {
            let longer = name@.take(i + 1);
            assert(longer.drop_last() =~= name@.take(i as int));
            assert(longer.last() == ch);
            assert(i > 0 ==> longer[longer.len() - 2] == name@[i - 1]);
            assert(subcommand@ =~= before + kebab_piece(longer));
        }
        i = i + 1;
    }
    assert(name@.take(name@.len() as int) =~= name@);
    proof {
        lemma_kebab_case(name@);
    }
    subcommand
}

}
