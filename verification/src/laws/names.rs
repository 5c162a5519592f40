//! Names: how the form of a name grows with the name.

use vstd::prelude::*;

use crate::cli::mapping::tool_name_to_subcommand;
use crate::ffi::host_transform::cli_subcommand_name;
use crate::ffi::naming::{snake_to_camel, to_snake_case};
use crate::letters;

verus! {

/// Whether the last character of the name parts words; so does the start of a name.
pub open spec fn at_word_start(name: Seq<char>) -> bool {
    name.len() == 0 || name.last() == '_' || name.last() == '-' || name.last() == ' '
}

/// The subcommand of no name is empty, and a longer name has a longer subcommand: a separator adds
/// a hyphen, a capital letter its small letter behind a hyphen, and any other character itself.
/// Where a word has just started no hyphen is added.
pub proof fn law_subcommand_grows(
    name: &str,
    longer: &str,
    ch: char,
    subcommand: String,
    grown: String,
)
    requires
        longer@ == name@.push(ch),
        call_ensures(tool_name_to_subcommand, (name,), subcommand),
        call_ensures(tool_name_to_subcommand, (longer,), grown),
    ensures
        name@.len() == 0 ==> subcommand@.len() == 0,
        (ch == '_' || ch == '-' || ch == ' ') && at_word_start(name@) ==> grown@ == subcommand@,
        (ch == '_' || ch == '-' || ch == ' ') && !at_word_start(name@) ==> grown@
            == subcommand@.push('-'),
        'A' <= ch <= 'Z' && at_word_start(name@) ==> grown@.len() == subcommand@.len() + 1
            && grown@.drop_last() == subcommand@ && grown@.last() as nat == ch as nat + 32,
        'A' <= ch <= 'Z' && !at_word_start(name@) ==> grown@.len() == subcommand@.len() + 2
            && grown@.drop_last() == subcommand@.push('-') && grown@.last() as nat == ch as nat
            + 32,
        ch != '_' && ch != '-' && ch != ' ' && !('A' <= ch <= 'Z') ==> grown@ == subcommand@.push(
            ch,
        ),
{
    assert(longer@.drop_last() =~= name@);
    assert(name@.len() > 0 ==> longer@[longer@.len() - 2] == name@.last());
    assert(subcommand@ + Seq::<char>::empty() =~= subcommand@);
    assert(subcommand@ + seq!['-'] =~= subcommand@.push('-'));
    if 'A' <= ch <= 'Z' {
        assert(grown@.drop_last() =~= if at_word_start(name@) {
            subcommand@
        } else {
            subcommand@.push('-')
        });
    } else {
        assert(subcommand@ + seq![ch] =~= subcommand@.push(ch));
    }
}

/// Hosts call a tool by the same subcommand as the command line does.
pub proof fn law_subcommand_for_hosts(name: &str, subcommand: String, for_host: String)
    requires
        call_ensures(tool_name_to_subcommand, (name,), subcommand),
        call_ensures(cli_subcommand_name, (name,), for_host),
    ensures
        for_host@ == subcommand@,
{
}

/// The snake-case form of no name is empty, and a longer name has a longer form: a hyphen or a space
/// adds an underscore, a capital letter its small letter behind an underscore, and any other
/// character itself. Where a word has just started no underscore is added.
pub proof fn law_snake_case_grows(
    name: &str,
    longer: &str,
    ch: char,
    snake: String,
    grown: String,
)
    requires
        longer@ == name@.push(ch),
        call_ensures(to_snake_case, (name,), snake),
        call_ensures(to_snake_case, (longer,), grown),
    ensures
        name@.len() == 0 ==> snake@.len() == 0,
        (ch == '-' || ch == ' ') && at_word_start(name@) ==> grown@ == snake@,
        (ch == '-' || ch == ' ') && !at_word_start(name@) ==> grown@ == snake@.push('_'),
        'A' <= ch <= 'Z' && at_word_start(name@) ==> grown@.len() == snake@.len() + 1
            && grown@.drop_last() == snake@ && grown@.last() as nat == ch as nat + 32,
        'A' <= ch <= 'Z' && !at_word_start(name@) ==> grown@.len() == snake@.len() + 2
            && grown@.drop_last() == snake@.push('_') && grown@.last() as nat == ch as nat + 32,
        ch != '-' && ch != ' ' && !('A' <= ch <= 'Z') ==> grown@ == snake@.push(ch),
{
    assert(longer@.drop_last() =~= name@);
    assert(name@.len() > 0 ==> longer@[longer@.len() - 2] == name@.last());
    assert(snake@ + Seq::<char>::empty() =~= snake@);
    assert(snake@ + seq!['_'] =~= snake@.push('_'));
    if 'A' <= ch <= 'Z' {
        assert(grown@.drop_last() =~= if at_word_start(name@) {
            snake@
        } else {
            snake@.push('_')
        });
    } else {
        assert(snake@ + seq![ch] =~= snake@.push(ch));
    }
}

/// The camel-case form of no name is empty, and a longer name has a longer form: underscores and
/// hyphens add nothing, a character behind one of them adds its upper case, and any other character
/// itself. The upper case of a small letter of ASCII is its capital letter, and other characters of
/// ASCII are their own.
pub proof fn law_camel_case_grows(
    name: &str,
    longer: &str,
    ch: char,
    camel: String,
    grown: String,
)
    requires
        longer@ == name@.push(ch),
        call_ensures(snake_to_camel, (name,), camel),
        call_ensures(snake_to_camel, (longer,), grown),
    ensures
        name@.len() == 0 ==> camel@.len() == 0,
        ch == '_' || ch == '-' ==> grown@ == camel@,
        ch != '_' && ch != '-' && name@.len() > 0 && (name@.last() == '_' || name@.last() == '-')
            ==> grown@ == camel@ + letters::upper_case(ch),
        ch != '_' && ch != '-' && !(name@.len() > 0 && (name@.last() == '_' || name@.last() == '-'))
            ==> grown@ == camel@.push(ch),
        (forall|i: int| 0 <= i < longer@.len() ==> (#[trigger] longer@[i]) as nat <= 127) && ch
            != '_' && ch != '-' && name@.len() > 0 && (name@.last() == '_' || name@.last() == '-')
            ==> grown@.len() == camel@.len() + 1 && grown@.drop_last() == camel@
            && grown@.last() as nat == (if 'a' <= ch <= 'z' {
            ch as nat - 32
        } else {
            ch as nat as int
        }),
{
    assert(longer@.drop_last() =~= name@);
    assert(name@.len() > 0 ==> longer@[longer@.len() - 2] == name@.last());
    assert(camel@ + Seq::<char>::empty() =~= camel@);
    assert(camel@ + seq![ch] =~= camel@.push(ch));
    if forall|i: int| 0 <= i < longer@.len() ==> (#[trigger] longer@[i]) as nat <= 127 {
        assert forall|i: int| 0 <= i < name@.len() implies (#[trigger] name@[i]) as nat <= 127 by {
            assert(longer@[i] == name@[i]);
        }
        assert(longer@[longer@.len() - 1] == ch);
        if ch != '_' && ch != '-' && name@.len() > 0 && (name@.last() == '_' || name@.last()
            == '-') {
            assert(grown@ =~= camel@ + seq![letters::to_capital(ch)]);
            assert(grown@.drop_last() =~= camel@);
        }
    }
}

}
