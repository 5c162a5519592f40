//! Help texts of commands: what they list, and what they say of flags and descriptions.

use vstd::prelude::*;

use crate::cli::help;
use crate::cli::help::{
    render_subcommand_help, render_top_level_help, short_tool_description, summary_of, HelpFraming,
};
use crate::cli::mapping::tool_name_to_subcommand;
use crate::json::JsonView;
use crate::json_schema;
use crate::json_text;
use crate::laws::module_help;
use crate::text;
use crate::text::{trimmed, trimmed_end};
use crate::tool;
use crate::tool::Tool;

verus! {

/// Whether the text is made of white space.
pub open spec fn all_white(run: Seq<char>) -> bool {
    forall|i: int| 0 <= i < run.len() ==> text::is_white_space(#[trigger] run[i])
}

/// Whether the text neither starts nor ends with white space.
pub open spec fn no_white_ends(inner: Seq<char>) -> bool {
    inner.len() > 0 ==> !text::is_white_space(inner[0]) && !text::is_white_space(inner.last())
}

/// Trimming at the start takes away a run of white space, and all of it.
pub proof fn lemma_trim_start(source: Seq<char>) -> (white: Seq<char>)
    ensures
        all_white(white),
        source == white + text::trim_start(source),
        text::trim_start(source).len() > 0 ==> !text::is_white_space(text::trim_start(source)[0]),
    decreases source.len(),
{
    if source.len() > 0 && text::is_white_space(source[0]) {
        let rest = lemma_trim_start(source.skip(1));
        let white = seq![source[0]] + rest;
        assert(source =~= seq![source[0]] + source.skip(1));
        assert(source =~= white + text::trim_start(source));
        white
    } else {
        assert(source =~= Seq::<char>::empty() + source);
        Seq::empty()
    }
}

/// Trimming at the end takes away a run of white space, and all of it.
pub proof fn lemma_trim_end(source: Seq<char>) -> (white: Seq<char>)
    ensures
        all_white(white),
        source == text::trim_end(source) + white,
        text::trim_end(source).len() > 0 ==> !text::is_white_space(text::trim_end(source).last()),
    decreases source.len(),
{
    if source.len() > 0 && text::is_white_space(source.last()) {
        let rest = lemma_trim_end(source.drop_last());
        let white = rest.push(source.last());
        assert(source =~= source.drop_last().push(source.last()));
        assert(source =~= text::trim_end(source) + white);
        white
    } else {
        assert(source =~= source + Seq::<char>::empty());
        Seq::empty()
    }
}

/// A trimmed text neither starts nor ends with white space.
pub proof fn lemma_trim(source: Seq<char>)
    ensures
        no_white_ends(text::trim(source)),
{
    let before = lemma_trim_start(source);
    let after = lemma_trim_end(text::trim_start(source));
    let inner = text::trim(source);
    if inner.len() > 0 {
        assert(inner[0] == text::trim_start(source)[0]);
    }
}

/// Trimming takes away the white space at both ends, and nothing else.
pub proof fn law_trimmed(source: &str, inner: String)
    requires
        call_ensures(trimmed, (source,), inner),
    ensures
        no_white_ends(inner@),
        exists|before: Seq<char>, after: Seq<char>|
            all_white(before) && all_white(after) && source@ == #[trigger] (before + inner@
                + after),
{
    let before = lemma_trim_start(source@);
    let started = text::trim_start(source@);
    let after = lemma_trim_end(started);
    assert(source@ =~= before + inner@ + after);
    if inner@.len() > 0 {
        assert(inner@[0] == started[0]);
    }
}

/// Trimming at the end takes away the white space there, and nothing else.
pub proof fn law_trimmed_end(source: &str, inner: String)
    requires
        call_ensures(trimmed_end, (source,), inner),
    ensures
        inner@.len() > 0 ==> !text::is_white_space(inner@.last()),
        exists|after: Seq<char>| all_white(after) && source@ == #[trigger] (inner@ + after),
{
    let after = lemma_trim_end(source@);
    assert(all_white(after) && source@ == inner@ + after);
}

/// Whether a sentence of the line ends behind its first `end` characters: a full stop stands there,
/// and white space or the end of the line behind it.
pub open spec fn ends_sentence(line: Seq<char>, end: int) -> bool {
    &&& 0 < end <= line.len()
    &&& line[end - 1] == '.'
    &&& end == line.len() || text::is_white_space(line[end])
}

/// Whether the first sentence of the line ends behind its first `end` characters.
pub open spec fn ends_first_sentence(line: Seq<char>, end: int) -> bool {
    &&& ends_sentence(line, end)
    &&& forall|earlier: int| 0 < earlier < end ==> !#[trigger] ends_sentence(line, earlier)
}

/// Whether `short` is the text, cut to two hundred characters: the text itself if it is no longer,
/// or else a start of it with three full stops, from which only white space was taken to make room.
pub open spec fn is_cut(short: Seq<char>, whole: Seq<char>) -> bool {
    if whole.len() <= 200 {
        short == whole
    } else {
        exists|kept: Seq<char>, white: Seq<char>|
            {
                &&& short == kept + seq!['.', '.', '.']
                &&& #[trigger] (kept + white) == whole.take(197)
                &&& all_white(white)
                &&& kept.len() > 0 ==> !text::is_white_space(kept.last())
            }
    }
}

/// The first line of a text without the white space around it and the line.
pub open spec fn first_line(description: Seq<char>) -> Seq<char> {
    text::trim(text::split(text::trim(description), '\n')[0])
}

/// The text before the first `stop` is the first part.
proof fn lemma_before_is_first_part(source: Seq<char>, stop: char)
    ensures
        text::split(source, stop).len() > 0,
        text::split(source, stop)[0] == text::before(source, stop),
{
    text::lemma_split_len(source, stop);
    text::lemma_before(source, stop);
    let head = text::before(source, stop);
    if head.len() == source.len() {
        assert(source.take(source.len() as int) =~= source);
        text::lemma_split_one(source, stop);
    } else {
        let rest = source.skip(head.len() as int + 1);
        assert(source =~= head + seq![stop] + rest);
        text::lemma_split_one(head, stop);
        text::lemma_split_at(head, rest, stop);
        text::lemma_split_len(rest, stop);
    }
}

/// The first sentence ends where `sentence_end` says, if one ends at all.
proof fn lemma_sentence_end(line: Seq<char>, from: nat)
    requires
        from <= line.len(),
        forall|earlier: int| 0 < earlier <= from ==> !#[trigger] ends_sentence(line, earlier),
    ensures
        from <= help::sentence_end(line, from) <= line.len(),
        ends_first_sentence(line, help::sentence_end(line, from) as int) || (
        help::sentence_end(line, from) == line.len() && forall|end: int|
            !#[trigger] ends_sentence(line, end)),
    decreases line.len() - from,
{
    if from < line.len() {
        if ends_sentence(line, from as int + 1) {
            assert(help::sentence_end(line, from) == from + 1);
        } else {
            lemma_sentence_end(line, from + 1);
        }
    }
}

/// No description has an empty summary.
pub proof fn law_no_description(summary: String)
    requires
        call_ensures(short_tool_description, (None,), summary),
    ensures
        summary@.len() == 0,
{
    let line = help::summary_line(None);
    lemma_sentence_end(line, 0);
}

/// The summary of a description is the first sentence of its first line, if that has ten characters
/// at least, and else the whole first line; what is longer than two hundred characters is cut.
pub proof fn law_summary(description: &str, summary: String)
    requires
        call_ensures(short_tool_description, (Some(description),), summary),
    ensures
        forall|end: int|
            #[trigger] ends_first_sentence(first_line(description@), end) && end >= 10 ==> is_cut(
                summary@,
                first_line(description@).take(end),
            ),
        (forall|end: int|
            #[trigger] ends_first_sentence(first_line(description@), end) ==> end < 10) ==> is_cut(
            summary@,
            first_line(description@),
        ),
{
    lemma_before_is_first_part(text::trim(description@), '\n');
    let line = first_line(description@);
    assert(line == help::summary_line(Some(description@)));
    lemma_sentence_end(line, 0);
    let end = help::sentence_end(line, 0) as int;
    lemma_shorten(line);
    lemma_shorten(line.take(end));
    assert forall|other: int| #[trigger] ends_first_sentence(line, other) implies other == end by {
        assert(ends_sentence(line, other));
        if ends_first_sentence(line, end) {
            assert(ends_sentence(line, end));
        }
    }
    if end < help::SENTENCE_MINIMUM {
    } else if end == line.len() {
        assert(line.take(end) =~= line);
    }
}

/// Shortening cuts.
proof fn lemma_shorten(line: Seq<char>)
    ensures
        is_cut(help::shorten(line), line),
{
    if line.len() > 200 {
        let kept = text::trim_end(line.take(197));
        let white = lemma_trim_end(line.take(197));
        assert(kept + white == line.take(197));
    }
}

/// A description that is there has the summary of its text.
pub proof fn law_summary_of(description: &Option<String>, shown: &str, summary: String, same: String)
    requires
        tool::optional_view(*description) == Some(shown@),
        call_ensures(summary_of, (description,), summary),
        call_ensures(short_tool_description, (Some(shown),), same),
    ensures
        summary@ == same@,
{
}

/// The frame of the help in a shell: the line on subcommands alone.
pub proof fn law_shell_framing(cli_name: &str, framing: HelpFraming)
    requires
        call_ensures(HelpFraming::shell, (cli_name,), framing),
    ensures
        framing.intro is None,
        framing.footer@ == "Run '"@ + cli_name@ + " <subcommand> --help' for subcommand usage."@,
{
}

/// The frame of the description of a help tool: it sends the reader to the command line.
pub proof fn law_help_tool_framing(command: &str, cli_name: &str, framing: HelpFraming)
    requires
        call_ensures(HelpFraming::help_tool, (command, cli_name), framing),
    ensures
        framing.intro is Some,
        framing.intro->Some_0@ == "Functionality associated with the "@ + cli_name@
            + " toolset is provided via the `"@ + command@
            + "` CLI. Do not call this tool - run the CLI in a shell instead."@,
        framing.footer@ == "Run '"@ + command@ + " <subcommand> --help' for subcommand usage."@,
{
}

/// Whether the texts are the subcommands of the tools, one by one.
pub open spec fn are_subcommands(tools: Seq<Tool>, names: Seq<Seq<char>>) -> bool {
    &&& names.len() == tools.len()
    &&& forall|i: int, name: &str, subcommand: String|
        0 <= i < tools.len() && name@ == (#[trigger] tools[i]).name@ && #[trigger] call_ensures(
            tool_name_to_subcommand,
            (name,),
            subcommand,
        ) ==> names[i] == subcommand@
}

/// Whether the texts are the summaries of the tools, one by one.
pub open spec fn are_summaries(tools: Seq<Tool>, notes: Seq<Seq<char>>) -> bool {
    &&& notes.len() == tools.len()
    &&& forall|i: int, summary: String|
        0 <= i < tools.len() && #[trigger] call_ensures(
            summary_of,
            (&tools[i].description,),
            summary,
        ) ==> notes[i] == summary@
}

/// The help of a command: the introduction if there is one, the name of the toolset, how the command
/// is called, one row for each tool, in order, with its subcommand and its summary, and the last
/// line.
pub proof fn law_command_help(
    command: &str,
    cli_name: &str,
    tools: &Vec<Tool>,
    framing: &HelpFraming,
    shown: String,
)
    requires
        call_ensures(render_top_level_help, (command, cli_name, tools, framing), shown),
    ensures
        exists|names: Seq<Seq<char>>, notes: Seq<Seq<char>>, rows: Seq<Seq<char>>|
            {
                &&& are_subcommands(tools@, names)
                &&& are_summaries(tools@, notes)
                &&& #[trigger] module_help::are_rows(names, notes, rows)
                &&& shown@ == text::join(
                    (match framing.intro {
                        Some(intro) => seq![intro@],
                        None => Seq::empty(),
                    }) + seq![
                        cli_name@ + " - the "@ + cli_name@ + " toolset"@,
                        Seq::empty(),
                        "USAGE:"@,
                        "  "@ + command@ + " <subcommand> [options]"@,
                        Seq::empty(),
                        "SUBCOMMANDS:"@,
                    ] + rows + seq![Seq::empty(), framing.footer@],
                    seq!['\n'],
                )
            },
{
    let views = tool::tool_views(tools@);
    let names = help::subcommands(views);
    let notes = help::summaries(views);
    module_help::lemma_table_rows(names, notes);
    assert(are_subcommands(tools@, names));
    assert(are_summaries(tools@, notes));
}

/// A value as a reader sees it.
pub open spec fn seen(value: JsonView) -> Seq<char> {
    match value {
        JsonView::Text(characters) => characters,
        other => json_text::json_text(other),
    }
}

/// The values that a schema lists under `enum`, as a reader sees them.
pub open spec fn listed_values(schema: JsonView) -> Seq<Seq<char>> {
    match schema.get("enum"@) {
        Some(JsonView::Array(items)) => Seq::new(items.len(), |i: int| seen(items[i])),
        _ => Seq::empty(),
    }
}

/// Whether `value` stands for the value of a flag: the listed values, or else the type of the
/// property, or else the word for any value.
pub open spec fn is_flag_value(schema: JsonView, value: Seq<char>) -> bool {
    let values = listed_values(schema);
    if values.len() > 0 {
        value == "<"@ + text::join(values, "|"@) + ">"@
    } else {
        match schema.get("type"@) {
            Some(JsonView::Text(name)) => value == "<"@ + name + ">"@,
            _ => value == "<value>"@,
        }
    }
}

/// Whether the sentences are what there is to say of a property: its description if it is not empty;
/// that it is required, exactly if the schema of the tool lists it as required; its default if it
/// has one; and the values that are allowed, if they are listed.
pub open spec fn are_flag_sentences(
    tool_schema: JsonView,
    key: Seq<char>,
    schema: JsonView,
    sentences: Seq<Seq<char>>,
) -> bool {
    let described = match schema.get("description"@) {
        Some(JsonView::Text(found)) => if text::trim(found).len() > 0 {
            seq![text::trim(found)]
        } else {
            Seq::empty()
        },
        _ => Seq::empty(),
    };
    let required = if module_help::listed_as_required(tool_schema, key) {
        seq!["Required."@]
    } else {
        Seq::empty()
    };
    let default = match schema.get("default"@) {
        Some(value) => seq!["Default: "@ + seen(value) + "."@],
        None => Seq::empty(),
    };
    let allowed = if listed_values(schema).len() > 0 {
        seq!["Allowed values: "@ + text::join(listed_values(schema), ", "@) + "."@]
    } else {
        Seq::empty()
    };
    sentences == described + required + default + allowed
}

/// Whether the block is the help on the flag of a property: the flag with its value and, on the next
/// line, what there is to say of the property.
pub open spec fn is_flag_block(
    tool_schema: JsonView,
    key: Seq<char>,
    schema: JsonView,
    block: Seq<char>,
) -> bool {
    exists|value: Seq<char>, sentences: Seq<Seq<char>>|
        {
            &&& #[trigger] is_flag_value(schema, value)
            &&& #[trigger] are_flag_sentences(tool_schema, key, schema, sentences)
            &&& forall|name: &str, flag: String|
                name@ == key && #[trigger] call_ensures(tool_name_to_subcommand, (name,), flag)
                    ==> block == "  --"@ + flag@ + " "@ + value + if text::join(
                    sentences,
                    " "@,
                ).len() > 0 {
                    "\n      "@ + text::join(sentences, " "@)
                } else {
                    Seq::empty()
                }
        }
}

/// The block of a flag is the help on it.
proof fn lemma_flag_block(tool_schema: JsonView, key: Seq<char>, schema: JsonView)
    ensures
        is_flag_block(
            tool_schema,
            key,
            schema,
            help::option_block(key, schema, json_schema::is_required(tool_schema, key)),
        ),
{
    let required = json_schema::is_required(tool_schema, key);
    module_help::lemma_listed(tool_schema, key);
    let value = help::placeholder(schema);
    let sentences = help::description_sentence(schema) + (if required {
        seq!["Required."@]
    } else {
        Seq::empty()
    }) + help::default_sentence(schema) + help::allowed_sentence(schema);
    assert(listed_values(schema) =~= json_schema::allowed_values(schema));
    assert(is_flag_value(schema, value));
    assert(are_flag_sentences(tool_schema, key, schema, sentences));
    let block = help::option_block(key, schema, required);
    assert forall|name: &str, flag: String|
        name@ == key && #[trigger] call_ensures(
            tool_name_to_subcommand,
            (name,),
            flag,
        ) implies block == "  --"@ + flag@ + " "@ + value + if text::join(sentences, " "@).len()
        > 0 {
        "\n      "@ + text::join(sentences, " "@)
    } else {
        Seq::empty()
    } by {
        assert(block =~= "  --"@ + flag@ + " "@ + value + if text::join(sentences, " "@).len() > 0 {
            "\n      "@ + text::join(sentences, " "@)
        } else {
            Seq::empty()
        });
    }
}

/// Whether the blocks are the help on the flags of a tool, one for each property, in order.
pub open spec fn are_flag_blocks(schema: JsonView, blocks: Seq<Seq<char>>) -> bool {
    let properties = module_help::described_properties(schema);
    &&& blocks.len() == properties.len()
    &&& forall|i: int|
        0 <= i < blocks.len() ==> is_flag_block(
            schema,
            properties[i].0,
            properties[i].1,
            #[trigger] blocks[i],
        )
}

/// The help of a subcommand: how it is called, the description of the tool if it is not empty, its
/// usage, and the help on its flags if it has any.
pub proof fn law_subcommand_help(
    cli_name: &str,
    described: &Tool,
    name: &str,
    subcommand: String,
    shown: String,
)
    requires
        name@ == described.name@,
        call_ensures(tool_name_to_subcommand, (name,), subcommand),
        call_ensures(render_subcommand_help, (cli_name, described), shown),
    ensures
        exists|blocks: Seq<Seq<char>>|
            {
                let call = cli_name@ + " "@ + subcommand@;
                &&& #[trigger] are_flag_blocks(described@.input_schema, blocks)
                &&& shown@ == text::join(
                    seq![call] + (match described.description {
                        Some(found) => if text::trim(found@).len() > 0 {
                            seq![Seq::empty(), text::trim(found@)]
                        } else {
                            Seq::empty()
                        },
                        None => Seq::empty(),
                    }) + seq![Seq::empty(), "USAGE:"@, "  "@ + call + " [options]"@] + (
                    if blocks.len() > 0 {
                        seq![Seq::empty(), "OPTIONS:"@] + blocks
                    } else {
                        Seq::empty()
                    }),
                    "\n"@,
                )
            },
{
    let schema = described@.input_schema;
    let properties = module_help::described_properties(schema);
    let blocks = Seq::new(
        properties.len(),
        |i: int|
            help::option_block(
                properties[i].0,
                properties[i].1,
                json_schema::is_required(schema, properties[i].0),
            ),
    );
    assert forall|i: int| 0 <= i < blocks.len() implies is_flag_block(
        schema,
        properties[i].0,
        properties[i].1,
        #[trigger] blocks[i],
    ) by {
        lemma_flag_block(schema, properties[i].0, properties[i].1);
    }
    assert(are_flag_blocks(schema, blocks));
    assert(help::option_blocks(schema) =~= if blocks.len() > 0 {
        seq![Seq::empty(), "OPTIONS:"@] + blocks
    } else {
        Seq::empty()
    });
}

}
