//! Help texts for the generated command line.

use vstd::prelude::*;

use crate::cli::mapping;
use crate::cli::mapping::tool_name_to_subcommand;
use crate::json;
use crate::json::{Json, JsonView};
use crate::json_schema;
use crate::text;
use crate::tool;
use crate::tool::{Tool, ToolView};

verus! {

/// The most characters that a one-line summary has.
pub const SUMMARY_LIMIT: usize = 200;

/// A first sentence with fewer characters is too short to stand alone as a summary.
pub const SENTENCE_MINIMUM: usize = 10;

/// The number of characters up to the end of the first sentence, from position `from` on: up to
/// and with the first full stop that white space or the end of the line follows.
pub open spec fn sentence_end(line: Seq<char>, from: nat) -> nat
    decreases line.len() - from,
{
    if from >= line.len() {
        line.len()
    } else if line[from as int] == '.' && (from + 1 == line.len() || text::is_white_space(
        line[from as int + 1],
    )) {
        from + 1
    } else {
        sentence_end(line, from + 1)
    }
}

/// The first line of a description, without white space around it.
pub open spec fn summary_line(description: Option<Seq<char>>) -> Seq<char> {
    match description {
        Some(found) => text::trim(text::before(text::trim(found), '\n')),
        None => Seq::empty(),
    }
}

/// The text, cut to `SUMMARY_LIMIT` characters; an ellipsis stands for what is cut off.
pub open spec fn shorten(line: Seq<char>) -> Seq<char> {
    if line.len() <= SUMMARY_LIMIT {
        line
    } else {
        text::trim_end(line.take(SUMMARY_LIMIT - 3)) + seq!['.', '.', '.']
    }
}

/// The one-line summary of a description: the first sentence of its first line, or the whole
/// line where that sentence is tiny, cut to the limit.
pub open spec fn summary(description: Option<Seq<char>>) -> Seq<char> {
    let line = summary_line(description);
    let end = sentence_end(line, 0);
    if end < SENTENCE_MINIMUM {
        shorten(line)
    } else {
        shorten(line.take(end as int))
    }
}

/// The end of the first sentence lies inside the line.
proof fn lemma_sentence_end(line: Seq<char>, from: nat)
    requires
        from <= line.len(),
    ensures
        from <= sentence_end(line, from) <= line.len(),
    decreases line.len() - from,
{
    if from < line.len() && !(line[from as int] == '.' && (from + 1 == line.len()
        || text::is_white_space(line[from as int + 1]))) {
        lemma_sentence_end(line, from + 1);
    }
}

/// Trimming at the end gives a prefix without white space at its end.
pub proof fn lemma_trim_end(source: Seq<char>)
    ensures
        text::trim_end(source).len() <= source.len(),
        text::trim_end(source) == source.take(text::trim_end(source).len() as int),
        text::trim_end(source).len() > 0 ==> !text::is_white_space(text::trim_end(source).last()),
    decreases source.len(),
{
    if source.len() > 0 && text::is_white_space(source.last()) {
        lemma_trim_end(source.drop_last());
        let kept = text::trim_end(source.drop_last());
        assert(source.drop_last().take(kept.len() as int) =~= source.take(kept.len() as int));
    } else {
        assert(source.take(source.len() as int) =~= source);
    }
}

/// A summary has at most `SUMMARY_LIMIT` characters, and where it is cut off no white space
/// stands before the ellipsis.
pub proof fn law_summary_is_short(description: Option<Seq<char>>)
    ensures
        summary(description).len() <= SUMMARY_LIMIT,
        summary_line(description).len() > SUMMARY_LIMIT && sentence_end(
            summary_line(description),
            0,
        ) > SUMMARY_LIMIT ==> {
            let cut = summary(description);
            &&& cut.len() >= 3
            &&& cut.skip(cut.len() - 3) == seq!['.', '.', '.']
            &&& cut.len() > 3 ==> !text::is_white_space(cut[cut.len() - 4])
        },
{
    let line = summary_line(description);
    let end = sentence_end(line, 0);
    lemma_sentence_end(line, 0);
    let chosen = if end < SENTENCE_MINIMUM {
        line
    } else {
        line.take(end as int)
    };
    let kept = text::trim_end(chosen.take(SUMMARY_LIMIT - 3));
    lemma_trim_end(chosen.take(SUMMARY_LIMIT - 3));
    if chosen.len() > SUMMARY_LIMIT {
        let cut = summary(description);
        assert(cut =~= kept + seq!['.', '.', '.']);
        assert(cut.skip(cut.len() - 3) =~= seq!['.', '.', '.']);
        if kept.len() > 0 {
            assert(cut[cut.len() - 4] == kept.last());
        }
    }
}

/// A one-line summary of a description.
pub fn short_tool_description(description: Option<&str>) -> (short: String)
    ensures
        short@ == summary(match description {
            Some(found) => Some(found@),
            None => None,
        }),
        short@.len() <= SUMMARY_LIMIT,
{
    proof {
        law_summary_is_short(
            match description {
                Some(found) => Some(found@),
                None => None,
            },
        );
    }
    let line = match description {
        Some(found) => {
            let whole = text::chars_of(text::trimmed(found).as_str());
            assert(whole@.skip(0) =~= whole@);
            let end: usize = text::position_of(&whole, 0, '\n');
            text::trimmed(text::string_of(&whole, 0, end).as_str())
        },
        None => String::new(),
    };
    let chars = text::chars_of(line.as_str());
    let mut end: usize = 0;
    while end < chars.len() && !(chars[end] == '.' && (end + 1 == chars.len() || text::white_space(
        chars[end + 1],
    )))
        invariant
            0 <= end <= chars@.len(),
            sentence_end(chars@, end as nat) == sentence_end(chars@, 0),
        decreases chars@.len() - end,
    {
        end = end + 1;
    }
    if end < chars.len() {
        end = end + 1;
    }
    if end < SENTENCE_MINIMUM {
        end = chars.len();
        assert(chars@.take(end as int) =~= chars@);
    }
    if end <= SUMMARY_LIMIT {
        text::string_of(&chars, 0, end)
    } else {
        let kept: usize = text::end_of_trimmed(&chars, 0, SUMMARY_LIMIT - 3);
        let mut short = text::string_of(&chars, 0, kept);
        short.push('.');
        short.push('.');
        short.push('.');
        proof {
            let chosen = chars@.take(end as int);
            assert(chosen.take(SUMMARY_LIMIT - 3) =~= chars@.subrange(0, SUMMARY_LIMIT - 3));
            assert(short@ =~= text::trim_end(chosen.take(SUMMARY_LIMIT - 3)) + seq!['.', '.', '.']);
        }
        short
    }
}

/// A row of a table of names and summaries: the name, indented and filled up to `width`
/// characters, then the summary.
pub open spec fn table_row(name: Seq<char>, note: Seq<char>, width: nat) -> Seq<char> {
    text::trim_end("  "@ + text::pad_right(name, width) + note)
}

/// The rows of a table of names and summaries. The summaries start in one column, two characters
/// behind the widest name.
pub open spec fn table_rows(names: Seq<Seq<char>>, notes: Seq<Seq<char>>) -> Seq<Seq<char>> {
    Seq::new(names.len(), |i: int| table_row(names[i], notes[i], text::widest(names) + 2))
}

/// The summaries of a list of tools.
pub open spec fn summaries(tools: Seq<ToolView>) -> Seq<Seq<char>> {
    tools.map_values(|tool: ToolView| summary(tool.description))
}

/// The subcommands of a list of tools.
pub open spec fn subcommands(tools: Seq<ToolView>) -> Seq<Seq<char>> {
    tools.map_values(|tool: ToolView| mapping::kebab_case(tool.name))
}

/// Appends the rows of a table of names and summaries to `lines`.
pub fn push_table_rows(lines: &mut Vec<String>, names: &Vec<String>, notes: &Vec<String>)
    requires
        names@.len() == notes@.len(),
    ensures
        text::texts(final(lines)@) == text::texts(old(lines)@) + table_rows(
            text::texts(names@),
            text::texts(notes@),
        ),
{
    let ghost name_texts = text::texts(names@);
    let ghost note_texts = text::texts(notes@);
    let ghost start = text::texts(lines@);
    let widest: usize = text::widest_of(names);
    let mut i: usize = 0;
    assert(start + table_rows(name_texts, note_texts).take(0) =~= start);
    while i < names.len()
        invariant
            0 <= i <= names@.len(),
            names@.len() == notes@.len(),
            name_texts == text::texts(names@),
            note_texts == text::texts(notes@),
            widest == text::widest(name_texts),
            text::texts(lines@) == start + table_rows(name_texts, note_texts).take(i as int),
        decreases names@.len() - i,
    {
        let ghost name = names@[i as int]@;
        proof {
            assert(name == name_texts[i as int]);
            text::lemma_widest(name_texts, i as int);
            text::lemma_char_count_within_bytes(name);
        }
        let mut row = String::from_str("  ");
        row.append(names[i].as_str());
        let mut filled: usize = names[i].as_str().unicode_len();
        let ghost first = filled;
        while filled < widest
            invariant
                first <= filled <= widest,
                row@ == "  "@ + name + text::spaces((filled - first) as nat),
            decreases widest - filled,
        {
            row.push(' ');
            filled = filled + 1;
            assert(row@ =~= "  "@ + name + text::spaces((filled - first) as nat));
        }
        row.push(' ');
        row.push(' ');
        row.append(notes[i].as_str());
        assert(row@ =~= "  "@ + text::pad_right(name, text::widest(name_texts) + 2)
            + note_texts[i as int]);
        let trimmed = text::trimmed_end(row.as_str());
        let ghost above = lines@;
        let ghost added = trimmed@;
        lines.push(trimmed);
        proof {
            let rows = table_rows(name_texts, note_texts);
            assert(rows[i as int] == added);
            assert(text::texts(lines@) =~= text::texts(above).push(added));
            assert(text::texts(lines@) =~= start + rows.take(i + 1));
        }
        i = i + 1;
    }
    assert(table_rows(name_texts, note_texts).take(names@.len() as int) =~= table_rows(
        name_texts,
        note_texts,
    ));
}

/// What stands around the table of subcommands: an optional line before it, and the last line.
#[derive(Debug, PartialEq, Eq)]
pub struct HelpFraming {
    pub intro: Option<String>,
    pub footer: String,
}

/// The line that tells how to get help on a subcommand.
pub open spec fn help_footer(command: Seq<char>) -> Seq<char> {
    "Run '"@ + command + " <subcommand> --help' for subcommand usage."@
}

/// The line that sends the reader of a help tool to the command line.
pub open spec fn help_tool_intro(command: Seq<char>, cli_name: Seq<char>) -> Seq<char> {
    "Functionality associated with the "@ + cli_name + " toolset is provided via the `"@ + command
        + "` CLI. Do not call this tool - run the CLI in a shell instead."@
}

impl HelpFraming {
    /// The framing in a shell: the last line alone.
    pub fn shell(cli_name: &str) -> (framing: HelpFraming)
        ensures
            framing.intro is None,
            framing.footer@ == help_footer(cli_name@),
    {
        let mut footer = String::from_str("Run '");
        footer.append(cli_name);
        footer.append(" <subcommand> --help' for subcommand usage.");
        HelpFraming { intro: None, footer }
    }

    /// The framing in the description of a help tool, which sends its reader to the command line.
    pub fn help_tool(command: &str, cli_name: &str) -> (framing: HelpFraming)
        ensures
            tool::optional_view(framing.intro) == Some(help_tool_intro(command@, cli_name@)),
            framing.footer@ == help_footer(command@),
    {
        let mut intro = String::from_str("Functionality associated with the ");
        intro.append(cli_name);
        intro.append(" toolset is provided via the `");
        intro.append(command);
        intro.append("` CLI. Do not call this tool - run the CLI in a shell instead.");
        let shell = HelpFraming::shell(command);
        HelpFraming { intro: Some(intro), footer: shell.footer }
    }
}

/// The lines of an optional text: one, or none.
pub open spec fn optional_line(line: Option<Seq<char>>) -> Seq<Seq<char>> {
    match line {
        Some(found) => seq![found],
        None => Seq::empty(),
    }
}

/// The line that names a toolset.
pub open spec fn toolset_title(cli_name: Seq<char>) -> Seq<char> {
    cli_name + " - the "@ + cli_name + " toolset"@
}

/// The help text of a command: its title, its usage, and its subcommands with their summaries.
pub open spec fn top_level_help(
    command: Seq<char>,
    cli_name: Seq<char>,
    tools: Seq<ToolView>,
    intro: Option<Seq<char>>,
    footer: Seq<char>,
) -> Seq<char> {
    text::join(
        optional_line(intro) + seq![
            toolset_title(cli_name),
            Seq::empty(),
            "USAGE:"@,
            "  "@ + command + " <subcommand> [options]"@,
            Seq::empty(),
            "SUBCOMMANDS:"@,
        ] + table_rows(subcommands(tools), summaries(tools)) + seq![Seq::empty(), footer],
        seq!['\n'],
    )
}

/// Trimming at the end stops at what is no white space.
proof fn lemma_trim_end_keeps(start: Seq<char>, rest: Seq<char>)
    requires
        start.len() > 0,
        !text::is_white_space(start.last()),
    ensures
        text::starts_with(text::trim_end(start + rest), start),
    decreases rest.len(),
{
    let whole = start + rest;
    if rest.len() > 0 && text::is_white_space(rest.last()) {
        assert(whole.drop_last() =~= start + rest.drop_last());
        lemma_trim_end_keeps(start, rest.drop_last());
    } else {
        assert(whole.take(start.len() as int) =~= start);
    }
}

/// The name stands in its row, if it does not end in white space.
pub proof fn lemma_row_holds_name(name: Seq<char>, note: Seq<char>, width: nat)
    requires
        name.len() > 0,
        !text::is_white_space(name.last()),
    ensures
        text::holds(table_row(name, note, width), name),
{
    let padded = text::pad_right(name, width);
    let rest = padded.skip(name.len() as int) + note;
    let start = "  "@ + name;
    let row = table_row(name, note, width);
    assert("  "@ + padded + note =~= start + rest);
    lemma_trim_end_keeps(start, rest);
    assert(row =~= "  "@ + name + row.skip(start.len() as int)) by {
        assert(row.take(start.len() as int) == start);
    }
}

/// A help text lists the subcommand of every tool. (White space at the end of a row is cut off,
/// and so would be white space at the end of a subcommand.)
pub proof fn law_help_lists_subcommands(
    command: Seq<char>,
    cli_name: Seq<char>,
    tools: Seq<ToolView>,
    intro: Option<Seq<char>>,
    footer: Seq<char>,
    i: int,
)
    requires
        0 <= i < tools.len(),
        mapping::kebab_case(tools[i].name).len() > 0 ==> !text::is_white_space(
            mapping::kebab_case(tools[i].name).last(),
        ),
    ensures
        text::holds(
            top_level_help(command, cli_name, tools, intro, footer),
            mapping::kebab_case(tools[i].name),
        ),
{
    let name = mapping::kebab_case(tools[i].name);
    let help = top_level_help(command, cli_name, tools, intro, footer);
    let heading = optional_line(intro) + seq![
        toolset_title(cli_name),
        Seq::empty(),
        "USAGE:"@,
        "  "@ + command + " <subcommand> [options]"@,
        Seq::empty(),
        "SUBCOMMANDS:"@,
    ];
    let rows = table_rows(subcommands(tools), summaries(tools));
    let lines = heading + rows + seq![Seq::empty(), footer];
    let row = rows[i];
    assert(lines[heading.len() + i] == row);
    text::lemma_join_holds(lines, seq!['\n'], heading.len() + i);
    if name.len() == 0 {
        assert(help =~= Seq::empty() + name + help);
    } else {
        lemma_row_holds_name(name, summaries(tools)[i], text::widest(subcommands(tools)) + 2);
        text::lemma_holds_inside(help, row, name);
    }
}

/// The subcommands of the tools.
fn subcommand_names(tools: &Vec<Tool>) -> (names: Vec<String>)
    ensures
        text::texts(names@) == subcommands(tool::tool_views(tools@)),
{
    let mut names: Vec<String> = Vec::new();
    let mut i: usize = 0;
    while i < tools.len()
        invariant
            0 <= i <= tools@.len(),
            names@.len() == i,
            forall|j: int|
                0 <= j < i ==> (#[trigger] names@[j])@ == mapping::kebab_case(tools@[j].name@),
        decreases tools@.len() - i,
    {
        names.push(tool_name_to_subcommand(tools[i].name.as_str()));
        i = i + 1;
    }
    assert(text::texts(names@) =~= subcommands(tool::tool_views(tools@)));
    names
}

/// The summary of an optional description.
pub fn summary_of(description: &Option<String>) -> (short: String)
    ensures
        short@ == summary(tool::optional_view(*description)),
{
    match description {
        Some(found) => short_tool_description(Some(found.as_str())),
        None => short_tool_description(None),
    }
}

/// The help text of a command.
pub fn render_top_level_help(
    command: &str,
    cli_name: &str,
    tools: &Vec<Tool>,
    framing: &HelpFraming,
) -> (help: String)
    ensures
        help@ == top_level_help(
            command@,
            cli_name@,
            tool::tool_views(tools@),
            tool::optional_view(framing.intro),
            framing.footer@,
        ),
{
    let ghost views = tool::tool_views(tools@);
    let mut lines: Vec<String> = Vec::new();
    match &framing.intro {
        Some(intro) => {
            lines.push(intro.clone());
        },
        None => {},
    }
    let ghost intro_lines = optional_line(tool::optional_view(framing.intro));
    assert(text::texts(lines@) =~= intro_lines);
    let mut title = String::from_str(cli_name);
    title.append(" - the ");
    title.append(cli_name);
    title.append(" toolset");
    lines.push(title);
    lines.push(String::new());
    lines.push(String::from_str("USAGE:"));
    let mut usage = String::from_str("  ");
    usage.append(command);
    usage.append(" <subcommand> [options]");
    lines.push(usage);
    lines.push(String::new());
    lines.push(String::from_str("SUBCOMMANDS:"));
    let ghost heading = seq![
        toolset_title(cli_name@),
        Seq::empty(),
        "USAGE:"@,
        "  "@ + command@ + " <subcommand> [options]"@,
        Seq::empty(),
        "SUBCOMMANDS:"@,
    ];
    assert(text::texts(lines@) =~= intro_lines + heading);
    let names = subcommand_names(tools);
    let mut notes: Vec<String> = Vec::new();
    let mut i: usize = 0;
    while i < tools.len()
        invariant
            0 <= i <= tools@.len(),
            notes@.len() == i,
            forall|j: int|
                0 <= j < i ==> (#[trigger] notes@[j])@ == summary(tools@[j]@.description),
        decreases tools@.len() - i,
    {
        notes.push(summary_of(&tools[i].description));
        i = i + 1;
    }
    assert(text::texts(notes@) =~= summaries(views));
    assert(text::texts(names@).len() == names@.len());
    push_table_rows(&mut lines, &names, &notes);
    let ghost rows = table_rows(subcommands(views), summaries(views));
    assert(text::texts(lines@) =~= intro_lines + heading + rows);
    lines.push(String::new());
    lines.push(framing.footer.clone());
    assert(text::texts(lines@) =~= intro_lines + heading + rows + seq![
        Seq::empty(),
        framing.footer@,
    ]);
    proof {
        reveal_strlit("\n");
        assert("\n"@ =~= seq!['\n']);
    }
    text::joined(&lines, "\n")
}

/// What stands for the value of a flag: the allowed values, or else the type.
pub open spec fn placeholder(schema: JsonView) -> Seq<char> {
    let allowed = json_schema::allowed_values(schema);
    if allowed.len() > 0 {
        "<"@ + text::join(allowed, "|"@) + ">"@
    } else {
        match schema.get_text("type"@) {
            Some(name) => "<"@ + name + ">"@,
            None => "<value>"@,
        }
    }
}

/// The sentence that the description of a property gives, if it is not empty.
pub open spec fn description_sentence(schema: JsonView) -> Seq<Seq<char>> {
    match schema.get_text("description"@) {
        Some(found) => if text::trim(found).len() > 0 {
            seq![text::trim(found)]
        } else {
            Seq::empty()
        },
        None => Seq::empty(),
    }
}

/// The sentence that names the default of a property, if it has one.
pub open spec fn default_sentence(schema: JsonView) -> Seq<Seq<char>> {
    match schema.get("default"@) {
        Some(value) => seq!["Default: "@ + json_schema::shown(value) + "."@],
        None => Seq::empty(),
    }
}

/// The sentence that lists the allowed values of a property, if the schema lists them.
pub open spec fn allowed_sentence(schema: JsonView) -> Seq<Seq<char>> {
    let allowed = json_schema::allowed_values(schema);
    if allowed.len() > 0 {
        seq!["Allowed values: "@ + text::join(allowed, ", "@) + "."@]
    } else {
        Seq::empty()
    }
}

/// What the help text says of a property.
pub open spec fn option_details(schema: JsonView, required: bool) -> Seq<char> {
    text::join(
        description_sentence(schema) + (if required {
            seq!["Required."@]
        } else {
            Seq::empty()
        }) + default_sentence(schema) + allowed_sentence(schema),
        " "@,
    )
}

/// The lines on one flag: the flag with its value, and below it what there is to say of it.
pub open spec fn option_block(key: Seq<char>, schema: JsonView, required: bool) -> Seq<char> {
    let flag = "  --"@ + mapping::kebab_case(key) + " "@ + placeholder(schema);
    let details = option_details(schema, required);
    if details.len() > 0 {
        flag + "\n      "@ + details
    } else {
        flag
    }
}

/// The lines on all flags, under their heading.
pub open spec fn option_blocks(schema: JsonView) -> Seq<Seq<char>> {
    match json_schema::properties(schema) {
        Some(members) => if members.len() > 0 {
            seq![Seq::empty(), "OPTIONS:"@] + Seq::new(
                members.len(),
                |i: int|
                    option_block(
                        members[i].0,
                        members[i].1,
                        json_schema::is_required(schema, members[i].0),
                    ),
            )
        } else {
            Seq::empty()
        },
        None => Seq::empty(),
    }
}

/// The description of a tool, behind an empty line, if it is not empty.
pub open spec fn description_lines(description: Option<Seq<char>>) -> Seq<Seq<char>> {
    match description {
        Some(found) => if text::trim(found).len() > 0 {
            seq![Seq::empty(), text::trim(found)]
        } else {
            Seq::empty()
        },
        None => Seq::empty(),
    }
}

/// The help text of a subcommand: its description, its usage and its flags.
pub open spec fn subcommand_help(cli_name: Seq<char>, tool: ToolView) -> Seq<char> {
    let call = cli_name + " "@ + mapping::kebab_case(tool.name);
    text::join(
        seq![call] + description_lines(tool.description) + seq![
            Seq::empty(),
            "USAGE:"@,
            "  "@ + call + " [options]"@,
        ] + option_blocks(tool.input_schema),
        "\n"@,
    )
}

/// What stands for the value of a flag.
fn placeholder_of(schema: &Json) -> (shown: String)
    ensures
        shown@ == placeholder(schema@),
{
    let allowed = json_schema::allowed_values_of(schema);
    assert(text::texts(allowed@).len() == allowed@.len());
    if allowed.len() > 0 {
        let mut shown = String::from_str("<");
        shown.append(text::joined(&allowed, "|").as_str());
        shown.append(">");
        shown
    } else {
        match schema.get_text("type") {
            Some(name) => {
                let mut shown = String::from_str("<");
                shown.append(name.as_str());
                shown.append(">");
                shown
            },
            None => String::from_str("<value>"),
        }
    }
}

/// What the help text says of a property.
fn option_details_of(schema: &Json, required: bool) -> (details: String)
    ensures
        details@ == option_details(schema@, required),
{
    let mut sentences: Vec<String> = Vec::new();
    if let Some(found) = schema.get_text("description") {
        let trimmed = text::trimmed(found.as_str());
        if !trimmed.as_str().is_empty() {
            sentences.push(trimmed);
        }
    }
    let ghost described = description_sentence(schema@);
    assert(text::texts(sentences@) =~= described);
    if required {
        sentences.push(String::from_str("Required."));
    }
    let ghost needed = if required {
        seq!["Required."@]
    } else {
        Seq::empty()
    };
    assert(text::texts(sentences@) =~= described + needed);
    if let Some(value) = schema.get("default") {
        let mut sentence = String::from_str("Default: ");
        sentence.append(json_schema::shown_text(value).as_str());
        sentence.append(".");
        sentences.push(sentence);
    }
    assert(text::texts(sentences@) =~= described + needed + default_sentence(schema@));
    let allowed = json_schema::allowed_values_of(schema);
    assert(text::texts(allowed@).len() == allowed@.len());
    if allowed.len() > 0 {
        let mut sentence = String::from_str("Allowed values: ");
        sentence.append(text::joined(&allowed, ", ").as_str());
        sentence.append(".");
        sentences.push(sentence);
    }
    assert(text::texts(sentences@) =~= described + needed + default_sentence(schema@)
        + allowed_sentence(schema@));
    text::joined(&sentences, " ")
}

/// The lines on one flag.
fn option_block_of(key: &str, schema: &Json, required: bool) -> (block: String)
    ensures
        block@ == option_block(key@, schema@, required),
{
    let mut block = String::from_str("  --");
    block.append(tool_name_to_subcommand(key).as_str());
    block.append(" ");
    block.append(placeholder_of(schema).as_str());
    let details = option_details_of(schema, required);
    if !details.as_str().is_empty() {
        block.append("\n      ");
        block.append(details.as_str());
    }
    block
}

/// The help text of a subcommand.
pub fn render_subcommand_help(cli_name: &str, tool: &Tool) -> (help: String)
    ensures
        help@ == subcommand_help(cli_name@, tool@),
{
    let mut call = String::from_str(cli_name);
    call.append(" ");
    call.append(tool_name_to_subcommand(tool.name.as_str()).as_str());
    let ghost call_text = cli_name@ + " "@ + mapping::kebab_case(tool.name@);
    let mut usage = String::from_str("  ");
    usage.append(call.as_str());
    usage.append(" [options]");
    let mut lines: Vec<String> = Vec::new();
    lines.push(call);
    if let Some(found) = &tool.description {
        let trimmed = text::trimmed(found.as_str());
        if !trimmed.as_str().is_empty() {
            lines.push(String::new());
            lines.push(trimmed);
        }
    }
    let ghost opening = seq![call_text] + description_lines(tool@.description);
    assert(text::texts(lines@) =~= opening);
    lines.push(String::new());
    lines.push(String::from_str("USAGE:"));
    lines.push(usage);
    let ghost heading = opening + seq![
        Seq::empty(),
        "USAGE:"@,
        "  "@ + call_text + " [options]"@,
    ];
    assert(text::texts(lines@) =~= heading);
    let ghost blocks = option_blocks(tool.input_schema@);
    if let Some(object) = json_schema::properties_of(&tool.input_schema) {
        let members = object.members();
        assert(members@.len() == object@.len());
        if members.len() > 0 {
            lines.push(String::new());
            lines.push(String::from_str("OPTIONS:"));
            assert(text::texts(lines@) =~= heading + blocks.take(2));
            let mut i: usize = 0;
            while i < members.len()
                invariant
                    0 <= i <= members@.len(),
                    members@.len() > 0,
                    json::member_views(members@) == object@,
                    json_schema::properties(tool.input_schema@) == Some(object@),
                    blocks == option_blocks(tool.input_schema@),
                    text::texts(lines@) == heading + blocks.take(i + 2),
                decreases members@.len() - i,
            {
                let key = members[i].0.as_str();
                let required = json_schema::requires_property(&tool.input_schema, key);
                let block = option_block_of(key, &members[i].1, required);
                let ghost above = lines@;
                let ghost added = block@;
                lines.push(block);
                proof {
                    assert(object@[i as int] == (members@[i as int].0@, members@[i as int].1@));
                    assert(blocks[i + 2] == added);
                    assert(text::texts(lines@) =~= text::texts(above).push(added));
                    assert(text::texts(lines@) =~= heading + blocks.take(i + 3));
                }
                i = i + 1;
            }
            assert(blocks.take(members@.len() as int + 2) =~= blocks);
        } else {
            assert(heading + blocks =~= heading);
        }
    } else {
        assert(heading + blocks =~= heading);
    }
    text::joined(&lines, "\n")
}

}
