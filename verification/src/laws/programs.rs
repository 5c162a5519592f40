//! Client programs: what they are assigned, and the scripts around them.

use vstd::prelude::*;

use crate::base64_text;
use crate::cli::help::{render_subcommand_help, render_top_level_help, HelpFraming};
use crate::cli::mapping;
use crate::cli::mapping::tool_name_to_subcommand;
use crate::client_gen::cli::{
    render_cli_artifacts, render_unix_script, render_windows_cmd, CliGenerator,
};
use crate::client_gen::generator;
use crate::client_gen::generator::{
    ClientGenerator, ConfigView, GeneratedArtifact, GeneratorConfig, GeneratorError,
};
use crate::client_gen::program;
use crate::client_gen::program::{
    bridge_map_literal, client_python_body, tool_schema_map_literal,
};
use crate::client_gen::program_lines;
use crate::entries;
use crate::json::JsonView;
use crate::json_text;
use crate::platform::Platform;
use crate::text;
use crate::tool;
use crate::tool::{Tool, ToolView};

verus! {

/// Whether tool `i` is the last of its name.
pub open spec fn is_last_named(tools: Seq<Tool>, i: int) -> bool {
    &&& 0 <= i < tools.len()
    &&& forall|j: int| i < j < tools.len() ==> (#[trigger] tools[j]).name@ != tools[i].name@
}

/// Whether `value` holds the tools under their names: under each name the last tool that has it, with
/// its name, its description and exactly its input schema, and nothing under any other key.
pub open spec fn holds_tools(value: JsonView, tools: Seq<Tool>) -> bool {
    &&& value is Object
    &&& forall|i: int| #[trigger]
        is_last_named(tools, i) ==> {
            &&& value.get(tools[i].name@) matches Some(entry)
            &&& entry.get("inputSchema"@) == Some(tools[i].input_schema@)
            &&& entry.get("name"@) == Some(JsonView::Text(tools[i].name@))
            &&& entry.get("description"@) == Some(
                match tools[i].description {
                    Some(found) => JsonView::Text(found@),
                    None => JsonView::Null,
                },
            )
        }
    &&& forall|key: Seq<char>|
        (forall|i: int| 0 <= i < tools.len() ==> (#[trigger] tools[i]).name@ != key)
            ==> #[trigger] value.get(key) is None
}

/// The last tool of its name is found by it.
proof fn lemma_tool_named(tools: Seq<Tool>, i: int)
    requires
        is_last_named(tools, i),
    ensures
        program::tool_named(tool::tool_views(tools), tools[i].name@) == Some(tools[i]@),
    decreases tools.len(),
{
    let views = tool::tool_views(tools);
    if i < tools.len() - 1 {
        let shorter = tools.drop_last();
        assert(tools[tools.len() - 1].name@ != tools[i].name@);
        assert(views.drop_last() =~= tool::tool_views(shorter));
        assert forall|j: int| i < j < shorter.len() implies (#[trigger] shorter[j]).name@
            != shorter[i].name@ by {
            assert(tools[j].name@ != tools[i].name@);
        }
        lemma_tool_named(shorter, i);
    }
}

/// A name that no tool has is not found.
proof fn lemma_no_tool_named(tools: Seq<Tool>, key: Seq<char>)
    requires
        forall|i: int| 0 <= i < tools.len() ==> (#[trigger] tools[i]).name@ != key,
    ensures
        program::tool_named(tool::tool_views(tools), key) is None,
    decreases tools.len(),
{
    if tools.len() > 0 {
        let shorter = tools.drop_last();
        assert(tools[tools.len() - 1].name@ != key);
        assert(tool::tool_views(tools).drop_last() =~= tool::tool_views(shorter));
        assert forall|i: int| 0 <= i < shorter.len() implies (#[trigger] shorter[i]).name@
            != key by {
            assert(tools[i].name@ != key);
        }
        lemma_no_tool_named(shorter, key);
    }
}

/// What a tool holds as a JSON value.
proof fn lemma_tool_json(described: ToolView)
    ensures
        program::tool_json(described).get("inputSchema"@) == Some(described.input_schema),
        program::tool_json(described).get("name"@) == Some(JsonView::Text(described.name)),
        program::tool_json(described).get("description"@) == Some(
            match described.description {
                Some(found) => JsonView::Text(found),
                None => JsonView::Null,
            },
        ),
{
    let members = program::tool_json(described)->Object_0;
    reveal_strlit("name");
    reveal_strlit("description");
    reveal_strlit("inputSchema");
    assert("name"@.len() == 4 && "description"@.len() == 11 && "inputSchema"@.len() == 11);
    assert("description"@[0] != "inputSchema"@[0]);
    entries::lemma_lookup_at(members, 0);
    entries::lemma_lookup_at(members, 1);
    entries::lemma_lookup_at(members, 2);
}

/// The map of tools holds the tools.
proof fn lemma_schema_members(tools: Seq<Tool>)
    ensures
        holds_tools(JsonView::Object(program::schema_members(tool::tool_views(tools))), tools),
{
    let views = tool::tool_views(tools);
    let value = JsonView::Object(program::schema_members(views));
    assert forall|i: int| #[trigger] is_last_named(tools, i) implies {
        &&& value.get(tools[i].name@) matches Some(entry)
        &&& entry.get("inputSchema"@) == Some(tools[i].input_schema@)
        &&& entry.get("name"@) == Some(JsonView::Text(tools[i].name@))
        &&& entry.get("description"@) == Some(
            match tools[i].description {
                Some(found) => JsonView::Text(found@),
                None => JsonView::Null,
            },
        )
    } by {
        program::law_schema_members(views, tools[i].name@);
        lemma_tool_named(tools, i);
        lemma_tool_json(tools[i]@);
    }
    assert forall|key: Seq<char>|
        (forall|i: int| 0 <= i < tools.len() ==> (#[trigger] tools[i]).name@
            != key) implies #[trigger] value.get(key) is None by {
        program::law_schema_members(views, key);
        lemma_no_tool_named(tools, key);
    }
}

/// The encoded map of tools is the base64 text of the UTF-8 bytes of the JSON text of a value that
/// holds the tools; no other bytes have that base64 text.
pub proof fn law_schema_map(config: &GeneratorConfig, literal: String)
    requires
        call_ensures(tool_schema_map_literal, (config,), literal),
    ensures
        exists|value: JsonView|
            {
                &&& #[trigger] holds_tools(value, config.tools@)
                &&& literal@ == base64_text::base64(
                    vstd::utf8::encode_utf8(json_text::json_text(value)),
                )
                &&& forall|bytes: Seq<u8>| #[trigger]
                    base64_text::base64(bytes) == literal@ ==> bytes == vstd::utf8::encode_utf8(
                        json_text::json_text(value),
                    )
            },
{
    let value = JsonView::Object(program::schema_members(config@.tools));
    lemma_schema_members(config.tools@);
    assert forall|bytes: Seq<u8>| #[trigger] base64_text::base64(bytes) == literal@ implies bytes
        == vstd::utf8::encode_utf8(json_text::json_text(value)) by {
        base64_text::law_base64_injective(
            bytes,
            vstd::utf8::encode_utf8(json_text::json_text(value)),
        );
    }
    assert(holds_tools(value, config.tools@));
}

/// Whether tool `i` is the last with its subcommand.
pub open spec fn is_last_subcommand(tools: Seq<Tool>, i: int) -> bool {
    &&& 0 <= i < tools.len()
    &&& forall|j: int|
        i < j < tools.len() ==> mapping::kebab_case((#[trigger] tools[j]).name@)
            != mapping::kebab_case(tools[i].name@)
}

/// Whether `names` and `helps` hold the tools under their subcommands: under each subcommand the
/// name of the last tool that has it, and the help on that tool, and nothing under any other key.
pub open spec fn holds_subcommands(
    names: JsonView,
    helps: JsonView,
    cli_name: Seq<char>,
    tools: Seq<Tool>,
) -> bool {
    &&& names is Object
    &&& helps is Object
    &&& forall|i: int, name: &str, cli: &str, subcommand: String, help: String|
        is_last_subcommand(tools, i) && name@ == tools[i].name@ && cli@ == cli_name
            && #[trigger] call_ensures(tool_name_to_subcommand, (name,), subcommand)
            && #[trigger] call_ensures(render_subcommand_help, (cli, &tools[i]), help) ==> {
            &&& names.get(subcommand@) == Some(JsonView::Text(tools[i].name@))
            &&& helps.get(subcommand@) == Some(JsonView::Text(help@))
        }
    &&& forall|key: Seq<char>|
        (forall|i: int| 0 <= i < tools.len() ==> mapping::kebab_case((#[trigger] tools[i]).name@)
            != key) ==> #[trigger] names.get(key) is None && helps.get(key) is None
}

/// The last tool with its subcommand is found by it.
proof fn lemma_tool_of_subcommand(tools: Seq<Tool>, i: int)
    requires
        is_last_subcommand(tools, i),
    ensures
        program::tool_of_subcommand(
            tool::tool_views(tools),
            mapping::kebab_case(tools[i].name@),
        ) == Some(tools[i]@),
    decreases tools.len(),
{
    if i < tools.len() - 1 {
        let shorter = tools.drop_last();
        assert(mapping::kebab_case(tools[tools.len() - 1].name@) != mapping::kebab_case(
            tools[i].name@,
        ));
        assert(tool::tool_views(tools).drop_last() =~= tool::tool_views(shorter));
        assert forall|j: int| i < j < shorter.len() implies mapping::kebab_case(
            (#[trigger] shorter[j]).name@,
        ) != mapping::kebab_case(shorter[i].name@) by {
            assert(mapping::kebab_case(tools[j].name@) != mapping::kebab_case(tools[i].name@));
        }
        lemma_tool_of_subcommand(shorter, i);
    }
}

/// A subcommand that no tool has is not found.
proof fn lemma_no_tool_of_subcommand(tools: Seq<Tool>, key: Seq<char>)
    requires
        forall|i: int|
            0 <= i < tools.len() ==> mapping::kebab_case((#[trigger] tools[i]).name@) != key,
    ensures
        program::tool_of_subcommand(tool::tool_views(tools), key) is None,
    decreases tools.len(),
{
    if tools.len() > 0 {
        let shorter = tools.drop_last();
        assert(mapping::kebab_case(tools[tools.len() - 1].name@) != key);
        assert(tool::tool_views(tools).drop_last() =~= tool::tool_views(shorter));
        assert forall|i: int| 0 <= i < shorter.len() implies mapping::kebab_case(
            (#[trigger] shorter[i]).name@,
        ) != key by {
            assert(mapping::kebab_case(tools[i].name@) != key);
        }
        lemma_no_tool_of_subcommand(shorter, key);
    }
}

/// The maps of subcommands hold the tools.
proof fn lemma_subcommand_maps(cli_name: Seq<char>, tools: Seq<Tool>)
    ensures
        holds_subcommands(
            JsonView::Object(program::subcommand_members(tool::tool_views(tools))),
            JsonView::Object(program::subcommand_help_members(cli_name, tool::tool_views(tools))),
            cli_name,
            tools,
        ),
{
    let views = tool::tool_views(tools);
    let names = JsonView::Object(program::subcommand_members(views));
    let helps = JsonView::Object(program::subcommand_help_members(cli_name, views));
    assert forall|i: int, name: &str, cli: &str, subcommand: String, help: String|
        is_last_subcommand(tools, i) && name@ == tools[i].name@ && cli@ == cli_name
            && #[trigger] call_ensures(tool_name_to_subcommand, (name,), subcommand)
            && #[trigger] call_ensures(render_subcommand_help, (cli, &tools[i]), help) implies {
        &&& names.get(subcommand@) == Some(JsonView::Text(tools[i].name@))
        &&& helps.get(subcommand@) == Some(JsonView::Text(help@))
    } by {
        program::law_subcommands(cli_name, views, subcommand@);
        lemma_tool_of_subcommand(tools, i);
    }
    assert forall|key: Seq<char>|
        (forall|i: int| 0 <= i < tools.len() ==> mapping::kebab_case((#[trigger] tools[i]).name@)
            != key) implies #[trigger] names.get(key) is None && helps.get(key) is None by {
        program::law_subcommands(cli_name, views, key);
        lemma_no_tool_of_subcommand(tools, key);
    }
}

/// Whether a line of the text is `line`.
pub open spec fn has_line(source: Seq<char>, line: Seq<char>) -> bool {
    text::split(source, '\n').contains(line)
}

/// A text without line breaks between two line breaks is a line.
proof fn lemma_has_line(source: Seq<char>, before: Seq<char>, line: Seq<char>, after: Seq<char>)
    requires
        source == before + seq!['\n'] + line + seq!['\n'] + after,
        !line.contains('\n'),
    ensures
        has_line(source, line),
{
    assert(source =~= before + seq!['\n'] + (line + seq!['\n'] + after));
    text::lemma_split_at(before, line + seq!['\n'] + after, '\n');
    text::lemma_split_at(line, after, '\n');
    text::lemma_split_one(line, '\n');
    let earlier = text::split(before, '\n');
    assert(text::split(source, '\n')[earlier.len() as int] == line);
}

/// A literal and what follows it, without line breaks.
proof fn lemma_no_breaks(start: Seq<char>, inserted: Seq<char>)
    requires
        !start.contains('\n'),
        json_text::no_control(inserted),
    ensures
        !(start + inserted).contains('\n'),
{
    let whole = start + inserted;
    assert forall|i: int| 0 <= i < whole.len() implies whole[i] != '\n' by {
        if i < start.len() {
            assert(start.contains(start[i]));
        }
    }
}

/// The program with what stands before and behind the text of the help.
proof fn lemma_help_line(config: ConfigView)
    ensures
        has_line(
            program::client_program(config),
            "TOP_HELP = "@ + json_text::json_string(program::command_help(config)),
        ),
{
    let whole = program::client_program(config);
    let inserted = json_text::json_string(program::command_help(config));
    program_lines::lemma_inserted_texts(config);
    reveal_strlit("import base64, json, os, sys, urllib.error, urllib.request\n\nTOP_HELP = ");
    reveal_strlit("TOP_HELP = ");
    reveal_strlit("\n\nBRIDGES = ");
    let line = "TOP_HELP = "@ + inserted;
    lemma_no_breaks("TOP_HELP = "@, inserted);
    let start = program::PROGRAM_START@;
    let before = start.take(59);
    let first = start + inserted + program::PROGRAM_BRIDGES@;
    program_lines::lemma_parts(config);
    let tail = program_lines::after_help(config);
    assert(start =~= before + seq!['\n'] + "TOP_HELP = "@);
    assert(program::PROGRAM_BRIDGES@ =~= seq!['\n'] + program::PROGRAM_BRIDGES@.skip(1));
    let after = program::PROGRAM_BRIDGES@.skip(1) + tail;
    assert(whole =~= before + seq!['\n'] + line + seq!['\n'] + after);
    lemma_has_line(whole, before, line, after);
}

/// The program with what stands before and behind the map of bridges.
proof fn lemma_bridges_line(config: ConfigView)
    ensures
        has_line(
            program::client_program(config),
            "BRIDGES = "@ + json_text::json_text(program::bridge_map(config)),
        ),
{
    let whole = program::client_program(config);
    let inserted = json_text::json_text(program::bridge_map(config));
    program_lines::lemma_inserted_texts(config);
    reveal_strlit("\n\nBRIDGES = ");
    reveal_strlit("BRIDGES = ");
    reveal_strlit("\n\nTOOL_SCHEMAS = json.loads(base64.b64decode(");
    let line = "BRIDGES = "@ + inserted;
    lemma_no_breaks("BRIDGES = "@, inserted);
    program_lines::lemma_parts(config);
    let start = program_lines::before_bridges(config);
    let tail = program_lines::after_bridges(config);
    let before = start + seq!['\n'];
    assert(program::PROGRAM_BRIDGES@ =~= seq!['\n'] + seq!['\n'] + "BRIDGES = "@);
    assert(program::PROGRAM_SCHEMAS@ =~= seq!['\n'] + program::PROGRAM_SCHEMAS@.skip(1));
    let after = program::PROGRAM_SCHEMAS@.skip(1) + tail;
    assert(whole =~= before + seq!['\n'] + line + seq!['\n'] + after);
    lemma_has_line(whole, before, line, after);
}

/// The fixed texts around the encoded map of tools.
proof fn lemma_schema_texts()
    ensures
        program::PROGRAM_SCHEMAS@ + "\""@ == seq!['\n'] + seq!['\n']
            + "TOOL_SCHEMAS = json.loads(base64.b64decode(\""@,
        "\""@ + program::PROGRAM_SUBCOMMANDS@ == "\").decode(\"utf-8\"))"@ + seq!['\n']
            + program::PROGRAM_SUBCOMMANDS@.skip(19),
        !"TOOL_SCHEMAS = json.loads(base64.b64decode(\""@.contains('\n'),
        json_text::no_control("\").decode(\"utf-8\"))"@),
{
    reveal_strlit("\n\nTOOL_SCHEMAS = json.loads(base64.b64decode(");
    reveal_strlit("TOOL_SCHEMAS = json.loads(base64.b64decode(\"");
    reveal_strlit("\").decode(\"utf-8\"))");
    reveal_strlit(").decode(\"utf-8\"))\n\nSUBCOMMANDS = ");
    reveal_strlit("\"");
    let fixed = program::PROGRAM_SUBCOMMANDS@;
    assert(program::PROGRAM_SCHEMAS@ + "\""@ =~= seq!['\n'] + seq!['\n']
        + "TOOL_SCHEMAS = json.loads(base64.b64decode(\""@);
    assert("\""@ + fixed =~= "\").decode(\"utf-8\"))"@ + seq!['\n'] + fixed.skip(19));
}

/// The program with what stands before and behind the encoded map of tools.
proof fn lemma_schemas_line(config: ConfigView)
    ensures
        has_line(
            program::client_program(config),
            "TOOL_SCHEMAS = json.loads(base64.b64decode(\""@ + program::encoded_schemas(
                config.tools,
            ) + "\").decode(\"utf-8\"))"@,
        ),
{
    let whole = program::client_program(config);
    let inserted = program::encoded_schemas(config.tools);
    program_lines::lemma_inserted_texts(config);
    lemma_schema_texts();
    let quote = "\""@;
    let head = "TOOL_SCHEMAS = json.loads(base64.b64decode(\""@;
    let end = "\").decode(\"utf-8\"))"@;
    let fixed = program::PROGRAM_SUBCOMMANDS@;
    let line = head + inserted + end;
    lemma_no_breaks(head, inserted);
    lemma_no_breaks(head + inserted, end);
    program_lines::lemma_parts(config);
    let start = program_lines::before_schemas(config);
    let tail = program_lines::after_schemas(config);
    let before = start + seq!['\n'];
    let after = fixed.skip(19) + tail;
    lemma_regroup_program(start, program::PROGRAM_SCHEMAS@, quote, inserted, fixed, tail);
    lemma_regroup_line(start, head, inserted, end, fixed.skip(19), tail);
    lemma_has_line(whole, before, line, after);
}

/// The quotation marks around what is inserted belong to the fixed texts.
proof fn lemma_regroup_program(
    start: Seq<char>,
    left: Seq<char>,
    quote: Seq<char>,
    inserted: Seq<char>,
    right: Seq<char>,
    tail: Seq<char>,
)
    ensures
        start + left + quote + inserted + quote + right + tail == start + (left + quote) + inserted
            + (quote + right) + tail,
{
    assert(start + left + quote + inserted + quote + right + tail =~= start + (left + quote)
        + inserted + (quote + right) + tail);
}

/// The line with the inserted text, between line breaks.
proof fn lemma_regroup_line(
    start: Seq<char>,
    head: Seq<char>,
    inserted: Seq<char>,
    end: Seq<char>,
    rest: Seq<char>,
    tail: Seq<char>,
)
    ensures
        start + (seq!['\n'] + seq!['\n'] + head) + inserted + (end + seq!['\n'] + rest) + tail == (
        start + seq!['\n']) + seq!['\n'] + (head + inserted + end) + seq!['\n'] + (rest + tail),
{
    assert(start + (seq!['\n'] + seq!['\n'] + head) + inserted + (end + seq!['\n'] + rest) + tail
        =~= (start + seq!['\n']) + seq!['\n'] + (head + inserted + end) + seq!['\n'] + (rest
        + tail));
}

/// The program with what stands before and behind the map of subcommands.
proof fn lemma_subcommands_line(config: ConfigView)
    ensures
        has_line(
            program::client_program(config),
            "SUBCOMMANDS = "@ + json_text::json_text(
                JsonView::Object(program::subcommand_members(config.tools)),
            ),
        ),
{
    let whole = program::client_program(config);
    let inserted = json_text::json_text(
        JsonView::Object(program::subcommand_members(config.tools)),
    );
    program_lines::lemma_inserted_texts(config);
    reveal_strlit(").decode(\"utf-8\"))\n\nSUBCOMMANDS = ");
    reveal_strlit("SUBCOMMANDS = ");
    reveal_strlit("\n\nSUBCOMMAND_HELP = ");
    let line = "SUBCOMMANDS = "@ + inserted;
    lemma_no_breaks("SUBCOMMANDS = "@, inserted);
    program_lines::lemma_parts(config);
    let start = program_lines::before_subcommands(config);
    let tail = program_lines::after_subcommands(config);
    let fixed = program::PROGRAM_SUBCOMMANDS@;
    let before = start + fixed.take(19);
    assert(fixed =~= fixed.take(19) + seq!['\n'] + "SUBCOMMANDS = "@);
    assert(program::PROGRAM_SUBCOMMAND_HELP@ =~= seq!['\n']
        + program::PROGRAM_SUBCOMMAND_HELP@.skip(1));
    let after = program::PROGRAM_SUBCOMMAND_HELP@.skip(1) + tail;
    assert(whole =~= before + seq!['\n'] + line + seq!['\n'] + after);
    lemma_has_line(whole, before, line, after);
}

/// The program with what stands before and behind the help on the subcommands.
proof fn lemma_subcommand_help_line(config: ConfigView)
    ensures
        has_line(
            program::client_program(config),
            "SUBCOMMAND_HELP = "@ + json_text::json_text(
                JsonView::Object(program::subcommand_help_members(config.cli_name, config.tools)),
            ),
        ),
{
    let whole = program::client_program(config);
    let inserted = json_text::json_text(
        JsonView::Object(program::subcommand_help_members(config.cli_name, config.tools)),
    );
    program_lines::lemma_inserted_texts(config);
    program_lines::lemma_function_texts();
    reveal_strlit("\n\nSUBCOMMAND_HELP = ");
    reveal_strlit("SUBCOMMAND_HELP = ");
    let line = "SUBCOMMAND_HELP = "@ + inserted;
    lemma_no_breaks("SUBCOMMAND_HELP = "@, inserted);
    program_lines::lemma_parts(config);
    let start = program_lines::before_subcommand_help(config);
    let tail = program_lines::after_subcommand_help(config);
    let before = start + seq!['\n'];
    assert(program::PROGRAM_SUBCOMMAND_HELP@ =~= seq!['\n'] + seq!['\n'] + "SUBCOMMAND_HELP = "@);
    let fixed = program::PROGRAM_FUNCTIONS@;
    assert(fixed =~= seq!['\n'] + fixed.skip(1));
    let after = fixed.skip(1) + tail;
    assert(whole =~= before + seq!['\n'] + line + seq!['\n'] + after);
    lemma_has_line(whole, before, line, after);
}

/// A client program is assigned the help of its command, as a JSON string.
pub proof fn law_program_help(
    config: &GeneratorConfig,
    cli_name: &str,
    framing: HelpFraming,
    help: String,
    body: String,
)
    requires
        cli_name@ == config.cli_name@,
        call_ensures(HelpFraming::shell, (cli_name,), framing),
        call_ensures(render_top_level_help, (cli_name, cli_name, &config.tools, &framing), help),
        call_ensures(client_python_body, (config,), body),
    ensures
        has_line(body@, "TOP_HELP = "@ + json_text::json_string(help@)),
{
    lemma_help_line(config@);
}

/// A client program is assigned its map of bridges.
pub proof fn law_program_bridges(config: &GeneratorConfig, bridges: String, body: String)
    requires
        call_ensures(bridge_map_literal, (config,), bridges),
        call_ensures(client_python_body, (config,), body),
    ensures
        has_line(body@, "BRIDGES = "@ + bridges@),
{
    lemma_bridges_line(config@);
}

/// A client program is assigned its tools, decoded from the encoded map of tools.
pub proof fn law_program_schemas(config: &GeneratorConfig, literal: String, body: String)
    requires
        call_ensures(tool_schema_map_literal, (config,), literal),
        call_ensures(client_python_body, (config,), body),
    ensures
        has_line(
            body@,
            "TOOL_SCHEMAS = json.loads(base64.b64decode(\""@ + literal@
                + "\").decode(\"utf-8\"))"@,
        ),
{
    lemma_schemas_line(config@);
}

/// A client program is assigned its subcommands and the help on them.
pub proof fn law_program_subcommands(config: &GeneratorConfig, body: String)
    requires
        call_ensures(client_python_body, (config,), body),
    ensures
        exists|names: JsonView, helps: JsonView|
            {
                &&& #[trigger] holds_subcommands(names, helps, config.cli_name@, config.tools@)
                &&& has_line(body@, "SUBCOMMANDS = "@ + json_text::json_text(names))
                &&& has_line(body@, "SUBCOMMAND_HELP = "@ + json_text::json_text(helps))
            },
{
    lemma_subcommand_maps(config.cli_name@, config.tools@);
    lemma_subcommands_line(config@);
    lemma_subcommand_help_line(config@);
}

/// A client program prints how its command is used.
pub proof fn law_program_usage(config: &GeneratorConfig, body: String)
    requires
        call_ensures(client_python_body, (config,), body),
    ensures
        text::holds(
            body@,
            json_text::json_string("Usage: "@ + config.cli_name@ + " <subcommand> [args...]"@),
        ),
{
    program_lines::lemma_parts(config@);
    assert(body@ == program_lines::before_usage(config@) + json_text::json_string(
        program::usage_line(config.cli_name@),
    ) + program::PROGRAM_END@);
}

/// The shell script hands the program to `python3`; the batch file holds the same program behind the
/// batch commands that run it.
pub proof fn law_scripts(
    config: &GeneratorConfig,
    body: String,
    shell: String,
    batch: String,
)
    requires
        call_ensures(client_python_body, (config,), body),
        call_ensures(render_unix_script, (config,), shell),
        call_ensures(render_windows_cmd, (config,), batch),
    ensures
        shell@
            == "#!/usr/bin/env sh\n# generated by mcp-compressor -- do not edit manually\nexec python3 - \"$@\" <<'PY'\n"@
            + body@ + "\nPY\n"@,
        batch@ == "@echo off\nREM = r'''\npython -x \"%~f0\" %*\nexit /b %errorlevel%\n'''\n"@
            + body@,
{
}

/// A client is a program file with the name of the command that holds the shell script and, on
/// Windows alone, a file with that name and the extension for batch files.
pub proof fn law_artifacts(
    config: &GeneratorConfig,
    platform: Platform,
    shell: String,
    batch: String,
    artifacts: Vec<GeneratedArtifact>,
)
    requires
        call_ensures(render_unix_script, (config,), shell),
        call_ensures(render_windows_cmd, (config,), batch),
        call_ensures(render_cli_artifacts, (config, platform), artifacts),
    ensures
        platform == Platform::Unix ==> artifacts@.len() == 1,
        platform == Platform::Windows ==> artifacts@.len() == 2 && artifacts@[1].file_name@
            == config.cli_name@ + ".cmd"@ && artifacts@[1].contents@ == batch@
            && !artifacts@[1].executable,
        artifacts@[0].file_name@ == config.cli_name@,
        artifacts@[0].contents@ == shell@,
        artifacts@[0].executable,
{
    let views = generator::artifact_views(artifacts@);
    assert(views.len() == artifacts@.len());
    assert(views[0] == artifacts@[0]@);
    if platform == Platform::Windows {
        assert(views[1] == artifacts@[1]@);
    }
}

/// The generator of command-line clients always renders the files for its platform.
pub proof fn law_cli_generator(
    client: &CliGenerator,
    config: &GeneratorConfig,
    artifacts: Vec<GeneratedArtifact>,
    rendered: Result<Vec<GeneratedArtifact>, GeneratorError>,
)
    requires
        call_ensures(render_cli_artifacts, (config, client.platform), artifacts),
        call_ensures(CliGenerator::render, (client, config), rendered),
    ensures
        rendered matches Ok(files) && generator::artifact_views(files@)
            == generator::artifact_views(artifacts@),
{
}

}
