//! The help on generated modules: which functions they hold, and how to learn more of them.

use vstd::prelude::*;

use crate::cli::help;
use crate::cli::help::{push_table_rows, summary_of};
use crate::ffi::dto;
use crate::ffi::dto::{FfiClientArtifactKind, FfiTool};
use crate::ffi::naming;
use crate::ffi::naming::{snake_to_camel, to_snake_case};
use crate::json;
use crate::json::JsonView;
use crate::json_schema;
use crate::json_schema::{properties_of, requires_property};
use crate::platform;
use crate::platform::{join_path, Platform};
use crate::text;
use crate::tool::ToolView;

verus! {

/// The name of the function for a tool.
pub open spec fn function_name(kind: FfiClientArtifactKind, name: Seq<char>) -> Seq<char> {
    if kind == FfiClientArtifactKind::Python {
        naming::snake_case(name)
    } else {
        naming::camel_case(name)
    }
}

/// A parameter of the function for a tool: its name, with a mark if the property is optional.
pub open spec fn parameter(
    kind: FfiClientArtifactKind,
    schema: JsonView,
    property: Seq<char>,
) -> Seq<char> {
    if kind == FfiClientArtifactKind::Python {
        naming::snake_case(property) + if json_schema::is_required(schema, property) {
            Seq::empty()
        } else {
            "=None"@
        }
    } else {
        property + if json_schema::is_required(schema, property) {
            Seq::empty()
        } else {
            "?"@
        }
    }
}

/// The parameters of the function for a tool, one for each property.
pub open spec fn parameters(
    kind: FfiClientArtifactKind,
    schema: JsonView,
    properties: Seq<(Seq<char>, JsonView)>,
) -> Seq<Seq<char>> {
    properties.map_values(|member: (Seq<char>, JsonView)| parameter(kind, schema, member.0))
}

/// The signature of the function for a tool.
pub open spec fn signature(kind: FfiClientArtifactKind, tool: ToolView) -> Seq<char> {
    function_name(kind, tool.name) + "("@ + match json_schema::properties(tool.input_schema) {
        Some(members) => text::join(parameters(kind, tool.input_schema, members), ", "@),
        None => Seq::empty(),
    } + ")"@
}

/// The signatures of the functions for tools.
pub open spec fn signatures(kind: FfiClientArtifactKind, tools: Seq<ToolView>) -> Seq<Seq<char>> {
    tools.map_values(|tool: ToolView| signature(kind, tool))
}

/// The signature of the function for a tool.
pub fn code_function_signature(kind: FfiClientArtifactKind, described: &FfiTool) -> (shown: String)
    requires
        kind != FfiClientArtifactKind::Cli,
    ensures
        shown@ == signature(kind, described@),
{
    let is_python = kind == FfiClientArtifactKind::Python;
    let schema = &described.input_schema;
    let mut shown = if is_python {
        to_snake_case(described.name.as_str())
    } else {
        snake_to_camel(described.name.as_str())
    };
    shown.append("(");
    match properties_of(schema) {
        Some(properties) => {
            let members = properties.members();
            let mut args: Vec<String> = Vec::new();
            let mut i: usize = 0;
            while i < members.len()
                invariant
                    0 <= i <= members@.len(),
                    is_python == (kind == FfiClientArtifactKind::Python),
                    json::member_views(members@) == properties@,
                    args@.len() == i,
                    forall|j: int|
                        0 <= j < i ==> (#[trigger] args@[j])@ == parameter(
                            kind,
                            schema@,
                            properties@[j].0,
                        ),
                decreases members@.len() - i,
            {
                let key = members[i].0.as_str();
                assert(properties@[i as int].0 == key@);
                let mut arg = if is_python {
                    to_snake_case(key)
                } else {
                    String::from_str(key)
                };
                if !requires_property(schema, key) {
                    if is_python {
                        arg.append("=None");
                    } else {
                        arg.append("?");
                    }
                }
                assert(arg@ =~= parameter(kind, schema@, key@));
                args.push(arg);
                i = i + 1;
            }
            assert(text::texts(args@) =~= parameters(kind, schema@, properties@));
            shown.append(text::joined(&args, ", ").as_str());
        },
        None => {},
    }
    shown.append(")");
    assert(shown@ =~= signature(kind, described@));
    shown
}

/// The name of the language of a module.
pub open spec fn language(kind: FfiClientArtifactKind) -> Seq<char> {
    if kind == FfiClientArtifactKind::Python {
        "Python"@
    } else {
        "TypeScript"@
    }
}

/// The name of the language of a module, in lower case.
pub open spec fn language_lower(kind: FfiClientArtifactKind) -> Seq<char> {
    if kind == FfiClientArtifactKind::Python {
        "python"@
    } else {
        "typescript"@
    }
}

/// The name of the file of a module.
pub open spec fn module_file(kind: FfiClientArtifactKind, server_name: Seq<char>) -> Seq<char> {
    if kind == FfiClientArtifactKind::Python {
        server_name + ".py"@
    } else {
        server_name + ".ts"@
    }
}

/// The line that sends the reader of a help tool to the module.
pub open spec fn module_intro(kind: FfiClientArtifactKind, server_name: Seq<char>) -> Seq<char> {
    "Functionality associated with the "@ + server_name + " toolset is provided via a "@ + language(
        kind,
    ) + " module. Do not call this tool - import and use the "@ + language_lower(kind)
        + " functionality instead."@
}

/// The lines before the functions of a module.
pub open spec fn module_heading(
    platform: Platform,
    kind: FfiClientArtifactKind,
    server_name: Seq<char>,
    output_dir: Seq<char>,
) -> Seq<Seq<char>> {
    seq![
        module_intro(kind, server_name),
        help::toolset_title(server_name),
        Seq::empty(),
        language(kind) + " source code is available in "@ + platform::join(
            platform,
            output_dir,
            module_file(kind, server_name),
        ),
        Seq::empty(),
        "Available functions:"@,
    ]
}

/// The lines behind the functions of a module: where to learn more of a function.
pub open spec fn module_footer(
    platform: Platform,
    kind: FfiClientArtifactKind,
    server_name: Seq<char>,
    output_dir: Seq<char>,
) -> Seq<Seq<char>> {
    if kind == FfiClientArtifactKind::Python {
        seq![
            Seq::empty(),
            "For details on a specific function, run:"@,
            "```python"@,
            "from "@ + server_name + " import <function>"@,
            "print(help(<function>))"@,
            "```"@,
        ]
    } else {
        seq![
            Seq::empty(),
            "For details on a specific function, inspect the TypeScript declarations or editor hover documentation."@,
            "Primary declarations: "@ + platform::join(platform, output_dir, server_name + ".d.ts"@),
        ]
    }
}

/// The help on a module: where it is, and its functions with the summaries of their tools.
pub open spec fn code_help(
    platform: Platform,
    kind: FfiClientArtifactKind,
    server_name: Seq<char>,
    output_dir: Seq<char>,
    tools: Seq<ToolView>,
) -> Seq<char> {
    text::join(
        module_heading(platform, kind, server_name, output_dir) + help::table_rows(
            signatures(kind, tools),
            help::summaries(tools),
        ) + module_footer(platform, kind, server_name, output_dir),
        seq!['\n'],
    )
}

/// The help on a module lists the signature of the function for every tool.
pub proof fn law_code_help_lists_signatures(
    platform: Platform,
    kind: FfiClientArtifactKind,
    server_name: Seq<char>,
    output_dir: Seq<char>,
    tools: Seq<ToolView>,
    i: int,
)
    requires
        0 <= i < tools.len(),
    ensures
        text::holds(
            code_help(platform, kind, server_name, output_dir, tools),
            signature(kind, tools[i]),
        ),
{
    let heading = module_heading(platform, kind, server_name, output_dir);
    let rows = help::table_rows(signatures(kind, tools), help::summaries(tools));
    let lines = heading + rows + module_footer(platform, kind, server_name, output_dir);
    let shown = signature(kind, tools[i]);
    reveal_strlit(")");
    assert(shown.last() == ')');
    assert(lines[heading.len() + i] == rows[i]);
    text::lemma_join_holds(lines, seq!['\n'], heading.len() + i);
    help::lemma_row_holds_name(
        shown,
        help::summaries(tools)[i],
        text::widest(signatures(kind, tools)) + 2,
    );
    text::lemma_holds_inside(
        code_help(platform, kind, server_name, output_dir, tools),
        rows[i],
        shown,
    );
}

/// The lines before the functions of a module.
fn heading_lines(
    platform: Platform,
    kind: FfiClientArtifactKind,
    server_name: &str,
    output_dir: &str,
) -> (lines: Vec<String>)
    ensures
        text::texts(lines@) == module_heading(platform, kind, server_name@, output_dir@),
{
    let is_python = kind == FfiClientArtifactKind::Python;
    let (language_name, lower_name, extension) = if is_python {
        ("Python", "python", ".py")
    } else {
        ("TypeScript", "typescript", ".ts")
    };
    let mut module_name = String::from_str(server_name);
    module_name.append(extension);
    let source_path = join_path(platform, output_dir, module_name.as_str());
    let mut intro = String::from_str("Functionality associated with the ");
    intro.append(server_name);
    intro.append(" toolset is provided via a ");
    intro.append(language_name);
    intro.append(" module. Do not call this tool - import and use the ");
    intro.append(lower_name);
    intro.append(" functionality instead.");
    let mut title = String::from_str(server_name);
    title.append(" - the ");
    title.append(server_name);
    title.append(" toolset");
    let mut source = String::from_str(language_name);
    source.append(" source code is available in ");
    source.append(source_path.as_str());
    let mut lines: Vec<String> = Vec::new();
    lines.push(intro);
    lines.push(title);
    lines.push(String::new());
    lines.push(source);
    lines.push(String::new());
    lines.push(String::from_str("Available functions:"));
    assert(text::texts(lines@) =~= module_heading(platform, kind, server_name@, output_dir@));
    lines
}

/// Appends the lines behind the functions of a module.
fn push_footer_lines(
    lines: &mut Vec<String>,
    platform: Platform,
    kind: FfiClientArtifactKind,
    server_name: &str,
    output_dir: &str,
)
    ensures
        text::texts(final(lines)@) == text::texts(old(lines)@) + module_footer(
            platform,
            kind,
            server_name@,
            output_dir@,
        ),
{
    let ghost above = lines@;
    lines.push(String::new());
    if kind == FfiClientArtifactKind::Python {
        let mut import = String::from_str("from ");
        import.append(server_name);
        import.append(" import <function>");
        lines.push(String::from_str("For details on a specific function, run:"));
        lines.push(String::from_str("```python"));
        lines.push(import);
        lines.push(String::from_str("print(help(<function>))"));
        lines.push(String::from_str("```"));
    } else {
        let mut declarations = String::from_str(server_name);
        declarations.append(".d.ts");
        let mut primary = String::from_str("Primary declarations: ");
        primary.append(join_path(platform, output_dir, declarations.as_str()).as_str());
        lines.push(
            String::from_str(
                "For details on a specific function, inspect the TypeScript declarations or editor hover documentation.",
            ),
        );
        lines.push(primary);
    }
    assert(text::texts(lines@) =~= text::texts(above) + module_footer(
        platform,
        kind,
        server_name@,
        output_dir@,
    ));
}

/// The help on a module.
pub fn code_help_description(
    platform: Platform,
    kind: FfiClientArtifactKind,
    server_name: &str,
    output_dir: &str,
    tools: &Vec<FfiTool>,
) -> (description: String)
    requires
        kind != FfiClientArtifactKind::Cli,
    ensures
        description@ == code_help(
            platform,
            kind,
            server_name@,
            output_dir@,
            dto::ffi_tool_views(tools@),
        ),
{
    let ghost views = dto::ffi_tool_views(tools@);
    let mut lines = heading_lines(platform, kind, server_name, output_dir);
    let mut names: Vec<String> = Vec::new();
    let mut notes: Vec<String> = Vec::new();
    let mut i: usize = 0;
    while i < tools.len()
        invariant
            kind != FfiClientArtifactKind::Cli,
            0 <= i <= tools@.len(),
            names@.len() == i,
            notes@.len() == i,
            forall|j: int| 0 <= j < i ==> (#[trigger] names@[j])@ == signature(kind, tools@[j]@),
            forall|j: int|
                0 <= j < i ==> (#[trigger] notes@[j])@ == help::summary(tools@[j]@.description),
        decreases tools@.len() - i,
    {
        names.push(code_function_signature(kind, &tools[i]));
        notes.push(summary_of(&tools[i].description));
        i = i + 1;
    }
    assert(text::texts(names@) =~= signatures(kind, views));
    assert(text::texts(notes@) =~= help::summaries(views));
    push_table_rows(&mut lines, &names, &notes);
    push_footer_lines(&mut lines, platform, kind, server_name, output_dir);
    proof {
        reveal_strlit("\n");
        assert("\n"@ =~= seq!['\n']);
    }
    text::joined(&lines, "\n")
}

}
