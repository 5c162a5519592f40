//! The help on generated modules: signatures, and the rows that list them.

use vstd::prelude::*;

use crate::cli::help;
use crate::cli::help::summary_of;
use crate::ffi::code_help;
use crate::ffi::code_help::{code_function_signature, code_help_description};
use crate::ffi::dto;
use crate::ffi::dto::{FfiClientArtifactKind, FfiTool};
use crate::ffi::naming::{snake_to_camel, to_snake_case};
use crate::json::JsonView;
use crate::json_schema;
use crate::platform::{join_path, Platform};
use crate::text;

verus! {

/// Whether an item of the array that the schema holds under `required` is the text `key`.
pub open spec fn listed_as_required(schema: JsonView, key: Seq<char>) -> bool {
    exists|items: Seq<JsonView>, i: int|
        {
            &&& schema.get("required"@) == Some(JsonView::Array(items))
            &&& 0 <= i < items.len()
            &&& #[trigger] items[i] == JsonView::Text(key)
        }
}

/// The members of the object that the schema holds under `properties`; none if there is no such
/// object.
pub open spec fn described_properties(schema: JsonView) -> Seq<(Seq<char>, JsonView)> {
    match schema.get("properties"@) {
        Some(JsonView::Object(members)) => members,
        _ => Seq::empty(),
    }
}

/// Whether `shown` is a parameter in Python for a property: its name in snake case, and behind it
/// `=None` exactly if the schema does not list the property as required.
pub open spec fn is_python_parameter(schema: JsonView, key: Seq<char>, shown: Seq<char>) -> bool {
    forall|name: &str, snake: String|
        name@ == key && #[trigger] call_ensures(to_snake_case, (name,), snake) ==> shown
            == if listed_as_required(schema, key) {
            snake@
        } else {
            snake@ + "=None"@
        }
}

/// Whether `shown` is a parameter in TypeScript for a property: its name, and behind it a question
/// mark exactly if the schema does not list the property as required.
pub open spec fn is_typescript_parameter(
    schema: JsonView,
    key: Seq<char>,
    shown: Seq<char>,
) -> bool {
    shown == if listed_as_required(schema, key) {
        key
    } else {
        key + "?"@
    }
}

/// Whether the texts are the parameters in Python for the properties of a schema, one for each
/// property, in order.
pub open spec fn are_python_parameters(schema: JsonView, parameters: Seq<Seq<char>>) -> bool {
    &&& parameters.len() == described_properties(schema).len()
    &&& forall|i: int|
        0 <= i < parameters.len() ==> is_python_parameter(
            schema,
            described_properties(schema)[i].0,
            #[trigger] parameters[i],
        )
}

/// Whether the texts are the parameters in TypeScript for the properties of a schema, one for each
/// property, in order.
pub open spec fn are_typescript_parameters(schema: JsonView, parameters: Seq<Seq<char>>) -> bool {
    &&& parameters.len() == described_properties(schema).len()
    &&& forall|i: int|
        0 <= i < parameters.len() ==> is_typescript_parameter(
            schema,
            described_properties(schema)[i].0,
            #[trigger] parameters[i],
        )
}

/// A property is required exactly if it is listed.
pub proof fn lemma_listed(schema: JsonView, key: Seq<char>)
    ensures
        json_schema::is_required(schema, key) == listed_as_required(schema, key),
{
    match schema.get("required"@) {
        Some(JsonView::Array(items)) => {
            if items.contains(JsonView::Text(key)) {
                let i = items.index_of(JsonView::Text(key));
                assert(items[i] == JsonView::Text(key));
            }
        },
        _ => {},
    }
}

/// A signature in Python: the name of the tool in snake case and, in round brackets, one parameter
/// for each property, in order, with commas between them.
pub proof fn law_python_signature(described: &FfiTool, shown: String)
    requires
        call_ensures(code_function_signature, (FfiClientArtifactKind::Python, described), shown),
    ensures
        exists|parameters: Seq<Seq<char>>|
            {
                &&& #[trigger] are_python_parameters(described@.input_schema, parameters)
                &&& forall|name: &str, snake: String|
                    name@ == described@.name && #[trigger] call_ensures(
                        to_snake_case,
                        (name,),
                        snake,
                    ) ==> shown@ == snake@ + "("@ + text::join(parameters, ", "@) + ")"@
            },
{
    let kind = FfiClientArtifactKind::Python;
    let schema = described@.input_schema;
    let properties = described_properties(schema);
    let parameters = code_help::parameters(kind, schema, properties);
    assert forall|i: int| 0 <= i < properties.len() implies is_python_parameter(
        schema,
        properties[i].0,
        #[trigger] parameters[i],
    ) by {
        lemma_listed(schema, properties[i].0);
        assert forall|name: &str, snake: String|
            name@ == properties[i].0 && #[trigger] call_ensures(
                to_snake_case,
                (name,),
                snake,
            ) implies parameters[i] == if listed_as_required(schema, properties[i].0) {
            snake@
        } else {
            snake@ + "=None"@
        } by {
            assert(snake@ + Seq::<char>::empty() =~= snake@);
        }
    }
    assert(are_python_parameters(schema, parameters));
    assert(text::join(parameters, ", "@) =~= match json_schema::properties(schema) {
        Some(members) => text::join(code_help::parameters(kind, schema, members), ", "@),
        None => Seq::empty(),
    });
}

/// A signature in TypeScript: the name of the tool in camel case and, in round brackets, one
/// parameter for each property, in order, with commas between them.
pub proof fn law_typescript_signature(described: &FfiTool, shown: String)
    requires
        call_ensures(
            code_function_signature,
            (FfiClientArtifactKind::TypeScript, described),
            shown,
        ),
    ensures
        exists|parameters: Seq<Seq<char>>|
            {
                &&& #[trigger] are_typescript_parameters(described@.input_schema, parameters)
                &&& forall|name: &str, camel: String|
                    name@ == described@.name && #[trigger] call_ensures(
                        snake_to_camel,
                        (name,),
                        camel,
                    ) ==> shown@ == camel@ + "("@ + text::join(parameters, ", "@) + ")"@
            },
{
    let kind = FfiClientArtifactKind::TypeScript;
    let schema = described@.input_schema;
    let properties = described_properties(schema);
    let parameters = code_help::parameters(kind, schema, properties);
    assert forall|i: int| 0 <= i < properties.len() implies is_typescript_parameter(
        schema,
        properties[i].0,
        #[trigger] parameters[i],
    ) by {
        lemma_listed(schema, properties[i].0);
        assert(properties[i].0 + Seq::<char>::empty() =~= properties[i].0);
    }
    assert(are_typescript_parameters(schema, parameters));
    assert(text::join(parameters, ", "@) =~= match json_schema::properties(schema) {
        Some(members) => text::join(code_help::parameters(kind, schema, members), ", "@),
        None => Seq::empty(),
    });
}

/// Without a list of required properties every parameter of a signature carries the mark of an
/// optional one.
pub proof fn law_all_parameters_optional(schema: JsonView, key: Seq<char>)
    requires
        !(schema.get("required"@) matches Some(JsonView::Array(_))),
    ensures
        !listed_as_required(schema, key),
{
}

/// Whether `row` lists something and what there is to say of it: both stand in the row, the second
/// from column `width` on, with two spaces at least between them. White space at the end of the row
/// is cut off.
pub open spec fn is_row(row: Seq<char>, name: Seq<char>, note: Seq<char>, width: nat) -> bool {
    &&& name.len() + 2 <= width
    &&& row == text::trim_end(
        seq![' ', ' '] + name + Seq::new((width - name.len()) as nat, |i: int| ' ') + note,
    )
}

/// Whether the rows list the names and the notes, one by one, the notes all in one column: two
/// characters behind the number of bytes of the widest name.
pub open spec fn are_rows(
    names: Seq<Seq<char>>,
    notes: Seq<Seq<char>>,
    rows: Seq<Seq<char>>,
) -> bool {
    &&& rows.len() == names.len()
    &&& notes.len() == names.len()
    &&& forall|i: int|
        0 <= i < rows.len() ==> is_row(
            #[trigger] rows[i],
            names[i],
            notes[i],
            text::widest(names) + 2,
        )
}

/// The rows of a table list its names and its notes.
pub proof fn lemma_table_rows(names: Seq<Seq<char>>, notes: Seq<Seq<char>>)
    requires
        names.len() == notes.len(),
    ensures
        are_rows(names, notes, help::table_rows(names, notes)),
{
    let width = text::widest(names) + 2;
    let rows = help::table_rows(names, notes);
    assert forall|i: int| 0 <= i < rows.len() implies is_row(
        #[trigger] rows[i],
        names[i],
        notes[i],
        width,
    ) by {
        text::lemma_widest(names, i);
        text::lemma_char_count_within_bytes(names[i]);
        reveal_strlit("  ");
        assert("  "@ =~= seq![' ', ' ']);
        assert("  "@ + text::pad_right(names[i], width) + notes[i] =~= seq![' ', ' '] + names[i]
            + Seq::new((width - names[i].len()) as nat, |i: int| ' ') + notes[i]);
    }
}

/// Whether the texts are the signatures of the functions for the tools, one by one.
pub open spec fn are_signatures(
    kind: FfiClientArtifactKind,
    tools: Seq<FfiTool>,
    names: Seq<Seq<char>>,
) -> bool {
    &&& names.len() == tools.len()
    &&& forall|i: int, signature: String|
        0 <= i < tools.len() && #[trigger] call_ensures(
            code_function_signature,
            (kind, &tools[i]),
            signature,
        ) ==> names[i] == signature@
}

/// Whether the texts are the summaries of the tools, one by one.
pub open spec fn are_summaries(tools: Seq<FfiTool>, notes: Seq<Seq<char>>) -> bool {
    &&& notes.len() == tools.len()
    &&& forall|i: int, summary: String|
        0 <= i < tools.len() && #[trigger] call_ensures(
            summary_of,
            (&tools[i].description,),
            summary,
        ) ==> notes[i] == summary@
}

/// The help on a module: the lines that send the reader to it, one row for each tool, in order, with
/// the signature and the summary of the tool, and the lines on where to learn more.
pub proof fn law_module_help(
    platform: Platform,
    kind: FfiClientArtifactKind,
    server_name: &str,
    output_dir: &str,
    tools: &Vec<FfiTool>,
    description: String,
)
    requires
        kind != FfiClientArtifactKind::Cli,
        call_ensures(
            code_help_description,
            (platform, kind, server_name, output_dir, tools),
            description,
        ),
    ensures
        exists|
            heading: Seq<Seq<char>>,
            names: Seq<Seq<char>>,
            notes: Seq<Seq<char>>,
            rows: Seq<Seq<char>>,
            footer: Seq<Seq<char>>,
        |
            {
                &&& #[trigger] is_module_heading(
                    platform,
                    kind,
                    server_name@,
                    output_dir@,
                    heading,
                )
                &&& #[trigger] is_module_footer(platform, kind, server_name@, output_dir@, footer)
                &&& are_signatures(kind, tools@, names)
                &&& are_summaries(tools@, notes)
                &&& #[trigger] are_rows(names, notes, rows)
                &&& description@ == text::join(heading + rows + footer, seq!['\n'])
            },
{
    let views = dto::ffi_tool_views(tools@);
    let names = code_help::signatures(kind, views);
    let notes = help::summaries(views);
    lemma_table_rows(names, notes);
    lemma_module_frame(platform, kind, server_name@, output_dir@);
    assert(are_signatures(kind, tools@, names));
    assert(are_summaries(tools@, notes));
}

/// Whether the lines send a reader to the module: its language, the name of the server, and the file
/// in which it stands.
pub open spec fn is_module_heading(
    platform: Platform,
    kind: FfiClientArtifactKind,
    server: Seq<char>,
    dir: Seq<char>,
    heading: Seq<Seq<char>>,
) -> bool {
    &&& heading.len() == 6
    &&& heading[1] == server + " - the "@ + server + " toolset"@
    &&& heading[2].len() == 0
    &&& heading[4].len() == 0
    &&& heading[5] == "Available functions:"@
    &&& match kind {
        FfiClientArtifactKind::Python => {
            &&& heading[0] == "Functionality associated with the "@ + server
                + " toolset is provided via a "@ + "Python"@
                + " module. Do not call this tool - import and use the "@ + "python"@
                + " functionality instead."@
            &&& names_file(
                heading[3],
                "Python"@ + " source code is available in "@,
                platform,
                dir,
                server + ".py"@,
            )
        },
        FfiClientArtifactKind::TypeScript => {
            &&& heading[0] == "Functionality associated with the "@ + server
                + " toolset is provided via a "@ + "TypeScript"@
                + " module. Do not call this tool - import and use the "@ + "typescript"@
                + " functionality instead."@
            &&& names_file(
                heading[3],
                "TypeScript"@ + " source code is available in "@,
                platform,
                dir,
                server + ".ts"@,
            )
        },
        FfiClientArtifactKind::Cli => true,
    }
}

/// Whether the line is `start` and then the path of the file in the directory.
pub open spec fn names_file(
    line: Seq<char>,
    start: Seq<char>,
    platform: Platform,
    dir: Seq<char>,
    file: Seq<char>,
) -> bool {
    forall|dir_text: &str, file_text: &str, path: String|
        dir_text@ == dir && file_text@ == file && #[trigger] call_ensures(
            join_path,
            (platform, dir_text, file_text),
            path,
        ) ==> line == start + path@
}

/// Whether the lines say where to learn more of a function.
pub open spec fn is_module_footer(
    platform: Platform,
    kind: FfiClientArtifactKind,
    server: Seq<char>,
    dir: Seq<char>,
    footer: Seq<Seq<char>>,
) -> bool {
    &&& footer.len() > 0 && footer[0].len() == 0
    &&& match kind {
        FfiClientArtifactKind::Python => {
            &&& footer.len() == 6
            &&& footer[1] == "For details on a specific function, run:"@
            &&& footer[2] == "```python"@
            &&& footer[3] == "from "@ + server + " import <function>"@
            &&& footer[4] == "print(help(<function>))"@
            &&& footer[5] == "```"@
        },
        FfiClientArtifactKind::TypeScript => {
            &&& footer.len() == 3
            &&& footer[1]
                == "For details on a specific function, inspect the TypeScript declarations or editor hover documentation."@
            &&& names_file(
                footer[2],
                "Primary declarations: "@,
                platform,
                dir,
                server + ".d.ts"@,
            )
        },
        FfiClientArtifactKind::Cli => true,
    }
}

/// The lines around the rows are those of a heading and a footer.
proof fn lemma_module_frame(
    platform: Platform,
    kind: FfiClientArtifactKind,
    server: Seq<char>,
    dir: Seq<char>,
)
    requires
        kind != FfiClientArtifactKind::Cli,
    ensures
        is_module_heading(
            platform,
            kind,
            server,
            dir,
            code_help::module_heading(platform, kind, server, dir),
        ),
        is_module_footer(
            platform,
            kind,
            server,
            dir,
            code_help::module_footer(platform, kind, server, dir),
        ),
{
}

}
