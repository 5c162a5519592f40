//! The plan by which a host offers the tools of a server as a command, as commands of an
//! in-process shell, or as a module.

use vstd::prelude::*;

use crate::cli::help;
use crate::cli::help::{render_top_level_help, HelpFraming};
use crate::cli::mapping;
use crate::cli::mapping::tool_name_to_subcommand;
use crate::client_gen::cli;
use crate::client_gen::cli::CliGenerator;
use crate::client_gen::generator;
use crate::client_gen::generator::{
    artifact_map, ArtifactView, BridgeView, ClientGenerator, ConfigView, GeneratedArtifact,
    GeneratorConfig, GeneratorError,
};
use crate::client_gen::program;
use crate::client_gen::read_back;
use crate::entries;
use crate::ffi::code_help;
use crate::ffi::code_help::code_help_description;
use crate::ffi::dto;
use crate::ffi::dto::{
    copy_tools, ffi_tools_to_engine, FfiClientArtifactKind, FfiGeneratorConfig, FfiTool,
};
use crate::ffi::plan;
use crate::ffi::plan::{CommandView, HostConfigView, JustBashView, PlanView};
pub use crate::ffi::host_result::normalize_host_tool_result;
pub use crate::ffi::plan::{
    FfiHostJustBashCommandPlan, FfiHostJustBashPlan, FfiHostTransformConfig, FfiHostTransformKind,
    FfiHostTransformPlan, HostEnvironment,
};
use crate::platform;
use crate::platform::{join_path, Platform};
use crate::sorted_map::SortedMap;
use crate::text;
use crate::tool;
use crate::tool::ToolView;

verus! {

/// The text, or else the default.
pub open spec fn text_or(found: Option<Seq<char>>, default: Seq<char>) -> Seq<char> {
    match found {
        Some(given) => given,
        None => default,
    }
}

/// The text, or else a copy of the default.
fn string_or(found: Option<String>, default: &str) -> (chosen: String)
    ensures
        chosen@ == text_or(tool::optional_view(found), default@),
{
    match found {
        Some(given) => given,
        None => String::from_str(default),
    }
}

/// The name of a server; one without a name is called `mcp`.
pub fn normalize_server_name(name: Option<String>) -> (server_name: String)
    ensures
        server_name@ == text_or(tool::optional_view(name), "mcp"@),
{
    string_or(name, "mcp")
}

/// The directory of generated files, where none is asked for.
pub fn default_cli_output_dir() -> (dir: String)
    ensures
        dir@ == "./dist"@,
{
    String::from_str("./dist")
}

/// The subcommand for a tool.
pub fn cli_subcommand_name(tool_name: &str) -> (subcommand: String)
    ensures
        subcommand@ == mapping::kebab_case(tool_name@),
{
    tool_name_to_subcommand(tool_name)
}

/// The variables that put a directory before all others on the path of the platform.
pub open spec fn path_variables(platform: Platform, dir: Seq<char>) -> Seq<(Seq<char>, Seq<char>)> {
    match platform {
        Platform::Unix => seq![("PATH"@, dir + ":$PATH"@)],
        Platform::Windows => seq![("PATH"@, dir + ";%PATH%"@)],
    }
}

/// The variables that put a directory on the path of the platform.
pub fn path_environment(platform: Platform, output_dir: &str) -> (environment: SortedMap<String>)
    ensures
        environment@ == path_variables(platform, output_dir@),
{
    let mut path_value = String::from_str(output_dir);
    match platform {
        Platform::Unix => path_value.append(":$PATH"),
        Platform::Windows => path_value.append(";%PATH%"),
    }
    let mut environment: SortedMap<String> = SortedMap::new();
    environment.insert(String::from_str("PATH"), path_value);
    environment
}

/// The paths of generated files in a directory.
pub open spec fn paths_in(platform: Platform, artifacts: Seq<ArtifactView>, dir: Seq<char>) -> Seq<
    Seq<char>,
> {
    artifacts.map_values(
        |artifact: ArtifactView| platform::join(platform, dir, artifact.file_name),
    )
}

/// The paths of generated files in a directory.
pub fn artifact_paths(
    platform: Platform,
    artifacts: &Vec<GeneratedArtifact>,
    output_dir: &str,
) -> (paths: Vec<String>)
    ensures
        text::texts(paths@) == paths_in(
            platform,
            generator::artifact_views(artifacts@),
            output_dir@,
        ),
{
    let mut paths: Vec<String> = Vec::new();
    let mut i: usize = 0;
    while i < artifacts.len()
        invariant
            0 <= i <= artifacts@.len(),
            paths@.len() == i,
            forall|j: int|
                0 <= j < i ==> (#[trigger] paths@[j])@ == platform::join(
                    platform,
                    output_dir@,
                    artifacts@[j].file_name@,
                ),
        decreases artifacts@.len() - i,
    {
        paths.push(join_path(platform, output_dir, artifacts[i].file_name.as_str()));
        i = i + 1;
    }
    assert(text::texts(paths@) =~= paths_in(
        platform,
        generator::artifact_views(artifacts@),
        output_dir@,
    ));
    paths
}

/// The description of the help tool of a command.
pub open spec fn shell_help(command: Seq<char>, cli_name: Seq<char>, tools: Seq<ToolView>) -> Seq<
    char,
> {
    help::top_level_help(
        command,
        cli_name,
        tools,
        Some(help::help_tool_intro(command, cli_name)),
        help::help_footer(command),
    )
}

/// The description of the help tool of a command.
pub fn shell_tool_help_description(
    command: &str,
    cli_name: &str,
    tools: &Vec<FfiTool>,
) -> (description: String)
    ensures
        description@ == shell_help(command@, cli_name@, dto::ffi_tool_views(tools@)),
{
    let converted = ffi_tools_to_engine(tools);
    render_top_level_help(command, cli_name, &converted, &HelpFraming::help_tool(command, cli_name))
}

/// What the client of a host is generated from, with what a host may leave open filled in: the
/// address of no bridge, no token, the process of the host, and the directory `./dist`.
pub open spec fn client_config(config: HostConfigView, process_id: u32) -> ConfigView {
    ConfigView {
        cli_name: config.server_name,
        bridge_url: text_or(config.bridge_url, "http://127.0.0.1:0"@),
        token: text_or(config.token, Seq::empty()),
        tools: config.tools,
        session_pid: match config.session_pid {
            Some(given) => given,
            None => process_id,
        },
        output_dir: text_or(config.output_dir, "./dist"@),
        extra_cli_bridges: Seq::empty(),
    }
}

/// The scripts that are generated for a host record one bridge: the one that the host names.
pub proof fn law_host_scripts_record_its_bridge(config: HostConfigView, process_id: u32)
    ensures
        ({
            let client = client_config(config, process_id);
            read_back::latest_bridges(program::known_bridges(client)) == seq![
                BridgeView {
                    session_pid: client.session_pid,
                    bridge_url: client.bridge_url,
                    token: client.token,
                },
            ]
        }),
{
    let client = client_config(config, process_id);
    let known = program::known_bridges(client);
    reveal(Seq::filter);
    reveal_with_fuel(read_back::latest_bridges, 2);
    assert(known.len() == 1);
    assert(known.drop_last() =~= Seq::empty());
    assert(read_back::latest_bridges(known) =~= seq![known[0]]);
}

/// What the client of a host is generated from.
pub fn generator_config(
    server_name: &str,
    output_dir: &str,
    tools: Vec<FfiTool>,
    bridge_url: Option<String>,
    token: Option<String>,
    session_pid: Option<u32>,
    process_id: u32,
) -> (config: GeneratorConfig)
    ensures
        config@ == (ConfigView {
            cli_name: server_name@,
            bridge_url: text_or(tool::optional_view(bridge_url), "http://127.0.0.1:0"@),
            token: text_or(tool::optional_view(token), Seq::empty()),
            tools: dto::ffi_tool_views(tools@),
            session_pid: match session_pid {
                Some(given) => given,
                None => process_id,
            },
            output_dir: output_dir@,
            extra_cli_bridges: Seq::empty(),
        }),
{
    proof {
        reveal_strlit("");
        assert(""@ =~= Seq::empty());
    }
    FfiGeneratorConfig {
        cli_name: String::from_str(server_name),
        bridge_url: string_or(bridge_url, "http://127.0.0.1:0"),
        token: string_or(token, ""),
        tools,
        session_pid: match session_pid {
            Some(given) => given,
            None => process_id,
        },
        output_dir: String::from_str(output_dir),
    }.into_generator_config()
}

/// The name of the help tool of a server.
pub open spec fn help_tool(server_name: Seq<char>) -> Seq<char> {
    server_name + "_help"@
}

/// The command of an in-process shell for a tool.
pub open spec fn shell_command(described: ToolView) -> CommandView {
    CommandView {
        command_name: mapping::kebab_case(described.name),
        backend_tool_name: described.name,
        description: described.description,
        input_schema: described.input_schema,
    }
}

/// The plan for an in-process shell: one command for each tool, no files and no variables.
pub open spec fn just_bash_plan(server_name: Seq<char>, tools: Seq<ToolView>) -> PlanView {
    PlanView {
        help_tool_name: help_tool(server_name),
        help_description: shell_help(server_name, server_name, tools),
        output_dir: None,
        files: Seq::empty(),
        paths: Seq::empty(),
        environment: Seq::empty(),
        just_bash: Some(
            JustBashView {
                provider_name: server_name,
                command_name: server_name,
                help_tool_name: help_tool(server_name),
                commands: tools.map_values(|described: ToolView| shell_command(described)),
            },
        ),
    }
}

/// The plan for a command: its scripts, and the path on which they are found.
pub open spec fn cli_plan(
    platform: Platform,
    config: ConfigView,
    command_name: Seq<char>,
) -> PlanView {
    let artifacts = cli::cli_artifacts(platform, config);
    PlanView {
        help_tool_name: help_tool(config.cli_name),
        help_description: shell_help(command_name, config.cli_name, config.tools),
        output_dir: Some(config.output_dir),
        files: generator::files_by_name(artifacts),
        paths: paths_in(platform, artifacts, config.output_dir),
        environment: path_variables(platform, config.output_dir),
        just_bash: None,
    }
}

/// The plan for a command holds the scripts of the client under their names, and a path in the
/// directory of the plan for each of them.
pub proof fn law_cli_plan(platform: Platform, config: ConfigView, command_name: Seq<char>)
    ensures
        ({
            let planned = cli_plan(platform, config, command_name);
            &&& entries::lookup(planned.files, config.cli_name) == Some(cli::unix_script(config))
            &&& planned.paths[0] == platform::join(platform, config.output_dir, config.cli_name)
            &&& match platform {
                Platform::Unix => planned.paths.len() == 1,
                Platform::Windows => {
                    let batch = config.cli_name + ".cmd"@;
                    &&& planned.paths.len() == 2
                    &&& entries::lookup(planned.files, batch) == Some(cli::windows_cmd(config))
                    &&& planned.paths[1] == platform::join(platform, config.output_dir, batch)
                },
            }
        }),
{
    let artifacts = cli::cli_artifacts(platform, config);
    let batch = config.cli_name + ".cmd"@;
    reveal_strlit(".cmd");
    reveal_with_fuel(generator::file_named, 3);
    assert(batch.len() != config.cli_name.len());
    generator::law_files_by_name(artifacts, config.cli_name);
    generator::law_files_by_name(artifacts, batch);
}

/// The name of the command touches nothing but the description of the help tool of a plan for a
/// command; and a command without a name is called like its server.
pub proof fn law_command_name(
    platform: Platform,
    config: HostConfigView,
    command_name: Option<Seq<char>>,
    process_id: u32,
)
    ensures
        ({
            let renamed = HostConfigView { command_name, ..config };
            let client = client_config(config, process_id);
            let planned = cli_plan(
                platform,
                client,
                text_or(config.command_name, config.server_name),
            );
            let other = cli_plan(
                platform,
                client,
                text_or(renamed.command_name, renamed.server_name),
            );
            &&& client_config(renamed, process_id) == client
            &&& other == (PlanView { help_description: other.help_description, ..planned })
            &&& command_name is None || command_name == Some(config.server_name)
                ==> other.help_description == shell_help(
                config.server_name,
                config.server_name,
                config.tools,
            )
        }),
{
}

/// The variables that let a program find a module: Python looks for modules in the directories
/// of a variable, TypeScript does not.
pub open spec fn module_variables(kind: FfiClientArtifactKind, dir: Seq<char>) -> Seq<
    (Seq<char>, Seq<char>),
> {
    if kind == FfiClientArtifactKind::Python {
        seq![("PYTHONPATH"@, dir)]
    } else {
        Seq::empty()
    }
}

/// The plan for a module that consists of the given files.
pub open spec fn code_plan(
    platform: Platform,
    kind: FfiClientArtifactKind,
    config: ConfigView,
    artifacts: Seq<ArtifactView>,
) -> PlanView {
    PlanView {
        help_tool_name: help_tool(config.cli_name),
        help_description: code_help::code_help(
            platform,
            kind,
            config.cli_name,
            config.output_dir,
            config.tools,
        ),
        output_dir: Some(config.output_dir),
        files: generator::files_by_name(artifacts),
        paths: paths_in(platform, artifacts, config.output_dir),
        environment: module_variables(kind, config.output_dir),
        just_bash: None,
    }
}

/// The name of the help tool of a server.
fn help_tool_of(server_name: &str) -> (name: String)
    ensures
        name@ == help_tool(server_name@),
{
    let mut name = String::from_str(server_name);
    name.append("_help");
    name
}

/// The plan for an in-process shell.
pub fn build_just_bash_plan(server_name: &str, tools: &Vec<FfiTool>) -> (built: FfiHostTransformPlan)
    ensures
        built@ == just_bash_plan(server_name@, dto::ffi_tool_views(tools@)),
{
    let mut commands: Vec<FfiHostJustBashCommandPlan> = Vec::new();
    let mut i: usize = 0;
    while i < tools.len()
        invariant
            0 <= i <= tools@.len(),
            commands@.len() == i,
            forall|j: int| 0 <= j < i ==> (#[trigger] commands@[j])@ == shell_command(tools@[j]@),
        decreases tools@.len() - i,
    {
        let described = &tools[i];
        commands.push(
            FfiHostJustBashCommandPlan {
                command_name: cli_subcommand_name(described.name.as_str()),
                backend_tool_name: described.name.clone(),
                description: tool::copy_optional(&described.description),
                input_schema: described.input_schema.clone(),
            },
        );
        i = i + 1;
    }
    let paths: Vec<String> = Vec::new();
    proof {
        assert(text::texts(paths@) =~= Seq::empty());
        assert(plan::command_views(commands@) =~= dto::ffi_tool_views(tools@).map_values(
            |described: ToolView| shell_command(described),
        ));
    }
    FfiHostTransformPlan {
        help_tool_name: help_tool_of(server_name),
        help_description: shell_tool_help_description(server_name, server_name, tools),
        output_dir: None,
        files: SortedMap::new(),
        paths,
        environment: SortedMap::new(),
        just_bash: Some(
            FfiHostJustBashPlan {
                provider_name: String::from_str(server_name),
                command_name: String::from_str(server_name),
                help_tool_name: help_tool_of(server_name),
                commands,
            },
        ),
    }
}

/// The plan for a module that consists of the given files. `tools` and `config` describe the same
/// tools.
pub fn build_code_plan(
    platform: Platform,
    kind: FfiClientArtifactKind,
    config: &GeneratorConfig,
    tools: &Vec<FfiTool>,
    artifacts: &Vec<GeneratedArtifact>,
) -> (built: FfiHostTransformPlan)
    requires
        kind != FfiClientArtifactKind::Cli,
        dto::ffi_tool_views(tools@) == config@.tools,
    ensures
        built@ == code_plan(platform, kind, config@, generator::artifact_views(artifacts@)),
{
    let server_name = config.cli_name.as_str();
    let output_dir = config.output_dir.as_str();
    let mut environment: SortedMap<String> = SortedMap::new();
    if kind == FfiClientArtifactKind::Python {
        environment.insert(String::from_str("PYTHONPATH"), config.output_dir.clone());
    }
    FfiHostTransformPlan {
        help_tool_name: help_tool_of(server_name),
        help_description: code_help_description(platform, kind, server_name, output_dir, tools),
        output_dir: Some(config.output_dir.clone()),
        files: artifact_map(artifacts),
        paths: artifact_paths(platform, artifacts, output_dir),
        environment,
        just_bash: None,
    }
}

/// Whether `outcome` is what comes of a module that `client` renders: the plan for the files that
/// it renders, or the error with which it fails.
pub open spec fn is_module_outcome<G: ClientGenerator>(
    client: &G,
    platform: Platform,
    kind: FfiClientArtifactKind,
    config: ConfigView,
    outcome: Result<FfiHostTransformPlan, GeneratorError>,
) -> bool {
    exists|given: GeneratorConfig, rendered: Result<Vec<GeneratedArtifact>, GeneratorError>|
        {
            &&& given@ == config
            &&& #[trigger] call_ensures(G::render, (client, &given), rendered)
            &&& match rendered {
                Ok(artifacts) => outcome matches Ok(built) && built@ == code_plan(
                    platform,
                    kind,
                    config,
                    generator::artifact_views(artifacts@),
                ),
                Err(error) => outcome == Err::<FfiHostTransformPlan, GeneratorError>(error),
            }
        }
}

/// Whether two renderings agree: both fail, or both give files that hold the same.
pub open spec fn same_rendering(
    left: Result<Vec<GeneratedArtifact>, GeneratorError>,
    right: Result<Vec<GeneratedArtifact>, GeneratorError>,
) -> bool {
    match (left, right) {
        (Ok(first), Ok(second)) => generator::artifact_views(first@) == generator::artifact_views(
            second@,
        ),
        (Err(_), Err(_)) => true,
        _ => false,
    }
}

/// The name of the command does not touch the plan for a module, where the generator renders the
/// same for the same configuration: of two requests that differ in it alone, both fail or both
/// give plans that hold the same.
pub proof fn law_command_name_of_module<G: ClientGenerator>(
    client: &G,
    platform: Platform,
    kind: FfiClientArtifactKind,
    config: HostConfigView,
    command_name: Option<Seq<char>>,
    process_id: u32,
    first: Result<FfiHostTransformPlan, GeneratorError>,
    second: Result<FfiHostTransformPlan, GeneratorError>,
)
    requires
        forall|
            left: GeneratorConfig,
            right: GeneratorConfig,
            one: Result<Vec<GeneratedArtifact>, GeneratorError>,
            other: Result<Vec<GeneratedArtifact>, GeneratorError>,
        |
            left@ == right@ && #[trigger] call_ensures(G::render, (client, &left), one)
                && #[trigger] call_ensures(G::render, (client, &right), other) ==> same_rendering(
                one,
                other,
            ),
        is_module_outcome(client, platform, kind, client_config(config, process_id), first),
        is_module_outcome(
            client,
            platform,
            kind,
            client_config(HostConfigView { command_name, ..config }, process_id),
            second,
        ),
    ensures
        match (first, second) {
            (Ok(left), Ok(right)) => left@ == right@,
            (Err(_), Err(_)) => true,
            _ => false,
        },
{
}

/// Renders a module with `client` and plans for it.
pub fn build_module_plan<G: ClientGenerator>(
    client: &G,
    platform: Platform,
    kind: FfiClientArtifactKind,
    config: &GeneratorConfig,
    tools: &Vec<FfiTool>,
) -> (outcome: Result<FfiHostTransformPlan, GeneratorError>)
    requires
        kind != FfiClientArtifactKind::Cli,
        dto::ffi_tool_views(tools@) == config@.tools,
    ensures
        is_module_outcome(client, platform, kind, config@, outcome),
{
    let rendered = client.render(config);
    assert(call_ensures(G::render, (client, config), rendered));
    match rendered {
        Ok(artifacts) => Ok(build_code_plan(platform, kind, config, tools, &artifacts)),
        Err(error) => Err(error),
    }
}

/// The plan for what a host asks for. Modules are rendered by `python` and `typescript`.
pub fn build_host_transform_plan<P: ClientGenerator, T: ClientGenerator>(
    config: FfiHostTransformConfig,
    host: HostEnvironment,
    python: &P,
    typescript: &T,
) -> (outcome: Result<FfiHostTransformPlan, GeneratorError>)
    ensures
        match config.kind {
            FfiHostTransformKind::JustBash => outcome matches Ok(built) && built@ == just_bash_plan(
                config@.server_name,
                config@.tools,
            ),
            FfiHostTransformKind::Cli => outcome matches Ok(built) && built@ == cli_plan(
                host.platform,
                client_config(config@, host.process_id),
                text_or(config@.command_name, config@.server_name),
            ),
            FfiHostTransformKind::Python => is_module_outcome(
                python,
                host.platform,
                FfiClientArtifactKind::Python,
                client_config(config@, host.process_id),
                outcome,
            ),
            FfiHostTransformKind::TypeScript => is_module_outcome(
                typescript,
                host.platform,
                FfiClientArtifactKind::TypeScript,
                client_config(config@, host.process_id),
                outcome,
            ),
        },
{
    let ghost asked = config@;
    let kind = config.kind;
    let server_name = normalize_server_name(Some(config.server_name));
    if kind == FfiHostTransformKind::JustBash {
        return Ok(build_just_bash_plan(server_name.as_str(), &config.tools));
    }
    let platform = host.platform;
    let output_dir = match config.output_dir {
        Some(given) => given,
        None => default_cli_output_dir(),
    };
    let client = generator_config(
        server_name.as_str(),
        output_dir.as_str(),
        copy_tools(&config.tools),
        config.bridge_url,
        config.token,
        config.session_pid,
        host.process_id,
    );
    assert(client@ == client_config(asked, host.process_id));
    match kind {
        FfiHostTransformKind::Python => build_module_plan(
            python,
            platform,
            FfiClientArtifactKind::Python,
            &client,
            &config.tools,
        ),
        FfiHostTransformKind::TypeScript => build_module_plan(
            typescript,
            platform,
            FfiClientArtifactKind::TypeScript,
            &client,
            &config.tools,
        ),
        _ => {
            let command_name = string_or(config.command_name, server_name.as_str());
            let artifacts = CliGenerator { platform }.render(&client)?;
            Ok(
                FfiHostTransformPlan {
                    help_tool_name: help_tool_of(server_name.as_str()),
                    help_description: shell_tool_help_description(
                        command_name.as_str(),
                        server_name.as_str(),
                        &config.tools,
                    ),
                    files: artifact_map(&artifacts),
                    paths: artifact_paths(platform, &artifacts, output_dir.as_str()),
                    environment: path_environment(platform, output_dir.as_str()),
                    output_dir: Some(output_dir),
                    just_bash: None,
                },
            )
        },
    }
}

}
