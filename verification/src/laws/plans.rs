//! Plans for hosts: how they follow from what a host asks for.

use vstd::prelude::*;

use crate::cli::help::{render_top_level_help, HelpFraming};
use crate::client_gen::cli;
use crate::client_gen::cli::recorded_bridge_entries;
use crate::client_gen::generator;
use crate::client_gen::generator::{
    artifact_map, BridgeView, CliBridgeEntry, ClientGenerator, ConfigView, GeneratedArtifact,
    GeneratorConfig, GeneratorError,
};
use crate::entries;
use crate::ffi::code_help::code_help_description;
use crate::ffi::dto;
use crate::ffi::dto::{
    ffi_tools_to_engine, FfiClientArtifactKind, FfiGeneratorConfig, FfiTool,
};
use crate::ffi::host_transform;
use crate::ffi::host_transform::{
    artifact_paths, build_host_transform_plan, cli_subcommand_name, generator_config,
    normalize_server_name, path_environment, shell_tool_help_description,
};
use crate::ffi::plan;
use crate::ffi::plan::{
    FfiHostTransformConfig, FfiHostTransformKind, FfiHostTransformPlan, HostEnvironment,
};
use crate::platform::{join_path, Platform};
use crate::sorted_map::SortedMap;
use crate::text;
use crate::tool;
use crate::tool::Tool;

verus! {

/// The bridge that a host names; where it leaves something open, the address of no bridge, no token,
/// and the process of the host stand for it.
pub open spec fn named_bridge(config: FfiHostTransformConfig, process_id: u32) -> BridgeView {
    BridgeView {
        session_pid: match config.session_pid {
            Some(given) => given,
            None => process_id,
        },
        bridge_url: match config.bridge_url {
            Some(given) => given@,
            None => "http://127.0.0.1:0"@,
        },
        token: match config.token {
            Some(given) => given@,
            None => Seq::empty(),
        },
    }
}

/// The directory that a host names, or else the one for built files.
pub open spec fn named_dir(config: FfiHostTransformConfig) -> Seq<char> {
    match config.output_dir {
        Some(given) => given@,
        None => "./dist"@,
    }
}

/// Whether `client` is what a client of the host is generated from: the server and the tools of the
/// request, the bridge that it names, its directory, and no bridges of other sessions.
pub open spec fn is_client_of(
    config: FfiHostTransformConfig,
    process_id: u32,
    client: ConfigView,
) -> bool {
    &&& client.cli_name == config.server_name@
    &&& client.tools == dto::ffi_tool_views(config.tools@)
    &&& client.bridge_url == named_bridge(config, process_id).bridge_url
    &&& client.token == named_bridge(config, process_id).token
    &&& client.session_pid == named_bridge(config, process_id).session_pid
    &&& client.output_dir == named_dir(config)
    &&& client.extra_cli_bridges.len() == 0
}

/// The configuration of a client of the host.
proof fn lemma_client(config: FfiHostTransformConfig, process_id: u32)
    ensures
        is_client_of(config, process_id, host_transform::client_config(config@, process_id)),
{
}

/// A plan for a command: it always succeeds. The help tool is named after the server, and describes
/// the command, which is called like the server if it has no name; the scripts stand under the name
/// of the server, and their paths in the directory; and the path finds them.
pub proof fn law_command_plan<P: ClientGenerator, T: ClientGenerator>(
    config: FfiHostTransformConfig,
    host: HostEnvironment,
    python: &P,
    typescript: &T,
    outcome: Result<FfiHostTransformPlan, GeneratorError>,
)
    requires
        config.kind == FfiHostTransformKind::Cli,
        call_ensures(
            build_host_transform_plan::<P, T>,
            (config, host, python, typescript),
            outcome,
        ),
    ensures
        outcome is Ok,
        ({
            let built = outcome->Ok_0;
            &&& built.help_tool_name@ == config.server_name@ + "_help"@
            &&& built.output_dir matches Some(dir) && dir@ == named_dir(config)
            &&& built.just_bash is None
            &&& forall|command: &str, server: &str, description: String|
                server@ == config.server_name@ && command@ == (match config.command_name {
                    Some(name) => name@,
                    None => config.server_name@,
                }) && #[trigger] call_ensures(
                    shell_tool_help_description,
                    (command, server, &config.tools),
                    description,
                ) ==> built.help_description@ == description@
            &&& forall|dir: &str, environment: SortedMap<String>|
                dir@ == named_dir(config) && #[trigger] call_ensures(
                    path_environment,
                    (host.platform, dir),
                    environment,
                ) ==> built.environment@ == environment@
            &&& exists|client: ConfigView|
                {
                    &&& #[trigger] is_client_of(config, host.process_id, client)
                    &&& entries::lookup(built.files@, config.server_name@) == Some(
                        cli::unix_script(client),
                    )
                    &&& host.platform == Platform::Windows ==> entries::lookup(
                        built.files@,
                        config.server_name@ + ".cmd"@,
                    ) == Some(cli::windows_cmd(client))
                }
            &&& host.platform == Platform::Unix ==> built.paths@.len() == 1
            &&& host.platform == Platform::Windows ==> built.paths@.len() == 2
            &&& forall|dir: &str, name: &str, path: String|
                dir@ == named_dir(config) && name@ == config.server_name@
                    && #[trigger] call_ensures(join_path, (host.platform, dir, name), path)
                    ==> built.paths@[0]@ == path@
            &&& forall|dir: &str, name: &str, path: String|
                host.platform == Platform::Windows && dir@ == named_dir(config) && name@
                    == config.server_name@ + ".cmd"@ && #[trigger] call_ensures(
                    join_path,
                    (host.platform, dir, name),
                    path,
                ) ==> built.paths@[1]@ == path@
        }),
{
    let client = host_transform::client_config(config@, host.process_id);
    let command = host_transform::text_or(config@.command_name, config@.server_name);
    let built = outcome->Ok_0;
    lemma_client(config, host.process_id);
    host_transform::law_cli_plan(host.platform, client, command);
    let paths = text::texts(built.paths@);
    assert(paths.len() == built.paths@.len());
    assert(paths[0] == built.paths@[0]@);
    if host.platform == Platform::Windows {
        assert(paths[1] == built.paths@[1]@);
    }
    assert(is_client_of(config, host.process_id, client));
}

/// The scripts that are planned for a host record one bridge: exactly the one that the host names.
pub proof fn law_planned_scripts_record_bridge<P: ClientGenerator, T: ClientGenerator>(
    config: FfiHostTransformConfig,
    host: HostEnvironment,
    python: &P,
    typescript: &T,
    outcome: Result<FfiHostTransformPlan, GeneratorError>,
    script: &str,
    recorded: Vec<CliBridgeEntry>,
)
    requires
        config.kind == FfiHostTransformKind::Cli,
        call_ensures(
            build_host_transform_plan::<P, T>,
            (config, host, python, typescript),
            outcome,
        ),
        entries::lookup(outcome->Ok_0.files@, config.server_name@) == Some(script@) || (
        host.platform == Platform::Windows && entries::lookup(
            outcome->Ok_0.files@,
            config.server_name@ + ".cmd"@,
        ) == Some(script@)),
        call_ensures(recorded_bridge_entries, (script,), recorded),
    ensures
        recorded@.len() == 1,
        recorded@[0]@ == named_bridge(config, host.process_id),
{
    let client = host_transform::client_config(config@, host.process_id);
    let command = host_transform::text_or(config@.command_name, config@.server_name);
    host_transform::law_cli_plan(host.platform, client, command);
    host_transform::law_host_scripts_record_its_bridge(config@, host.process_id);
    assert(cli::is_script_of(script@, client));
    let views = generator::bridge_views(recorded@);
    assert(views.len() == recorded@.len());
    assert(views[0] == recorded@[0]@);
}

/// A plan for an in-process shell: it always succeeds, writes nothing and sets nothing, and has one
/// command for each tool, in order, called by the subcommand of the tool.
pub proof fn law_in_process_plan<P: ClientGenerator, T: ClientGenerator>(
    config: FfiHostTransformConfig,
    host: HostEnvironment,
    python: &P,
    typescript: &T,
    outcome: Result<FfiHostTransformPlan, GeneratorError>,
)
    requires
        config.kind == FfiHostTransformKind::JustBash,
        call_ensures(
            build_host_transform_plan::<P, T>,
            (config, host, python, typescript),
            outcome,
        ),
    ensures
        outcome is Ok,
        ({
            let built = outcome->Ok_0;
            &&& built.help_tool_name@ == config.server_name@ + "_help"@
            &&& built.output_dir is None
            &&& built.files@.len() == 0
            &&& built.paths@.len() == 0
            &&& built.environment@.len() == 0
            &&& forall|server: &str, description: String|
                server@ == config.server_name@ && #[trigger] call_ensures(
                    shell_tool_help_description,
                    (server, server, &config.tools),
                    description,
                ) ==> built.help_description@ == description@
            &&& built.just_bash is Some
            &&& built.just_bash->Some_0.provider_name@ == config.server_name@
            &&& built.just_bash->Some_0.command_name@ == config.server_name@
            &&& built.just_bash->Some_0.help_tool_name@ == config.server_name@ + "_help"@
            &&& built.just_bash->Some_0.commands@.len() == config.tools@.len()
            &&& forall|i: int|
                0 <= i < config.tools@.len() ==> {
                    let command = #[trigger] built.just_bash->Some_0.commands@[i];
                    let described = config.tools@[i];
                    &&& command.backend_tool_name@ == described.name@
                    &&& tool::optional_view(command.description) == tool::optional_view(
                        described.description,
                    )
                    &&& command.input_schema@ == described.input_schema@
                    &&& forall|name: &str, subcommand: String|
                        name@ == described.name@ && #[trigger] call_ensures(
                            cli_subcommand_name,
                            (name,),
                            subcommand,
                        ) ==> command.command_name@ == subcommand@
                }
        }),
{
    let built = outcome->Ok_0;
    let commands = built.just_bash->Some_0.commands@;
    let views = plan::command_views(commands);
    assert(views.len() == commands.len());
    assert(text::texts(built.paths@).len() == built.paths@.len());
    assert forall|i: int| 0 <= i < config.tools@.len() implies {
        let command = #[trigger] built.just_bash->Some_0.commands@[i];
        let described = config.tools@[i];
        &&& command.backend_tool_name@ == described.name@
        &&& tool::optional_view(command.description) == tool::optional_view(described.description)
        &&& command.input_schema@ == described.input_schema@
        &&& forall|name: &str, subcommand: String|
            name@ == described.name@ && #[trigger] call_ensures(
                cli_subcommand_name,
                (name,),
                subcommand,
            ) ==> command.command_name@ == subcommand@
    } by {
        assert(views[i] == commands[i]@);
        assert(config@.tools[i] == config.tools@[i]@);
    }
}

/// Whether `built` is the plan for a module of the given files: their contents under their names,
/// their paths in the directory, the help on the module, and for Python alone the variable that
/// makes it found.
pub open spec fn plans_module(
    config: FfiHostTransformConfig,
    platform: Platform,
    kind: FfiClientArtifactKind,
    artifacts: Vec<GeneratedArtifact>,
    built: FfiHostTransformPlan,
) -> bool {
    &&& built.help_tool_name@ == config.server_name@ + "_help"@
    &&& built.output_dir matches Some(dir) && dir@ == named_dir(config)
    &&& built.just_bash is None
    &&& forall|files: SortedMap<String>| #[trigger]
        call_ensures(artifact_map, (&artifacts,), files) ==> built.files@ == files@
    &&& forall|dir: &str, paths: Vec<String>|
        dir@ == named_dir(config) && #[trigger] call_ensures(
            artifact_paths,
            (platform, &artifacts, dir),
            paths,
        ) ==> text::texts(built.paths@) == text::texts(paths@)
    &&& forall|server: &str, dir: &str, description: String|
        server@ == config.server_name@ && dir@ == named_dir(config) && #[trigger] call_ensures(
            code_help_description,
            (platform, kind, server, dir, &config.tools),
            description,
        ) ==> built.help_description@ == description@
    &&& match kind {
        FfiClientArtifactKind::Python => built.environment@ == seq![
            ("PYTHONPATH"@, named_dir(config)),
        ],
        _ => built.environment@.len() == 0,
    }
}

/// Whether `outcome` comes of a module of the host: the generator is handed the configuration of a
/// client of the host, and its files are planned for, or its error is handed on.
pub open spec fn comes_of_module<G: ClientGenerator>(
    client: &G,
    config: FfiHostTransformConfig,
    host: HostEnvironment,
    kind: FfiClientArtifactKind,
    outcome: Result<FfiHostTransformPlan, GeneratorError>,
) -> bool {
    exists|given: GeneratorConfig, rendered: Result<Vec<GeneratedArtifact>, GeneratorError>|
        {
            &&& is_client_of(config, host.process_id, given@)
            &&& #[trigger] call_ensures(G::render, (client, &given), rendered)
            &&& match rendered {
                Ok(artifacts) => outcome matches Ok(built) && plans_module(
                    config,
                    host.platform,
                    kind,
                    artifacts,
                    built,
                ),
                Err(error) => outcome matches Err(failed) && failed == error,
            }
        }
}

/// What comes of a module is what is said of it.
proof fn lemma_module<G: ClientGenerator>(
    client: &G,
    config: FfiHostTransformConfig,
    host: HostEnvironment,
    kind: FfiClientArtifactKind,
    outcome: Result<FfiHostTransformPlan, GeneratorError>,
)
    requires
        kind != FfiClientArtifactKind::Cli,
        host_transform::is_module_outcome(
            client,
            host.platform,
            kind,
            host_transform::client_config(config@, host.process_id),
            outcome,
        ),
    ensures
        comes_of_module(client, config, host, kind, outcome),
{
    let view = host_transform::client_config(config@, host.process_id);
    lemma_client(config, host.process_id);
    let (given, rendered) = choose|
        given: GeneratorConfig,
        rendered: Result<Vec<GeneratedArtifact>, GeneratorError>,
    |
        {
            &&& given@ == view
            &&& #[trigger] call_ensures(G::render, (client, &given), rendered)
            &&& match rendered {
                Ok(artifacts) => outcome matches Ok(built) && built@ == host_transform::code_plan(
                    host.platform,
                    kind,
                    view,
                    generator::artifact_views(artifacts@),
                ),
                Err(error) => outcome == Err::<FfiHostTransformPlan, GeneratorError>(error),
            }
        };
    assert(call_ensures(G::render, (client, &given), rendered));
    match rendered {
        Ok(artifacts) => {
            assert(plans_module(config, host.platform, kind, artifacts, outcome->Ok_0));
        },
        Err(_) => {},
    }
}

/// A plan for a module: it comes of what the generator for its language renders.
pub proof fn law_module_plan<P: ClientGenerator, T: ClientGenerator>(
    config: FfiHostTransformConfig,
    host: HostEnvironment,
    python: &P,
    typescript: &T,
    outcome: Result<FfiHostTransformPlan, GeneratorError>,
)
    requires
        call_ensures(
            build_host_transform_plan::<P, T>,
            (config, host, python, typescript),
            outcome,
        ),
    ensures
        config.kind == FfiHostTransformKind::Python ==> comes_of_module(
            python,
            config,
            host,
            FfiClientArtifactKind::Python,
            outcome,
        ),
        config.kind == FfiHostTransformKind::TypeScript ==> comes_of_module(
            typescript,
            config,
            host,
            FfiClientArtifactKind::TypeScript,
            outcome,
        ),
{
    match config.kind {
        FfiHostTransformKind::Python => {
            lemma_module(python, config, host, FfiClientArtifactKind::Python, outcome);
        },
        FfiHostTransformKind::TypeScript => {
            lemma_module(typescript, config, host, FfiClientArtifactKind::TypeScript, outcome);
        },
        _ => {},
    }
}

/// The tools of a host are the tools of its clients, one by one and in all they hold.
pub proof fn law_tools_of_host(tools: &Vec<FfiTool>, converted: Vec<Tool>)
    requires
        call_ensures(ffi_tools_to_engine, (tools,), converted),
    ensures
        converted@.len() == tools@.len(),
        forall|i: int|
            0 <= i < tools@.len() ==> {
                &&& (#[trigger] converted@[i]).name@ == tools@[i].name@
                &&& tool::optional_view(converted@[i].description) == tool::optional_view(
                    tools@[i].description,
                )
                &&& converted@[i].input_schema@ == tools@[i].input_schema@
            },
{
    let views = tool::tool_views(converted@);
    assert(views.len() == converted@.len());
    assert forall|i: int| 0 <= i < tools@.len() implies {
        &&& (#[trigger] converted@[i]).name@ == tools@[i].name@
        &&& tool::optional_view(converted@[i].description) == tool::optional_view(
            tools@[i].description,
        )
        &&& converted@[i].input_schema@ == tools@[i].input_schema@
    } by {
        assert(views[i] == converted@[i]@);
        assert(dto::ffi_tool_views(tools@)[i] == tools@[i]@);
    }
}

/// The description of the help tool of a command is the help of the command on the tools of the
/// host, framed for a help tool.
pub proof fn law_help_tool_description(
    command: &str,
    cli_name: &str,
    tools: &Vec<FfiTool>,
    converted: Vec<Tool>,
    framing: HelpFraming,
    help: String,
    description: String,
)
    requires
        call_ensures(ffi_tools_to_engine, (tools,), converted),
        call_ensures(HelpFraming::help_tool, (command, cli_name), framing),
        call_ensures(render_top_level_help, (command, cli_name, &converted, &framing), help),
        call_ensures(shell_tool_help_description, (command, cli_name, tools), description),
    ensures
        description@ == help@,
{
}

/// What a client is generated from holds what it is given, and where something is left open, the
/// address of no bridge, no token, and the process of the host.
pub proof fn law_generator_config(
    server_name: &str,
    output_dir: &str,
    tools: Vec<FfiTool>,
    bridge_url: Option<String>,
    token: Option<String>,
    session_pid: Option<u32>,
    process_id: u32,
    config: GeneratorConfig,
)
    requires
        call_ensures(
            generator_config,
            (server_name, output_dir, tools, bridge_url, token, session_pid, process_id),
            config,
        ),
    ensures
        config.cli_name@ == server_name@,
        config.output_dir@ == output_dir@,
        tool::tool_views(config.tools@) == dto::ffi_tool_views(tools@),
        config.bridge_url@ == (match bridge_url {
            Some(given) => given@,
            None => "http://127.0.0.1:0"@,
        }),
        config.token@ == (match token {
            Some(given) => given@,
            None => Seq::empty(),
        }),
        config.session_pid == (match session_pid {
            Some(given) => given,
            None => process_id,
        }),
        config.extra_cli_bridges@.len() == 0,
{
    assert(generator::bridge_views(config.extra_cli_bridges@).len()
        == config.extra_cli_bridges@.len());
}

/// What a host hands over for a client is what the client is generated from, without bridges of
/// other sessions.
pub proof fn law_handed_config(handed: FfiGeneratorConfig, config: GeneratorConfig)
    requires
        call_ensures(FfiGeneratorConfig::into_generator_config, (handed,), config),
    ensures
        config.cli_name@ == handed.cli_name@,
        config.bridge_url@ == handed.bridge_url@,
        config.token@ == handed.token@,
        tool::tool_views(config.tools@) == dto::ffi_tool_views(handed.tools@),
        config.session_pid == handed.session_pid,
        config.output_dir@ == handed.output_dir@,
        config.extra_cli_bridges@.len() == 0,
{
    assert(generator::bridge_views(config.extra_cli_bridges@).len()
        == config.extra_cli_bridges@.len());
}

/// A server is called by its name, and one without a name is called `mcp`.
pub proof fn law_server_name(name: Option<String>, server_name: String)
    requires
        call_ensures(normalize_server_name, (name,), server_name),
    ensures
        name matches Some(given) ==> server_name@ == given@,
        name is None ==> server_name@ == "mcp"@,
{
}

}
