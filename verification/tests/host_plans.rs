use mcp_compressor_core::cli::help::short_tool_description;
use mcp_compressor_core::client_gen::generator::{
    ClientGenerator, GeneratedArtifact, GeneratorConfig, GeneratorError,
};
use mcp_compressor_core::ffi::code_help::{code_function_signature, code_help_description};
use mcp_compressor_core::ffi::dto::{
    ffi_tools_to_engine, FfiClientArtifactKind, FfiGeneratorConfig, FfiTool,
};
use mcp_compressor_core::ffi::host_result::{
    mcp_text_content_to_string, normalize_host_tool_result, value_to_string,
};
use mcp_compressor_core::ffi::host_transform::{
    artifact_paths, build_host_transform_plan, cli_subcommand_name, default_cli_output_dir,
    generator_config, normalize_server_name, path_environment, shell_tool_help_description,
};
use mcp_compressor_core::ffi::plan::{
    FfiHostTransformConfig, FfiHostTransformKind, FfiHostTransformPlan, HostEnvironment,
};
use mcp_compressor_core::client_gen::cli::{recorded_bridge_entries, CliGenerator};
use mcp_compressor_core::json::Json;
use mcp_compressor_core::json_text::parse_json;
use mcp_compressor_core::platform::{join_path, Platform};

fn json(source: &str) -> Json {
    parse_json(source).expect("a JSON value")
}

fn tool(name: &str, description: &str) -> FfiTool {
    FfiTool {
        name: name.to_string(),
        description: Some(description.to_string()),
        input_schema: json(r#"{"type":"object","properties":{}}"#),
    }
}

fn sample_tool() -> FfiTool {
    FfiTool {
        name: "echo".to_string(),
        description: Some("Echo a message.".to_string()),
        input_schema: json(
            r#"{"type":"object","properties":{"message":{"type":"string"}},"required":["message"]}"#,
        ),
    }
}

/// Renders one module file with the name of the server and a fixed extension.
struct ModuleStub {
    extension: &'static str,
}

impl ClientGenerator for ModuleStub {
    fn render(&self, config: &GeneratorConfig) -> Result<Vec<GeneratedArtifact>, GeneratorError> {
        let file_name = format!("{}.{}", config.cli_name, self.extension);
        let contents = format!("{} {} {}", config.bridge_url, config.token, config.session_pid);
        Ok(vec![GeneratedArtifact::new(&file_name, contents)])
    }
}

struct FailingStub;

impl ClientGenerator for FailingStub {
    fn render(&self, _config: &GeneratorConfig) -> Result<Vec<GeneratedArtifact>, GeneratorError> {
        Err(GeneratorError::Generation("no module".to_string()))
    }
}

fn plan_on(platform: Platform, config: FfiHostTransformConfig) -> FfiHostTransformPlan {
    build_host_transform_plan(
        config,
        HostEnvironment { platform, process_id: 99 },
        &ModuleStub { extension: "py" },
        &ModuleStub { extension: "ts" },
    )
    .unwrap()
}

fn plan(config: FfiHostTransformConfig) -> FfiHostTransformPlan {
    plan_on(Platform::Unix, config)
}

fn asked(kind: FfiHostTransformKind, server_name: &str, tools: Vec<FfiTool>) -> FfiHostTransformConfig {
    FfiHostTransformConfig {
        kind,
        server_name: server_name.to_string(),
        tools,
        output_dir: None,
        command_name: None,
        bridge_url: None,
        token: None,
        session_pid: None,
    }
}

#[test]
fn cli_plan_contains_subcommand_help() {
    let plan = plan(FfiHostTransformConfig {
        kind: FfiHostTransformKind::Cli,
        server_name: "alpha".to_string(),
        tools: vec![tool("echo_message", "Echo a message.")],
        output_dir: Some("./target/tmp-host-plan-cli".to_string()),
        command_name: Some("alpha".to_string()),
        bridge_url: Some("http://127.0.0.1:1".to_string()),
        token: Some("token".to_string()),
        session_pid: Some(1),
    });
    assert_eq!(plan.help_tool_name, "alpha_help");
    assert!(plan.help_description.contains(
        "Functionality associated with the alpha toolset is provided via the `alpha` CLI."
    ));
    assert!(plan
        .help_description
        .contains("  echo-message  Echo a message."));
}

#[test]
fn help_summaries_use_first_sentence_and_trim_whitespace() {
    let plan = plan(FfiHostTransformConfig {
        kind: FfiHostTransformKind::Cli,
        server_name: "alpha".to_string(),
        tools: vec![tool(
            "verbose",
            "  Get details for an item. This second sentence contains implementation guidance that should not appear.

More details follow.",
        )],
        output_dir: Some("./target/tmp-host-plan-summary-cli".to_string()),
        command_name: Some("alpha".to_string()),
        bridge_url: Some("http://127.0.0.1:1".to_string()),
        token: Some("token".to_string()),
        session_pid: Some(1),
    });

    assert!(plan
        .help_description
        .contains("  verbose  Get details for an item."));
    assert!(!plan.help_description.contains("implementation guidance"));
}

#[test]
fn help_summaries_fall_back_to_first_line_for_tiny_first_sentence() {
    assert_eq!(
        short_tool_description(Some("OK. Use this tool to inspect status.")),
        "OK. Use this tool to inspect status."
    );
    assert_eq!(
        short_tool_description(Some(
            "A.
List accessible resources for the user."
        )),
        "A."
    );
}

#[test]
fn help_summaries_truncate_cleanly() {
    let description = format!("{}.", "word ".repeat(80));
    let summary = short_tool_description(Some(&description));
    assert!(summary.len() <= 200);
    assert!(summary.ends_with("..."));
    assert!(!summary.ends_with(" ..."));
}

#[test]
fn cli_plan_uses_kebab_case_for_camel_case_tool_names() {
    let plan = plan(FfiHostTransformConfig {
        kind: FfiHostTransformKind::Cli,
        server_name: "atlassian".to_string(),
        tools: vec![
            tool("atlassianUserInfo", "Get current user info."),
            tool(
                "getAccessibleAtlassianResources",
                "Get accessible resources.",
            ),
        ],
        output_dir: Some("./target/tmp-host-plan-camel-cli".to_string()),
        command_name: Some("atlassian".to_string()),
        bridge_url: Some("http://127.0.0.1:1".to_string()),
        token: Some("token".to_string()),
        session_pid: Some(1),
    });
    assert!(plan.help_description.contains("  atlassian-user-info"));
    assert!(plan
        .help_description
        .contains("  get-accessible-atlassian-resources"));
    assert!(!plan.help_description.contains("atlassianUserInfo"));
    assert!(!plan
        .help_description
        .contains("getAccessibleAtlassianResources"));
}

#[test]
fn host_cli_plan_defaults_to_dist_and_does_not_write_files() {
    let config = FfiHostTransformConfig {
        kind: FfiHostTransformKind::Cli,
        server_name: "alpha".to_string(),
        tools: vec![tool("echo", "Echo a message.")],
        output_dir: None,
        command_name: Some("alpha".to_string()),
        bridge_url: Some("http://127.0.0.1:1".to_string()),
        token: Some("token".to_string()),
        session_pid: Some(1),
    };
    let windows = plan_on(Platform::Windows, config.clone());
    assert_eq!(windows.output_dir, Some("./dist".to_string()));
    assert_eq!(
        windows.paths,
        vec!["./dist\\alpha".to_string(), "./dist\\alpha.cmd".to_string()]
    );
    assert_eq!(
        windows.environment.get("PATH"),
        Some(&"./dist;%PATH%".to_string())
    );
    assert!(windows.files.contains_key("alpha"));
    assert!(windows.files.contains_key("alpha.cmd"));

    let plan = plan(config);
    assert_eq!(plan.output_dir, Some("./dist".to_string()));
    assert_eq!(plan.paths, vec!["./dist/alpha".to_string()]);
    assert_eq!(
        plan.environment.get("PATH"),
        Some(&"./dist:$PATH".to_string())
    );
    assert!(plan.files.contains_key("alpha"));
    assert!(!plan.files.contains_key("alpha.cmd"));
    assert_eq!(plan.just_bash, None);
}

#[test]
fn host_python_plan_returns_artifacts_without_writing_files() {
    let output_dir = "/tmp/python-out".to_string();
    let plan = plan(FfiHostTransformConfig {
        kind: FfiHostTransformKind::Python,
        server_name: "alpha".to_string(),
        tools: vec![tool("echo", "Echo a message.")],
        output_dir: Some(output_dir.clone()),
        command_name: None,
        bridge_url: Some("http://127.0.0.1:1".to_string()),
        token: Some("token".to_string()),
        session_pid: Some(1),
    });

    assert!(plan.files.contains_key("alpha.py"));
    assert!(plan
        .paths
        .contains(&join_path(Platform::Unix, &output_dir, "alpha.py")));
    assert_eq!(plan.environment.get("PYTHONPATH"), Some(&output_dir));
    assert_eq!(
        plan.files.get("alpha.py"),
        Some(&"http://127.0.0.1:1 token 1".to_string())
    );
}

#[test]
fn normalizes_mcp_text_content_results() {
    let value = json("{\"content\":[{\"type\":\"text\",\"text\":\"{\\\"ok\\\":true}\"}]}");
    assert_eq!(
        normalize_host_tool_result(value, false, &|shown: &str| shown.to_string()),
        "{\"ok\":true}"
    );
}

#[test]
fn ffi_generates_cli_artifacts() {
    let config = FfiGeneratorConfig {
        cli_name: "ffi-server".to_string(),
        bridge_url: "http://127.0.0.1:12345".to_string(),
        token: "token".repeat(16),
        tools: vec![sample_tool()],
        session_pid: 42,
        output_dir: "out".to_string(),
    }
    .into_generator_config();
    let windows = CliGenerator { platform: Platform::Windows }.render(&config).unwrap();
    assert_eq!(windows.len(), 2);
    let artifacts = CliGenerator { platform: Platform::Unix }.render(&config).unwrap();
    assert_eq!(artifacts.len(), 1);
    assert!(artifacts[0].contents.contains("ffi-server - the ffi-server toolset"));
}

#[test]
fn just_bash_plan_has_a_command_for_each_tool() {
    let plan = plan(asked(
        FfiHostTransformKind::JustBash,
        "alpha",
        vec![tool("echo_message", "Echo a message."), sample_tool()],
    ));
    assert_eq!(plan.help_tool_name, "alpha_help");
    assert_eq!(plan.output_dir, None);
    assert_eq!(plan.files.len(), 0);
    assert_eq!(plan.paths, Vec::<String>::new());
    assert_eq!(plan.environment.len(), 0);
    let bash = plan.just_bash.clone().unwrap();
    assert_eq!(bash.provider_name, "alpha");
    assert_eq!(bash.command_name, "alpha");
    assert_eq!(bash.help_tool_name, "alpha_help");
    assert_eq!(bash.commands.len(), 2);
    assert_eq!(bash.commands[0].command_name, "echo-message");
    assert_eq!(bash.commands[0].backend_tool_name, "echo_message");
    assert_eq!(bash.commands[0].description, Some("Echo a message.".to_string()));
    assert_eq!(bash.commands[1].input_schema, sample_tool().input_schema);
    assert_eq!(plan.clone(), plan);
}

#[test]
fn plans_fill_in_what_a_host_leaves_open() {
    let plan = plan(asked(FfiHostTransformKind::TypeScript, "alpha", vec![sample_tool()]));
    assert_eq!(plan.output_dir, Some("./dist".to_string()));
    assert_eq!(plan.paths, vec!["./dist/alpha.ts".to_string()]);
    assert_eq!(plan.environment.len(), 0);
    assert_eq!(
        plan.files.get("alpha.ts"),
        Some(&"http://127.0.0.1:0  99".to_string())
    );
}

#[test]
fn cli_plan_is_called_by_its_command_and_named_after_its_server() {
    let mut config = asked(FfiHostTransformKind::Cli, "alpha", vec![sample_tool()]);
    config.command_name = Some("run-alpha".to_string());
    let plan = plan(config);
    assert_eq!(
        plan.help_description,
        "Functionality associated with the alpha toolset is provided via the `run-alpha` CLI. \
         Do not call this tool - run the CLI in a shell instead.\n\
         alpha - the alpha toolset\n\nUSAGE:\n  run-alpha <subcommand> [options]\n\n\
         SUBCOMMANDS:\n  echo  Echo a message.\n\n\
         Run 'run-alpha <subcommand> --help' for subcommand usage."
    );
    let script = plan.files.get("alpha").unwrap();
    let bridges = recorded_bridge_entries(script);
    assert_eq!(bridges.len(), 1);
    assert_eq!(bridges[0].session_pid, 99);
    assert_eq!(bridges[0].bridge_url, "http://127.0.0.1:0");
    assert_eq!(bridges[0].token, "");
}

#[test]
fn failed_rendering_fails_the_plan() {
    let host = HostEnvironment { platform: Platform::Unix, process_id: 1 };
    for kind in [FfiHostTransformKind::Python, FfiHostTransformKind::TypeScript] {
        let outcome = build_host_transform_plan(
            asked(kind, "alpha", Vec::new()),
            host,
            &FailingStub,
            &FailingStub,
        );
        assert_eq!(
            outcome,
            Err(GeneratorError::Generation("no module".to_string()))
        );
    }
    let cli = build_host_transform_plan(
        asked(FfiHostTransformKind::Cli, "alpha", Vec::new()),
        host,
        &FailingStub,
        &FailingStub,
    );
    assert!(cli.is_ok());
}

#[test]
fn python_help_lists_signatures() {
    let tools = vec![
        FfiTool {
            name: "getPage".to_string(),
            description: Some("Get a page of a wiki.".to_string()),
            input_schema: json(
                r#"{"type":"object","properties":{"pageId":{},"maxResults":{}},"required":["pageId"]}"#,
            ),
        },
        FfiTool { name: "ping".to_string(), description: None, input_schema: Json::Null },
    ];
    assert_eq!(
        code_help_description(Platform::Unix, FfiClientArtifactKind::Python, "wiki", "./dist", &tools),
        "Functionality associated with the wiki toolset is provided via a Python module. \
         Do not call this tool - import and use the python functionality instead.\n\
         wiki - the wiki toolset\n\n\
         Python source code is available in ./dist/wiki.py\n\n\
         Available functions:\n  \
         get_page(page_id, max_results=None)  Get a page of a wiki.\n  \
         ping()\n\n\
         For details on a specific function, run:\n```python\nfrom wiki import <function>\n\
         print(help(<function>))\n```"
    );
}

#[test]
fn typescript_help_lists_signatures() {
    let tools = vec![FfiTool {
        name: "get_page".to_string(),
        description: Some("Get a page of a wiki.".to_string()),
        input_schema: json(
            r#"{"type":"object","properties":{"pageId":{},"max_results":{}},"required":["pageId", 1]}"#,
        ),
    }];
    assert_eq!(
        code_function_signature(FfiClientArtifactKind::TypeScript, &tools[0]),
        "getPage(pageId, max_results?)"
    );
    assert_eq!(
        code_help_description(
            Platform::Windows,
            FfiClientArtifactKind::TypeScript,
            "wiki",
            "C:\\out",
            &tools
        ),
        "Functionality associated with the wiki toolset is provided via a TypeScript module. \
         Do not call this tool - import and use the typescript functionality instead.\n\
         wiki - the wiki toolset\n\n\
         TypeScript source code is available in C:\\out\\wiki.ts\n\n\
         Available functions:\n  \
         getPage(pageId, max_results?)  Get a page of a wiki.\n\n\
         For details on a specific function, inspect the TypeScript declarations or editor hover documentation.\n\
         Primary declarations: C:\\out\\wiki.d.ts"
    );
}

#[test]
fn results_become_texts() {
    assert_eq!(value_to_string(&json("\"plain\"")), "plain");
    assert_eq!(value_to_string(&json("{\"result\":{\"result\":\"x\"}}")), "x");
    assert_eq!(
        value_to_string(&json("{\"result\":1,\"more\":2}")),
        "{\"result\":1,\"more\":2}"
    );
    assert_eq!(value_to_string(&json("{\"result\":[1, null]}")), "[1,null]");
    assert_eq!(
        value_to_string(&json(
            r#"{"content":[{"type":"text","text":"a"},{"type":"image","text":"b"},{"type":"text"},7,{"type":"text","text":"c"}],"isError":false}"#
        )),
        "a\nc"
    );
    assert_eq!(
        value_to_string(&json("{\"content\":[{\"type\":\"image\"}]}")),
        "{\"content\":[{\"type\":\"image\"}]}"
    );
    assert_eq!(value_to_string(&json("{}")), "{}");
    assert_eq!(mcp_text_content_to_string(None), None);
    assert_eq!(mcp_text_content_to_string(Some(&json("\"text\""))), None);
    assert_eq!(
        normalize_host_tool_result(json("\"x\""), true, &|shown: &str| format!("<{shown}>")),
        "<x>"
    );
}

#[test]
fn small_parts_of_plans() {
    assert_eq!(normalize_server_name(None), "mcp");
    assert_eq!(normalize_server_name(Some("a b".to_string())), "a b");
    assert_eq!(default_cli_output_dir(), "./dist");
    assert_eq!(cli_subcommand_name("get_page"), "get-page");
    assert_eq!(
        path_environment(Platform::Unix, "/opt/x").entries(),
        &vec![("PATH".to_string(), "/opt/x:$PATH".to_string())]
    );
    let artifacts = vec![
        GeneratedArtifact::new("a.py", String::new()),
        GeneratedArtifact::new("b.py", String::new()),
    ];
    assert_eq!(
        artifact_paths(Platform::Unix, &artifacts, "out/"),
        vec!["out/a.py".to_string(), "out/b.py".to_string()]
    );
    assert_eq!(ffi_tools_to_engine(&vec![sample_tool()])[0].name, "echo");
    let config = generator_config("alpha", "out", vec![sample_tool()], None, None, Some(3), 9);
    assert_eq!(config.session_pid, 3);
    assert_eq!(config.token, "");
    assert_eq!(config.extra_cli_bridges, Vec::new());
    assert!(shell_tool_help_description("run", "alpha", &vec![sample_tool()])
        .contains("\n  echo  Echo a message.\n"));
}

#[test]
fn paths_are_joined_as_the_platform_does() {
    let unix = |dir: &str, name: &str| join_path(Platform::Unix, dir, name);
    assert_eq!(unix("a", "b"), "a/b");
    assert_eq!(unix("a/", "b"), "a/b");
    assert_eq!(unix("", "b"), "b");
    assert_eq!(unix("a", "/b"), "/b");
    assert_eq!(unix("a", ""), "a/");
    assert_eq!(unix("a\\", "b"), "a\\/b");
    for (dir, name) in [("a", "b"), ("a/", "b"), ("", "b"), ("a", "/b"), ("a", ""), ("/", "x/y")] {
        let expected = std::path::Path::new(dir).join(name);
        assert_eq!(unix(dir, name), expected.to_str().unwrap());
    }
    let windows = |dir: &str, name: &str| join_path(Platform::Windows, dir, name);
    assert_eq!(windows("a", "b"), "a\\b");
    assert_eq!(windows("a/", "b"), "a/b");
    assert_eq!(windows("C:", "b"), "C:b");
    assert_eq!(windows("C:\\a", "\\b"), "C:\\b");
    assert_eq!(windows("C:\\a", "D:b"), "D:b");
    assert_eq!(windows("C:\\a", "\\\\host\\share"), "\\\\host\\share");
    assert_eq!(windows("C:\\a", "\\\\host"), "C:\\\\host");
    assert_eq!(windows("\\\\host\\share\\a", "/b"), "\\\\host\\share/b");
    assert_eq!(windows("\\\\host\\share", "b"), "\\\\host\\share\\b");
}

#[test]
fn verbatim_directories_resolve_names() {
    let windows = |dir: &str, name: &str| join_path(Platform::Windows, dir, name);
    assert_eq!(windows(r"\\?\C:\out", "alpha"), r"\\?\C:\out\alpha");
    assert_eq!(windows(r"\\?\C:\out\", "alpha"), r"\\?\C:\out\alpha");
    assert_eq!(windows(r"\\?\C:\out\\deep", "a/b"), r"\\?\C:\out\deep\a\b");
    assert_eq!(windows(r"\\?\C:\out", "./a/../b"), r"\\?\C:\out\b");
    assert_eq!(windows(r"\\?\C:\out", "../../../b"), r"\\?\C:\b");
    assert_eq!(windows(r"\\?\C:\out", ".."), r"\\?\C:\");
    assert_eq!(windows(r"\\?\C:\out", r"\b\c"), r"\\?\C:\b\c");
    assert_eq!(windows(r"\\?\C:\out/", "b"), r"\\?\C:\out/\b");
    assert_eq!(windows(r"\\?\C:", "b"), r"\\?\C:\b");
    assert_eq!(windows(r"\\?\C:", "."), r"\\?\C:");
    assert_eq!(windows(r"\\?\C:\out", ""), r"\\?\C:\out\");
    assert_eq!(windows(r"\\?\UNC\host\share\a", r"..\..\b"), r"\\?\UNC\host\share\b");
    assert_eq!(windows(r"\\?\pictures\cats", "../b"), r"\\?\pictures\b");
    assert_eq!(windows(r"\\?\C:\out", "D:b"), "D:b");
    assert_eq!(windows("a", r"\\?\C:\b"), r"\\?\C:\b");
    assert_eq!(windows(r"\\.\COM1\a", r"\b"), r"\\.\COM1\b");
    assert_eq!(windows("//?/C:/out", "../b"), r"//?/C:/out\../b");
}

#[test]
fn configurations_are_equal_whatever_the_order_of_members() {
    let mut left = asked(FfiHostTransformKind::Cli, "alpha", vec![sample_tool()]);
    let mut right = left.clone();
    left.tools[0].input_schema = json(r#"{"a":1,"b":{"c":[1,2],"d":null}}"#);
    right.tools[0].input_schema = json(r#"{"b":{"d":null,"c":[1,2]},"a":1}"#);
    assert_eq!(left, right);
    right.tools[0].input_schema = json(r#"{"b":{"d":null,"c":[2,1]},"a":1}"#);
    assert_ne!(left, right);
}

#[test]
fn shown_json_reads_back() {
    let source = r#"{"content":[{"type":"image"}],"n":[0,-1,18446744073709551615,-9223372036854775808]}"#;
    let value = json(source);
    let shown = value_to_string(&value);
    assert_eq!(shown, source);
    assert_eq!(parse_json(&shown), Some(value));
}

#[test]
fn command_name_changes_the_help_alone() {
    let unnamed = asked(FfiHostTransformKind::Cli, "alpha", vec![sample_tool()]);
    let mut named = unnamed.clone();
    named.command_name = Some("alpha".to_string());
    assert_eq!(plan(unnamed.clone()), plan(named.clone()));
    named.command_name = Some("run".to_string());
    let mut other = plan(named);
    let expected = plan(unnamed);
    assert_ne!(other.help_description, expected.help_description);
    other.help_description = expected.help_description.clone();
    assert_eq!(other, expected);
}

#[test]
fn requests_and_plans_compare_their_paths_as_paths() {
    for (left, right) in [
        ("a", "a"),
        ("a", "a/"),
        ("a", "b"),
        ("a/b", "a//b"),
        ("a/./b", "a/b"),
        ("./a", "a"),
        ("a/../b", "b"),
        ("/a", "a"),
        ("a\\b", "a/b"),
        ("", "."),
    ] {
        let expected = std::path::PathBuf::from(left) == std::path::PathBuf::from(right);
        let mut first = asked(FfiHostTransformKind::Python, "alpha", vec![sample_tool()]);
        let mut second = first.clone();
        first.output_dir = Some(left.to_string());
        second.output_dir = Some(right.to_string());
        assert_eq!(first == second, expected, "{left} {right}");
        let mut planned = plan(first.clone());
        let mut other = planned.clone();
        planned.output_dir = first.output_dir.clone();
        other.output_dir = second.output_dir.clone();
        assert_eq!(planned == other, expected, "{left} {right}");
        other.output_dir = planned.output_dir.clone();
        planned.paths = vec!["x".to_string(), left.to_string()];
        other.paths = vec!["x".to_string(), right.to_string()];
        assert_eq!(planned == other, expected, "{left} {right}");
        other.paths.pop();
        assert_ne!(planned, other);
    }
    let unset = asked(FfiHostTransformKind::Python, "alpha", Vec::new());
    let mut set = unset.clone();
    set.output_dir = Some(String::new());
    assert_ne!(unset, set);
    let mut other_kind = unset.clone();
    other_kind.kind = FfiHostTransformKind::TypeScript;
    assert_ne!(unset, other_kind);
    let mut other_session = unset.clone();
    other_session.session_pid = Some(1);
    assert_ne!(unset, other_session);
}

#[test]
fn plans_differ_where_their_parts_do() {
    let bash = plan(asked(FfiHostTransformKind::JustBash, "alpha", vec![sample_tool()]));
    let mut other = bash.clone();
    other.just_bash = None;
    assert_ne!(bash, other);
    other.just_bash = bash.just_bash.clone();
    assert_eq!(bash, other);
    other.environment.insert("PATH".to_string(), "x".to_string());
    assert_ne!(bash, other);
    let mut renamed = bash.clone();
    renamed.help_tool_name = "beta_help".to_string();
    assert_ne!(bash, renamed);
}

#[test]
fn command_name_leaves_module_plans_alone() {
    for kind in [FfiHostTransformKind::Python, FfiHostTransformKind::TypeScript] {
        let unnamed = asked(kind, "alpha", vec![sample_tool()]);
        let mut named = unnamed.clone();
        named.command_name = Some("run".to_string());
        assert_eq!(plan(unnamed), plan(named));
    }
}

#[test]
fn wrapped_results_are_rewritten_alike() {
    let to_toon = |shown: &str| shown.to_uppercase();
    for source in ["\"x\"", "{\"a\":\"b\"}", "[1]"] {
        let wrapped = json(&format!("{{\"result\":{source}}}"));
        assert_eq!(
            normalize_host_tool_result(wrapped, true, &to_toon),
            normalize_host_tool_result(json(source), true, &to_toon)
        );
    }
}
