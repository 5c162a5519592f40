use mcp_compressor_core::cli::help::render_subcommand_help;
use mcp_compressor_core::client_gen::cli::{
    address_of_bridge, bridge_entries_in, bridge_is_live, find_bridge_source,
    read_live_bridge_entries, recorded_bridge_entries, render_cli_artifacts, render_unix_script,
    render_windows_cmd, CliGenerator,
};
use mcp_compressor_core::client_gen::generator::{
    artifact_map, CliBridgeEntry, ClientGenerator, GeneratedArtifact, GeneratorConfig,
};
use mcp_compressor_core::client_gen::program::{
    bridge_map_literal, client_python_body, tool_schema_map_literal,
};
use mcp_compressor_core::json::Json;
use mcp_compressor_core::json_text::parse_json;
use mcp_compressor_core::platform::{join_path, Platform};
use mcp_compressor_core::tool::Tool;

fn json(source: &str) -> Json {
    parse_json(source).expect("a JSON value")
}

fn config_with(cli_name: &str, tools: Vec<Tool>) -> GeneratorConfig {
    GeneratorConfig {
        cli_name: cli_name.to_string(),
        bridge_url: "http://127.0.0.1:1".to_string(),
        token: "token".to_string(),
        tools,
        session_pid: 4242,
        output_dir: "out".to_string(),
        extra_cli_bridges: Vec::new(),
    }
}

fn make_config() -> GeneratorConfig {
    let mut config = config_with(
        "my-server",
        vec![
            Tool::new(
                "fetch",
                Some("Fetch a URL.".to_string()),
                json(
                    r#"{"type":"object","properties":{
                        "url":{"type":"string","description":"URL to fetch."},
                        "timeout":{"type":"integer","description":"Timeout in seconds.","default":30},
                        "method":{"type":"string","enum":["GET","POST"]}
                    },"required":["url"]}"#,
                ),
            ),
            Tool::new(
                "search",
                Some("Search for something.".to_string()),
                json(r#"{"type":"object","properties":{"query":{"type":"string"}}}"#),
            ),
        ],
    );
    config.bridge_url = "http://127.0.0.1:51234".to_string();
    config.token = "abcdef0123456789".repeat(4);
    config
}

fn make_config_multiword_tool() -> GeneratorConfig {
    config_with(
        "my-server",
        vec![Tool::new(
            "get_confluence_page",
            Some("Get a page.".to_string()),
            json(r#"{"type":"object","properties":{}}"#),
        )],
    )
}

fn unix_script(config: &GeneratorConfig) -> String {
    let artifacts = CliGenerator { platform: Platform::Unix }.render(config).unwrap();
    artifacts[0].contents.clone()
}

fn entry(session_pid: u32, bridge_url: &str, token: &str) -> CliBridgeEntry {
    CliBridgeEntry {
        session_pid,
        bridge_url: bridge_url.to_string(),
        token: token.to_string(),
    }
}

#[test]
fn generate_returns_non_empty_paths() {
    let config = make_config();
    let artifacts = CliGenerator { platform: Platform::Unix }.render(&config).unwrap();
    assert!(
        !artifacts.is_empty(),
        "expected at least one generated artifact"
    );
}

#[test]
fn generated_paths_inside_output_dir() {
    let config = make_config();
    for platform in [Platform::Unix, Platform::Windows] {
        for artifact in render_cli_artifacts(&config, platform) {
            let path = join_path(platform, &config.output_dir, &artifact.file_name);
            assert!(
                path.starts_with(&config.output_dir),
                "path {path:?} is outside output_dir {:?}",
                config.output_dir,
            );
            assert!(path.ends_with(&artifact.file_name));
        }
    }
}

#[test]
fn unix_script_has_shebang() {
    let content = unix_script(&make_config());
    assert!(
        content.starts_with("#!"),
        "script must start with shebang, got: {content:?}"
    );
}

#[test]
fn unix_script_named_after_cli_name() {
    let artifacts = render_cli_artifacts(&make_config(), Platform::Unix);
    assert_eq!(artifacts[0].file_name, "my-server");
}

#[test]
fn unix_script_contains_token() {
    let config = make_config();
    let content = unix_script(&config);
    assert!(content.contains(&config.token), "token not found in script");
}

#[test]
fn unix_script_contains_bridge_url() {
    let config = make_config();
    let content = unix_script(&config);
    assert!(
        content.contains(&config.bridge_url),
        "bridge URL not found in script"
    );
}

#[test]
fn unix_script_contains_multi_session_bridge_map() {
    let mut config = make_config();
    config.extra_cli_bridges = vec![CliBridgeEntry {
        session_pid: 111,
        bridge_url: "http://127.0.0.1:1".to_string(),
        token: "old-token".to_string(),
    }];
    let artifacts = CliGenerator { platform: Platform::Unix }.render(&config).unwrap();
    let content = &artifacts[0].contents;
    assert!(content.contains("BRIDGES = "));
    assert!(content.contains("\"111\""));
    assert!(content.contains("old-token"));
    assert!(content.contains(&format!("\"{}\"", config.session_pid)));
    assert!(content.contains(&config.token));
    assert!(content.contains("def ancestors():"));
}

#[test]
fn unix_script_contains_all_tool_subcommands() {
    let content = unix_script(&make_config());
    assert!(content.contains("fetch"), "subcommand 'fetch' not found");
    assert!(content.contains("search"), "subcommand 'search' not found");
}

#[test]
fn unix_script_kebab_case_subcommand() {
    let content = unix_script(&make_config_multiword_tool());
    assert!(
        content.contains("get-confluence-page"),
        "expected kebab-case subcommand in script",
    );
}

#[test]
fn unix_script_contains_top_level_help() {
    let content = unix_script(&make_config());
    assert!(content.contains("my-server - the my-server toolset"));
    assert!(content.contains("USAGE:"));
    assert!(content.contains("SUBCOMMANDS:"));
    assert!(content.contains("Run 'my-server <subcommand> --help'"));
}

#[test]
fn unix_script_contains_subcommand_help() {
    let content = unix_script(&make_config());
    assert!(content.contains("my-server fetch"));
    assert!(content.contains("OPTIONS:"));
    assert!(content.contains("--url <string>"));
    assert!(content.contains("--url"));
    assert!(content.contains("--url <string>"));
    assert!(content.contains("Required."));
    assert!(content.contains("URL to fetch."));
    assert!(content.contains("--timeout"));
    assert!(content.contains("--timeout <integer>"));
    assert!(content.contains("Timeout in seconds."));
    assert!(content.contains("Default: 30."));
    assert!(content.contains("--method"));
    assert!(content.contains("Allowed values: GET, POST."));
}

#[test]
fn unix_script_subcommand_help_has_no_output_section() {
    let content = unix_script(&make_config());
    assert!(!content.contains("OUTPUT:"));
    assert!(!content.contains("Prints the upstream tool result directly."));
}

#[test]
fn unix_script_is_executable() {
    let artifacts = render_cli_artifacts(&make_config(), Platform::Unix);
    assert!(artifacts[0].executable, "script must be executable");
}

#[test]
fn windows_cmd_generated() {
    let artifacts = render_cli_artifacts(&make_config(), Platform::Windows);
    assert!(
        artifacts.iter().any(|artifact| artifact.file_name.ends_with(".cmd")),
        "expected a .cmd file on Windows",
    );
    assert_eq!(artifacts.len(), 2);
    assert_eq!(artifacts[1].file_name, "my-server.cmd");
    assert!(!artifacts[1].executable);
}

#[test]
fn windows_cmd_contains_token() {
    let config = make_config();
    let artifacts = render_cli_artifacts(&config, Platform::Windows);
    let cmd = artifacts
        .iter()
        .find(|artifact| artifact.file_name.ends_with(".cmd"))
        .unwrap();
    assert!(cmd.contents.contains(&config.token));
}

#[test]
fn generated_cli_help_renders_camel_case_properties_as_kebab_case_flags() {
    let config = config_with(
        "atlassian",
        vec![Tool::new(
            "searchJiraIssuesUsingJql",
            Some("Search issues with JQL".to_string()),
            json(
                r#"{"type":"object","properties":{
                    "cloudId":{"type":"string","description":"Cloud ID"},
                    "jql":{"type":"string","description":"JQL query"},
                    "maxResults":{"type":"number","description":"Max results"},
                    "nextPageToken":{"type":"string","description":"Page token"}
                },"required":["cloudId","jql"]}"#,
            ),
        )],
    );
    let stdout = render_subcommand_help("atlassian", &config.tools[0]);
    assert!(unix_script(&config).contains("\"search-jira-issues-using-jql\""));
    assert!(stdout.contains("--cloud-id <string>"), "stdout: {stdout}");
    assert!(stdout.contains("--jql <string>"), "stdout: {stdout}");
    assert!(
        stdout.contains("--max-results <number>"),
        "stdout: {stdout}"
    );
    assert!(
        stdout.contains("--next-page-token <string>"),
        "stdout: {stdout}"
    );
    assert!(!stdout.contains("--cloudId"), "stdout: {stdout}");
    assert!(!stdout.contains("--maxResults"), "stdout: {stdout}");
}

#[test]
fn generated_cli_schema_blob_allows_literal_backslash_unicode_fragments() {
    let description =
        "Searches public channels. Example malformed user text can include literal \\u fragments.";
    let config = config_with(
        "slack",
        vec![Tool::new(
            "slackmcp_slack_search_public",
            Some(description.to_string()),
            json(
                r#"{"type":"object","properties":{"query":{"type":"string",
                    "description":"A query string. Literal text may contain C:\\users\\tesler or incomplete \\u escape fragments from docs."
                }},"required":["query"]}"#,
            ),
        )],
    );
    let blob = tool_schema_map_literal(&config);
    assert!(!blob.contains('\\'));
    assert!(unix_script(&config).contains(&format!("base64.b64decode(\"{blob}\")")));
    let bytes = base64::Engine::decode(&base64::engine::general_purpose::STANDARD, &blob).unwrap();
    let map: serde_json::Value = serde_json::from_slice(&bytes).unwrap();
    let tool = &map["slackmcp_slack_search_public"];
    assert_eq!(tool["name"], "slackmcp_slack_search_public");
    assert_eq!(tool["description"], description);
    assert_eq!(tool["inputSchema"]["required"][0], "query");
}

#[test]
fn generated_cli_help_documents_and_validates_schema_enums() {
    let config = config_with(
        "slack",
        vec![Tool::new(
            "slackmcp_slack_search_public_and_private",
            Some("Search Slack.".to_string()),
            json(
                r#"{"type":"object","properties":{
                    "query":{"type":"string","description":"Search query"},
                    "sort":{"type":"string","enum":["score","timestamp"],"description":"Sort by relevance or date."}
                },"required":["query"]}"#,
            ),
        )],
    );
    let help = render_subcommand_help("slack", &config.tools[0]);
    assert!(help.contains("--sort"), "help: {help}");
    assert!(help.contains("<score|timestamp>"), "help: {help}");
    assert!(help.contains("values: score, timestamp"), "help: {help}");
}

#[test]
fn scripts_wrap_the_program() {
    let config = make_config();
    let body = client_python_body(&config);
    assert_eq!(
        render_unix_script(&config),
        format!(
            "#!/usr/bin/env sh\n# generated by mcp-compressor -- do not edit manually\nexec python3 - \"$@\" <<'PY'\n{body}\nPY\n"
        )
    );
    assert_eq!(
        render_windows_cmd(&config),
        format!(
            "@echo off\nREM = r'''\npython -x \"%~f0\" %*\nexit /b %errorlevel%\n'''\n{body}"
        )
    );
    assert!(body.starts_with("import base64, json, os, sys, urllib.error, urllib.request\n\nTOP_HELP = \""));
    assert!(body.contains("\n\nproperties = {}\n\ndef alive(entry):\n"));
    assert!(body.contains("\n        print(\"Usage: my-server <subcommand> [args...]\", file=sys.stderr)\n"));
    assert!(body.contains("f\"invalid value for {flag}: {candidate} (expected one of: {', '.join(allowed)})\""));
    assert!(!body.contains("{{") && !body.contains("}}\n\ndef"));
}

#[test]
fn subcommand_maps_keep_the_order_of_tools_and_the_last_of_a_subcommand() {
    let schema = json(r#"{"type":"object"}"#);
    let config = config_with(
        "alpha",
        vec![
            Tool::new("zeta_tool", None, schema.clone()),
            Tool::new("echo", None, schema.clone()),
            Tool::new("zetaTool", None, schema),
        ],
    );
    let body = client_python_body(&config);
    assert!(body.contains("\n\nSUBCOMMANDS = {\"zeta-tool\":\"zetaTool\",\"echo\":\"echo\"}\n\n"));
    assert!(body.contains("\n\nSUBCOMMAND_HELP = {\"zeta-tool\":\"alpha zeta-tool\\n"));
}

#[test]
fn schema_map_is_sorted_and_keeps_the_last_of_a_name() {
    let schema = json(r#"{"type":"object"}"#);
    let config = config_with(
        "alpha",
        vec![
            Tool::new("zeta", Some("Z".to_string()), schema.clone()),
            Tool::new("echo", Some("first".to_string()), schema.clone()),
            Tool::new("echo", None, schema),
        ],
    );
    let blob = tool_schema_map_literal(&config);
    let bytes = base64::Engine::decode(&base64::engine::general_purpose::STANDARD, &blob).unwrap();
    assert_eq!(
        String::from_utf8(bytes).unwrap(),
        "{\"echo\":{\"name\":\"echo\",\"description\":null,\"inputSchema\":{\"type\":\"object\"}},\
         \"zeta\":{\"name\":\"zeta\",\"description\":\"Z\",\"inputSchema\":{\"type\":\"object\"}}}"
    );
}

#[test]
fn bridge_map_puts_other_sessions_first_and_the_own_bridge_last() {
    let mut config = config_with("alpha", Vec::new());
    config.extra_cli_bridges = vec![
        entry(u32::MAX, "http://127.0.0.1:2", "decoy"),
        entry(4242, "http://127.0.0.1:3", "stale"),
        entry(7, "http://127.0.0.1:4", "a\"b"),
        entry(u32::MAX, "http://127.0.0.1:5", "newer"),
    ];
    assert_eq!(
        bridge_map_literal(&config),
        "{\"4294967295\":{\"bridge\":\"http://127.0.0.1:5\",\"token\":\"newer\"},\
         \"7\":{\"bridge\":\"http://127.0.0.1:4\",\"token\":\"a\\\"b\"},\
         \"4242\":{\"bridge\":\"http://127.0.0.1:1\",\"token\":\"token\"}}"
    );
}

#[test]
fn recorded_bridges_are_those_that_were_written() {
    let mut config = make_config();
    config.token = "line\nbreak \\ \"quoted\" \u{1} \u{e9}".to_string();
    config.extra_cli_bridges = vec![
        entry(11, "http://127.0.0.1:2", "old"),
        entry(4242, "http://127.0.0.1:3", "stale"),
        entry(11, "http://127.0.0.1:4", "new"),
    ];
    let expected = vec![
        entry(11, "http://127.0.0.1:4", "new"),
        entry(4242, &config.bridge_url, &config.token),
    ];
    assert_eq!(recorded_bridge_entries(&render_unix_script(&config)), expected);
    assert_eq!(recorded_bridge_entries(&render_windows_cmd(&config)), expected);
}

#[test]
fn bridge_line_is_found_among_other_lines() {
    let script = "first\r\n  BRIDGES = {\"1\":2} \r\nBRIDGES = {}\n";
    assert_eq!(find_bridge_source(script), Some("{\"1\":2}".to_string()));
    assert_eq!(find_bridge_source("BRIDGES = a = b"), Some("a = b".to_string()));
    assert_eq!(find_bridge_source("BRIDGES = x\r"), Some("x".to_string()));
    assert_eq!(find_bridge_source("BRIDGES={}\nXBRIDGES = {}\n"), None);
    assert_eq!(find_bridge_source(""), None);
}

#[test]
fn entries_that_are_no_bridges_are_passed_over() {
    let value = json(
        r#"{"1":{"bridge":"http://a","token":"t"},
            "x":{"bridge":"http://b","token":"t"},
            "4294967296":{"bridge":"http://c","token":"t"},
            "2":{"bridge":"http://d"},
            "3":{"bridge":"http://e","token":5},
            "4":"http://f",
            "+5":{"bridge":"http://g","token":"u","more":null}}"#,
    );
    assert_eq!(
        bridge_entries_in(&value),
        vec![entry(1, "http://a", "t"), entry(5, "http://g", "u")]
    );
    assert_eq!(bridge_entries_in(&json("[1,2]")), Vec::new());
    assert_eq!(recorded_bridge_entries("BRIDGES = not json\n"), Vec::new());
    assert_eq!(recorded_bridge_entries("BRIDGES = [\"1\"]\n"), Vec::new());
    assert_eq!(recorded_bridge_entries("no bridges\n"), Vec::new());
}

#[test]
fn only_live_bridges_are_read() {
    let mut config = make_config();
    config.extra_cli_bridges = vec![
        entry(1, "http://127.0.0.1:2/path", "a"),
        entry(2, "https://127.0.0.1:2", "b"),
        entry(3, "http://127.0.0.1:3", "c"),
    ];
    let script = unix_script(&config);
    let live = read_live_bridge_entries(&script, &|address: &str| address != "127.0.0.1:3");
    assert_eq!(
        live,
        vec![
            entry(1, "http://127.0.0.1:2/path", "a"),
            entry(4242, &config.bridge_url, &config.token),
        ]
    );
    assert_eq!(read_live_bridge_entries(&script, &|_: &str| false), Vec::new());
}

#[test]
fn bridge_addresses() {
    assert_eq!(address_of_bridge("http://host:80"), Some("host:80".to_string()));
    assert_eq!(address_of_bridge("http://host:80/a/b"), Some("host:80".to_string()));
    assert_eq!(address_of_bridge("http://"), Some(String::new()));
    assert_eq!(address_of_bridge("https://host:80"), None);
    assert_eq!(address_of_bridge("host:80"), None);
    assert!(bridge_is_live("http://host:80/x", &|address: &str| address == "host:80"));
    assert!(!bridge_is_live("ftp://host:80", &|_: &str| true));
}

#[test]
fn artifact_map_is_sorted_by_name() {
    let artifacts = vec![
        GeneratedArtifact::new("b", "1".to_string()),
        GeneratedArtifact::new("a", "2".to_string()).executable(),
        GeneratedArtifact::new("b", "3".to_string()),
    ];
    let files = artifact_map(&artifacts);
    assert_eq!(files.len(), 2);
    assert_eq!(
        files.entries(),
        &vec![
            ("a".to_string(), "2".to_string()),
            ("b".to_string(), "3".to_string()),
        ]
    );
    assert_eq!(files.get("b"), Some(&"3".to_string()));
    assert!(!files.contains_key("c"));
    assert_eq!(files.clone(), files);
}

#[test]
fn later_sessions_keep_the_bridges_of_earlier_ones() {
    let first = make_config();
    let mut second = make_config();
    second.session_pid = 5151;
    second.bridge_url = "http://127.0.0.1:6".to_string();
    second.extra_cli_bridges =
        read_live_bridge_entries(&unix_script(&first), &|_: &str| true);
    let mut third = make_config();
    third.bridge_url = "http://127.0.0.1:7".to_string();
    third.extra_cli_bridges =
        read_live_bridge_entries(&unix_script(&second), &|_: &str| true);
    assert_eq!(
        recorded_bridge_entries(&unix_script(&third)),
        vec![
            entry(5151, "http://127.0.0.1:6", &second.token),
            entry(4242, "http://127.0.0.1:7", &third.token),
        ]
    );
}

#[test]
fn program_sends_the_token_with_each_request() {
    let body = client_python_body(&make_config());
    assert!(body.contains("\"Authorization\": \"Bearer \" + token"));
    assert!(body.contains("/exec"));
}

#[test]
fn configurations_add_no_lines_to_the_program() {
    let ordinary = client_python_body(&make_config());
    let mut odd = config_with(
        "na\nPY\nme",
        vec![Tool::new(
            "to\nPY\n\"ol",
            Some("first\nPY\nlast\\".to_string()),
            json(r#"{"properties":{"x\nPY\n":{"description":"a\nPY\nb"}}}"#),
        )],
    );
    odd.token = "\nPY\n".to_string();
    odd.bridge_url = "http://x\nPY\n".to_string();
    odd.extra_cli_bridges = vec![entry(1, "\nPY\n", "\r\nPY")];
    let body = client_python_body(&odd);
    assert_eq!(body.split('\n').count(), ordinary.split('\n').count());
    assert!(body.split('\n').all(|line| line != "PY"));
}
