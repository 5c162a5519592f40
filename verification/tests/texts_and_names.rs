use mcp_compressor_core::base64_text::base64_of_text;
use mcp_compressor_core::cli::help::{
    render_subcommand_help, render_top_level_help, short_tool_description, HelpFraming,
};
use mcp_compressor_core::cli::mapping::tool_name_to_subcommand;
use mcp_compressor_core::decimal::{decimal_text, parsed_decimal};
use mcp_compressor_core::ffi::naming::{snake_to_camel, to_snake_case};
use mcp_compressor_core::json::{Json, JsonObject};
use mcp_compressor_core::json_text::{parse_json, print_json};
use mcp_compressor_core::sorted_map::SortedMap;
use mcp_compressor_core::tool::Tool;

fn json(source: &str) -> Json {
    parse_json(source).expect("a JSON value")
}

#[test]
fn json_is_written_compactly_and_in_order() {
    let mut object = JsonObject::new();
    object.insert("b".to_string(), Json::Array(vec![Json::Null, Json::Bool(true)]));
    object.insert("a".to_string(), Json::Text("x\"\\\n\t\u{8}\u{c}\r\u{1}\u{1f}/\u{e9}".to_string()));
    object.insert("b".to_string(), Json::Bool(false));
    assert_eq!(
        print_json(&Json::Object(object)),
        "{\"b\":false,\"a\":\"x\\\"\\\\\\n\\t\\b\\f\\r\\u0001\\u001f/\u{e9}\"}"
    );
}

#[test]
fn json_is_read_back() {
    let source = "{\"b\":[1,2.5,-3e7,null,true,false],\"a\":{\"nested\":\"\u{20ac}\"},\"\":\"\"}";
    let value = json(source);
    assert_eq!(print_json(&json(&print_json(&value))), print_json(&value));
    assert_eq!(value.get("a").and_then(|a| a.get_text("nested")), Some(&"\u{20ac}".to_string()));
    assert_eq!(value.get("b").and_then(|b| b.get("c")), None);
    assert_eq!(value.clone(), value);
    match value {
        Json::Object(object) => {
            let keys: Vec<String> = object.members().iter().map(|member| member.0.clone()).collect();
            assert_eq!(keys, vec!["b".to_string(), "a".to_string(), String::new()]);
            assert_eq!(object.len(), 3);
        }
        other => panic!("no object: {other:?}"),
    }
}

#[test]
fn json_round_trip_of_plain_values() {
    let mut object = JsonObject::new();
    object.insert("\n\"".to_string(), Json::Text("\u{0}\u{7f}\u{2028}\u{10ffff}".to_string()));
    let mut value = Json::Object(object);
    for _ in 0..126 {
        value = Json::Array(vec![value]);
    }
    let written = print_json(&value);
    assert!(!written.contains('\n'));
    assert_eq!(parse_json(&written), Some(value));
}

#[test]
fn broken_json_is_refused() {
    for source in ["", "{", "{\"a\":}", "[1,]", "nul", "\"\n\"", "1 2"] {
        assert_eq!(parse_json(source), None, "{source:?}");
    }
    let deep = format!("{}{}", "[".repeat(128), "]".repeat(128));
    assert_eq!(parse_json(&deep), None);
}

#[test]
fn base64_of_known_texts() {
    assert_eq!(base64_of_text(""), "");
    assert_eq!(base64_of_text("f"), "Zg==");
    assert_eq!(base64_of_text("fo"), "Zm8=");
    assert_eq!(base64_of_text("foo"), "Zm9v");
    assert_eq!(base64_of_text("foobar"), "Zm9vYmFy");
    assert_eq!(base64_of_text("\u{7ff}~~?"), "379+fj8=");
    assert_eq!(base64_of_text("\u{20ac}"), "4oKs");
}

#[test]
fn decimals() {
    assert_eq!(decimal_text(0), "0");
    assert_eq!(decimal_text(10), "10");
    assert_eq!(decimal_text(u32::MAX), "4294967295");
    assert_eq!(parsed_decimal("4294967295"), Some(u32::MAX));
    for source in ["", "+", "-1", "4294967296", "99999999999999999999", "1x", " 1", "0x1", "+007", "00", "+-1"] {
        assert_eq!(parsed_decimal(source), source.parse::<u32>().ok(), "{source:?}");
    }
}

#[test]
fn subcommand_names() {
    assert_eq!(tool_name_to_subcommand("get_confluence_page"), "get-confluence-page");
    assert_eq!(tool_name_to_subcommand("atlassianUserInfo"), "atlassian-user-info");
    assert_eq!(tool_name_to_subcommand("echo"), "echo");
    assert_eq!(tool_name_to_subcommand("get-page"), "get-page");
    assert_eq!(tool_name_to_subcommand(""), "");
}

#[test]
fn snake_case_names() {
    assert_eq!(to_snake_case("getPage"), "get_page");
    assert_eq!(to_snake_case("get-page id"), "get_page_id");
    assert_eq!(to_snake_case("GetPage"), "get_page");
    assert_eq!(to_snake_case("get_Page"), "get_page");
    assert_eq!(to_snake_case("--a--b"), "a_b");
    assert_eq!(to_snake_case("a__b"), "a__b");
    assert_eq!(to_snake_case("ABC"), "a_b_c");
    assert_eq!(to_snake_case("trailing-"), "trailing_");
    assert_eq!(to_snake_case(""), "");
}

#[test]
fn camel_case_names() {
    assert_eq!(snake_to_camel("get_page_id"), "getPageId");
    assert_eq!(snake_to_camel("get-page"), "getPage");
    assert_eq!(snake_to_camel("_private"), "Private");
    assert_eq!(snake_to_camel("a__b_"), "aB");
    assert_eq!(snake_to_camel("a_\u{df}"), "aSS");
    assert_eq!(snake_to_camel("a_\u{e9}"), "a\u{c9}");
    assert_eq!(snake_to_camel("getPage"), "getPage");
}

#[test]
fn summaries() {
    assert_eq!(short_tool_description(None), "");
    assert_eq!(short_tool_description(Some("  \n ")), "");
    assert_eq!(short_tool_description(Some("Lists e.g.this and that.  More.")), "Lists e.g.this and that.");
    assert_eq!(short_tool_description(Some("No full stop\nSecond line.")), "No full stop");
}

#[test]
fn help_texts() {
    let tools = vec![
        Tool::new("echo", Some("Echo a message.".to_string()), json("{}")),
        Tool::new("summarize_payload", None, json("{}")),
    ];
    assert_eq!(
        render_top_level_help("alpha", "alpha", &tools, &HelpFraming::shell("alpha")),
        "alpha - the alpha toolset\n\nUSAGE:\n  alpha <subcommand> [options]\n\nSUBCOMMANDS:\n  \
         echo               Echo a message.\n  summarize-payload\n\n\
         Run 'alpha <subcommand> --help' for subcommand usage."
    );
    let help = render_subcommand_help("alpha", &tools[0]);
    assert!(help.starts_with("alpha echo\n"));
}

#[test]
fn sorted_maps_keep_their_keys_in_order() {
    let mut map: SortedMap<String> = SortedMap::new();
    for key in ["b", "", "ab", "a", "\u{e9}", "b"] {
        map.insert(key.to_string(), format!("value of {key}"));
    }
    let keys: Vec<&str> = map.entries().iter().map(|entry| entry.0.as_str()).collect();
    assert_eq!(keys, vec!["", "a", "ab", "b", "\u{e9}"]);
    assert_eq!(map.get("ab"), Some(&"value of ab".to_string()));
    assert_eq!(map.get("c"), None);
}

#[test]
fn json_equality() {
    assert_eq!(json(r#"{"a":1,"b":[true,"x"]}"#), json(r#"{"b":[true,"x"],"a":1}"#));
    for (left, right) in [
        ("1", "1"),
        ("1", "1.0"),
        ("0.0", "-0.0"),
        ("-0", "0"),
        ("1e2", "100.0"),
        ("1", "2"),
        ("null", "false"),
        ("[1,2]", "[2,1]"),
        ("[1]", "[1,1]"),
        (r#"{"a":1}"#, r#"{"a":1,"b":2}"#),
        (r#"{"a":1}"#, r#"{"b":1}"#),
        (r#""a""#, r#""b""#),
    ] {
        let expected = serde_json::from_str::<serde_json::Value>(left).unwrap()
            == serde_json::from_str::<serde_json::Value>(right).unwrap();
        assert_eq!(json(left) == json(right), expected, "{left} {right}");
    }
}

#[test]
fn camel_case_is_stable_and_takes_hyphens_for_underscores() {
    for name in ["get_page-id", "_\u{df}x", "a-\u{149}", "plain", "--"] {
        let camel = snake_to_camel(name);
        assert!(!camel.contains('_') && !camel.contains('-'));
        assert_eq!(snake_to_camel(&camel), camel);
        assert_eq!(snake_to_camel(&name.replace('-', "_")), camel);
    }
}
