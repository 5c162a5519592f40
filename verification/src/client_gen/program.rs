//! The Python program that a generated command runs.
//!
//! The program finds the bridge of its own session, reads its arguments by the schema of the tool
//! that the subcommand names, and sends the call to the bridge with the token of the session.

use vstd::prelude::*;

use crate::base64_text;
use crate::base64_text::base64_of_text;
use crate::cli::help;
use crate::cli::help::{render_subcommand_help, render_top_level_help, HelpFraming};
use crate::cli::mapping;
use crate::cli::mapping::tool_name_to_subcommand;
use crate::client_gen::generator;
use crate::client_gen::generator::{BridgeView, CliBridgeEntry, ConfigView, GeneratorConfig};
use crate::decimal;
use crate::decimal::decimal_text;
use crate::entries;
use crate::json;
use crate::json::{Json, JsonObject, JsonView};
use crate::json_text;
use crate::json_text::print_json;
use crate::sorted_map;
use crate::sorted_map::SortedMap;
use crate::tool;
use crate::tool::{Tool, ToolView};

verus! {

/// The start of the client program, up to the help text of the command.
pub const PROGRAM_START: &'static str = "import base64, json, os, sys, urllib.error, urllib.request\n\nTOP_HELP = ";

/// What stands between the help text and the map of bridges.
pub const PROGRAM_BRIDGES: &'static str = "\n\nBRIDGES = ";

/// What stands between the map of bridges and the encoded map of tools.
pub const PROGRAM_SCHEMAS: &'static str = "\n\nTOOL_SCHEMAS = json.loads(base64.b64decode(";

/// What stands between the encoded map of tools and the map of subcommands.
pub const PROGRAM_SUBCOMMANDS: &'static str = ").decode(\"utf-8\"))\n\nSUBCOMMANDS = ";

/// What stands between the map of subcommands and their help texts.
pub const PROGRAM_SUBCOMMAND_HELP: &'static str = "\n\nSUBCOMMAND_HELP = ";

/// What stands between the help texts of the subcommands and the usage line: the functions that find
/// the bridge of the session and read the arguments of a subcommand, and the start of the main
/// function.
pub const PROGRAM_FUNCTIONS: &'static str = r#"

properties = {}

def alive(entry):
    try:
        req = urllib.request.Request(entry["bridge"] + "/health", method="GET")
        with urllib.request.urlopen(req, timeout=1) as resp:
            return resp.status == 200
    except Exception:
        return False

def windows_parent_pid(pid):
    # Read the parent PID from a process snapshot. ctypes defaults kernel32 calls
    # to a 32-bit int return, which truncates the pointer-sized snapshot handle on
    # 64-bit Python and makes the lookup fail, so declare the real arg/return types.
    import ctypes
    from ctypes import wintypes
    TH32CS_SNAPPROCESS = 0x2
    INVALID_HANDLE_VALUE = ctypes.c_void_p(-1).value
    class ProcessEntry(ctypes.Structure):
        _fields_ = [("dwSize", wintypes.DWORD), ("cntUsage", wintypes.DWORD),
                    ("th32ProcessID", wintypes.DWORD),
                    ("th32DefaultHeapID", ctypes.c_void_p),
                    ("th32ModuleID", wintypes.DWORD), ("cntThreads", wintypes.DWORD),
                    ("th32ParentProcessID", wintypes.DWORD),
                    ("pcPriClassBase", ctypes.c_long), ("dwFlags", wintypes.DWORD),
                    ("szExeFile", ctypes.c_char * 260)]
    kernel32 = ctypes.windll.kernel32
    kernel32.CreateToolhelp32Snapshot.restype = wintypes.HANDLE
    kernel32.CreateToolhelp32Snapshot.argtypes = [wintypes.DWORD, wintypes.DWORD]
    kernel32.Process32First.argtypes = [wintypes.HANDLE, ctypes.POINTER(ProcessEntry)]
    kernel32.Process32Next.argtypes = [wintypes.HANDLE, ctypes.POINTER(ProcessEntry)]
    kernel32.CloseHandle.argtypes = [wintypes.HANDLE]
    snapshot = kernel32.CreateToolhelp32Snapshot(TH32CS_SNAPPROCESS, 0)
    # The documented failure return is INVALID_HANDLE_VALUE, not NULL; guard both.
    if snapshot is None or snapshot == INVALID_HANDLE_VALUE:
        return 0
    try:
        entry = ProcessEntry()
        entry.dwSize = ctypes.sizeof(ProcessEntry)
        ok = kernel32.Process32First(snapshot, ctypes.byref(entry))
        while ok:
            if entry.th32ProcessID == pid:
                return entry.th32ParentProcessID
            ok = kernel32.Process32Next(snapshot, ctypes.byref(entry))
        return 0
    finally:
        kernel32.CloseHandle(snapshot)

def unix_parent_pid(pid):
    try:  # Linux: read the parent PID from /proc.
        with open(f"/proc/{pid}/stat", "r", encoding="utf-8") as handle:
            return int(handle.read().rsplit(")", 1)[1].split()[1])
    except Exception:
        pass
    try:  # Other Unix: ask ps.
        import subprocess
        output = subprocess.check_output(["ps", "-o", "ppid=", "-p", str(pid)], text=True)
        return int(output.strip() or "0")
    except Exception:
        return 0

def parent_pid(pid):
    # The walk is shared; this per-OS parent lookup is the only platform-specific
    # part. Dispatch by os.name: Windows has no /proc or ps, and a stray ps on PATH
    # (e.g. Git for Windows) must not be consulted there.
    try:
        return windows_parent_pid(pid) if os.name == "nt" else unix_parent_pid(pid)
    except Exception:
        return 0

def ancestors():
    pid = os.getppid()
    seen = set()
    while pid and pid not in seen:
        seen.add(pid)
        yield str(pid)
        pid = parent_pid(pid)

def find_bridge():
    for pid in ancestors():
        entry = BRIDGES.get(pid)
        if entry and alive(entry):
            return entry
    # Last resort: no ancestor PID matched a known bridge (e.g. the session that
    # launched this client has exited). Return any live bridge so a lone session
    # still works.
    for entry in BRIDGES.values():
        if alive(entry):
            return entry
    return None

def schema_type(schema):
    return schema.get("type") if isinstance(schema, dict) else None

def enum_values(schema):
    if not isinstance(schema, dict):
        return []
    explicit = schema.get("enum")
    if isinstance(explicit, list):
        return [str(value) for value in explicit]
    return []

def canonical_name(value):
    return value.replace("-", "_").replace("_", "").lower()

def flag_to_property(flag):
    raw = flag[2:]
    if raw.startswith("no-"):
        raw = raw[3:]
    if raw in properties:
        return raw
    snake = raw.replace("-", "_")
    if snake in properties:
        return snake
    canonical = canonical_name(raw)
    for prop in properties:
        if canonical_name(prop) == canonical:
            return prop
    return raw

def coerce_value(flag, schema, raw_value, forced_bool=None):
    if forced_bool is not None:
        return forced_bool
    typ = schema_type(schema)
    if typ == "boolean":
        if raw_value is None:
            return True
        if raw_value == "true":
            return True
        if raw_value == "false":
            return False
        raise SystemExit(f"invalid boolean value for {flag}: {raw_value} (expected true or false)")
    if typ == "integer":
        try:
            return int(raw_value)
        except Exception:
            raise SystemExit(f"invalid integer value for {flag}: {raw_value}")
    if typ == "number":
        try:
            return float(raw_value)
        except Exception:
            raise SystemExit(f"invalid number value for {flag}: {raw_value}")
    if typ == "array":
        try:
            parsed = json.loads(raw_value)
            if isinstance(parsed, list):
                return parsed
        except Exception:
            pass
        return coerce_value(flag, schema.get("items", {}), raw_value)
    try:
        return json.loads(raw_value or "")
    except Exception:
        return raw_value or ""

def validate_value(flag, schema, value):
    allowed = enum_values(schema)
    if not allowed:
        return
    values = value if isinstance(value, list) else [value]
    for candidate in values:
        if str(candidate) not in allowed:
            raise SystemExit(
                f"invalid value for {flag}: {candidate} (expected one of: {', '.join(allowed)})"
            )

def insert_value(output, key, schema, value):
    if schema_type(schema) == "array":
        values = value if isinstance(value, list) else [value]
        output.setdefault(key, []).extend(values)
    else:
        output[key] = value

def parse_args(argv):
    if argv and argv[0] == "--json":
        if len(argv) < 2:
            raise SystemExit("--json requires a value")
        if len(argv) > 2:
            raise SystemExit("--json cannot be combined with other arguments")
        return json.loads(argv[1])
    output = {}
    index = 0
    while index < len(argv):
        flag = argv[index]
        if not flag.startswith("--") or flag == "--":
            raise SystemExit(f"unexpected positional argument: {flag}")
        prop = flag_to_property(flag)
        if prop not in properties:
            raise SystemExit(f"unknown flag: {flag}")
        schema = properties[prop]
        typ = schema_type(schema)
        forced_bool = False if flag.startswith("--no-") else None
        if forced_bool is False:
            if typ != "boolean":
                raise SystemExit(f"{flag} can only be used with boolean properties")
            raw_value = None
            consumed = 1
        elif typ == "boolean":
            if index + 1 < len(argv) and not argv[index + 1].startswith("--"):
                raw_value = argv[index + 1]
                consumed = 2
            else:
                raw_value = None
                consumed = 1
        else:
            if index + 1 >= len(argv) or argv[index + 1].startswith("--"):
                raise SystemExit(f"{flag} requires a value")
            raw_value = argv[index + 1]
            consumed = 2
        value = coerce_value(flag, schema, raw_value, forced_bool)
        validate_value(flag, schema, value)
        insert_value(output, prop, schema, value)
        index += consumed
    return output

def unwrap_proxy_response(body):
    try:
        parsed = json.loads(body)
    except Exception:
        return body
    if isinstance(parsed, dict) and set(parsed.keys()) == {"result"}:
        result = parsed["result"]
        return result if isinstance(result, str) else json.dumps(result, separators=(",", ":"))
    return body

def main():
    global properties
    argv = sys.argv[1:]
    if not argv or argv[0] in ("--help", "-h", "help"):
        print(TOP_HELP)
        return 0
    subcommand = argv[0]
    if subcommand not in SUBCOMMANDS:
        print("#;

/// The rest of the main function: the request to the bridge, and what is printed of its answer.
pub const PROGRAM_END: &'static str = r#", file=sys.stderr)
        return 2
    rest = argv[1:]
    if rest and rest[0] in ("--help", "-h", "help"):
        print(SUBCOMMAND_HELP[subcommand])
        return 0
    tool_name = SUBCOMMANDS[subcommand]
    entry = find_bridge()
    if entry is None:
        print("mcp-compressor proxy is not running; restart the mcp-compressor CLI-mode process and try again.", file=sys.stderr)
        return 1
    bridge = entry["bridge"]
    token = entry["token"]
    tool_schema = TOOL_SCHEMAS[tool_name]
    properties = tool_schema.get("inputSchema") or tool_schema.get("input_schema") or {}
    properties = properties.get("properties", {}) if isinstance(properties, dict) else {}
    tool_input = parse_args(rest)
    payload = json.dumps({"tool": tool_name, "input": tool_input}).encode()
    req = urllib.request.Request(
        bridge + "/exec",
        data=payload,
        headers={"Content-Type": "application/json", "Authorization": "Bearer " + token},
        method="POST",
    )
    try:
        with urllib.request.urlopen(req, timeout=30) as resp:
            sys.stdout.write(unwrap_proxy_response(resp.read().decode()))
    except urllib.error.HTTPError as exc:
        message = exc.read().decode(errors="replace") or exc.reason
        print(f"mcp-compressor proxy returned HTTP {exc.code}: {message}", file=sys.stderr)
        return 1
    except urllib.error.URLError as exc:
        print(
            "mcp-compressor proxy is not running; restart the mcp-compressor CLI-mode process and try again.",
            file=sys.stderr,
        )
        print(f"details: {exc.reason}", file=sys.stderr)
        return 1
    return 0

if __name__ == "__main__":
    raise SystemExit(main())
"#;

/// The bridges that a client knows: those of the other sessions, and last its own.
pub open spec fn known_bridges(config: ConfigView) -> Seq<BridgeView> {
    config.extra_cli_bridges.filter(
        |entry: BridgeView| entry.session_pid != config.session_pid,
    ).push(
        BridgeView {
            session_pid: config.session_pid,
            bridge_url: config.bridge_url,
            token: config.token,
        },
    )
}

/// A bridge as a JSON value: its address and its token.
pub open spec fn bridge_json(entry: BridgeView) -> JsonView {
    JsonView::Object(
        seq![
            ("bridge"@, JsonView::Text(entry.bridge_url)),
            ("token"@, JsonView::Text(entry.token)),
        ],
    )
}

/// Bridges under the process numbers of their sessions, in the order in which the numbers first
/// occur; of two bridges with one number the later counts.
pub open spec fn bridge_members(bridges: Seq<BridgeView>) -> Seq<(Seq<char>, JsonView)>
    decreases bridges.len(),
{
    if bridges.len() == 0 {
        Seq::empty()
    } else {
        entries::put(
            bridge_members(bridges.drop_last()),
            decimal::decimal(bridges.last().session_pid as nat),
            bridge_json(bridges.last()),
        )
    }
}

/// The map of bridges of a client.
pub open spec fn bridge_map(config: ConfigView) -> JsonView {
    JsonView::Object(bridge_members(known_bridges(config)))
}

/// A bridge as a JSON value.
fn bridge_value(entry: &CliBridgeEntry) -> (value: Json)
    ensures
        value@ == bridge_json(entry@),
{
    let mut object = JsonObject::new();
    object.insert(String::from_str("bridge"), Json::Text(entry.bridge_url.clone()));
    object.insert(String::from_str("token"), Json::Text(entry.token.clone()));
    proof {
        reveal_strlit("bridge");
        reveal_strlit("token");
        let first = seq![("bridge"@, JsonView::Text(entry.bridge_url@))];
        assert("bridge"@.len() != "token"@.len());
        entries::lemma_put_absent(
            Seq::<(Seq<char>, JsonView)>::empty(),
            "bridge"@,
            JsonView::Text(entry.bridge_url@),
        );
        assert(Seq::<(Seq<char>, JsonView)>::empty().push(first[0]) =~= first);
        entries::lemma_put_absent(first, "token"@, JsonView::Text(entry.token@));
        assert(object@ =~= bridge_json(entry@)->Object_0);
    }
    Json::Object(object)
}

/// The JSON text of the map of bridges of a client.
pub fn bridge_map_literal(config: &GeneratorConfig) -> (literal: String)
    ensures
        literal@ == json_text::json_text(bridge_map(config@)),
{
    let ghost extra = generator::bridge_views(config.extra_cli_bridges@);
    let ghost foreign = |entry: BridgeView| entry.session_pid != config.session_pid;
    let mut map = JsonObject::new();
    let mut i: usize = 0;
    proof {
        reveal(Seq::filter);
        assert(extra.take(0).filter(foreign) =~= Seq::empty());
    }
    while i < config.extra_cli_bridges.len()
        invariant
            0 <= i <= config.extra_cli_bridges@.len(),
            extra == generator::bridge_views(config.extra_cli_bridges@),
            foreign == (|entry: BridgeView| entry.session_pid != config.session_pid),
            map@ == bridge_members(extra.take(i as int).filter(foreign)),
        decreases config.extra_cli_bridges@.len() - i,
    {
        let entry = &config.extra_cli_bridges[i];
        proof {
            reveal(Seq::filter);
            let longer = extra.take(i + 1);
            assert(longer.drop_last() =~= extra.take(i as int));
            assert(longer.last() == entry@);
        }
        if entry.session_pid != config.session_pid {
            map.insert(decimal_text(entry.session_pid), bridge_value(entry));
            proof {
                let kept = extra.take(i as int).filter(foreign);
                assert(kept.push(entry@).drop_last() =~= kept);
            }
        }
        i = i + 1;
    }
    let own = CliBridgeEntry {
        session_pid: config.session_pid,
        bridge_url: config.bridge_url.clone(),
        token: config.token.clone(),
    };
    map.insert(decimal_text(config.session_pid), bridge_value(&own));
    proof {
        assert(extra.take(extra.len() as int) =~= extra);
        let kept = extra.filter(foreign);
        assert(known_bridges(config@).drop_last() =~= kept);
        assert(known_bridges(config@).last() == own@);
    }
    print_json(&Json::Object(map))
}

/// An optional text as a JSON value.
pub open spec fn optional_json(found: Option<Seq<char>>) -> JsonView {
    match found {
        Some(characters) => JsonView::Text(characters),
        None => JsonView::Null,
    }
}

/// A tool as a JSON value.
pub open spec fn tool_json(described: ToolView) -> JsonView {
    JsonView::Object(
        seq![
            ("name"@, JsonView::Text(described.name)),
            ("description"@, optional_json(described.description)),
            ("inputSchema"@, described.input_schema),
        ],
    )
}

/// Tools under their names, sorted by name; of two tools with one name the later counts.
pub open spec fn schema_members(tools: Seq<ToolView>) -> Seq<(Seq<char>, JsonView)>
    decreases tools.len(),
{
    if tools.len() == 0 {
        Seq::empty()
    } else {
        sorted_map::sorted_insert(
            schema_members(tools.drop_last()),
            tools.last().name,
            tool_json(tools.last()),
        )
    }
}

/// The map of tools, as JSON text in base64.
pub open spec fn encoded_schemas(tools: Seq<ToolView>) -> Seq<char> {
    base64_text::base64(
        vstd::utf8::encode_utf8(json_text::json_text(JsonView::Object(schema_members(tools)))),
    )
}

/// A tool as a JSON value.
fn tool_value(described: &Tool) -> (value: Json)
    ensures
        value@ == tool_json(described@),
{
    let description = match &described.description {
        Some(found) => Json::Text(found.clone()),
        None => Json::Null,
    };
    let mut object = JsonObject::new();
    object.insert(String::from_str("name"), Json::Text(described.name.clone()));
    object.insert(String::from_str("description"), description);
    object.insert(String::from_str("inputSchema"), described.input_schema.clone());
    proof {
        reveal_strlit("name");
        reveal_strlit("description");
        reveal_strlit("inputSchema");
        let members = tool_json(described@)->Object_0;
        let none = Seq::<(Seq<char>, JsonView)>::empty();
        assert("name"@.len() == 4 && "description"@.len() == 11 && "inputSchema"@.len() == 11);
        assert("description"@[0] != "inputSchema"@[0]);
        entries::lemma_put_absent(none, members[0].0, members[0].1);
        entries::lemma_put_absent(none.push(members[0]), members[1].0, members[1].1);
        entries::lemma_put_absent(
            none.push(members[0]).push(members[1]),
            members[2].0,
            members[2].1,
        );
        assert(object@ =~= members);
    }
    Json::Object(object)
}

/// The base64 text of the map of tools.
pub fn tool_schema_map_literal(config: &GeneratorConfig) -> (literal: String)
    ensures
        literal@ == encoded_schemas(config@.tools),
{
    let ghost views = tool::tool_views(config.tools@);
    let mut sorted: SortedMap<Json> = SortedMap::new();
    let mut i: usize = 0;
    while i < config.tools.len()
        invariant
            0 <= i <= config.tools@.len(),
            views == tool::tool_views(config.tools@),
            sorted@ == schema_members(views.take(i as int)),
        decreases config.tools@.len() - i,
    {
        sorted.insert(config.tools[i].name.clone(), tool_value(&config.tools[i]));
        proof {
            let longer = views.take(i + 1);
            assert(longer.drop_last() =~= views.take(i as int));
            assert(longer.last() == config.tools@[i as int]@);
        }
        i = i + 1;
    }
    assert(views.take(views.len() as int) =~= views);
    base64_of_text(print_json(&Json::Object(object_of(&sorted))).as_str())
}

/// The object whose members are the entries of a sorted map.
fn object_of(sorted: &SortedMap<Json>) -> (object: JsonObject)
    ensures
        object@ == sorted@,
{
    let entries = sorted.entries();
    let mut object = JsonObject::new();
    let mut i: usize = 0;
    while i < entries.len()
        invariant
            0 <= i <= entries@.len(),
            sorted_map::entry_views(entries@) == sorted@,
            sorted_map::strictly_sorted(sorted@),
            object@ == sorted@.take(i as int),
        decreases entries@.len() - i,
    {
        proof {
            let done = sorted@.take(i as int);
            let next = sorted@[i as int];
            assert(next == (entries@[i as int].0@, entries@[i as int].1@));
            assert forall|j: int| 0 <= j < done.len() implies (#[trigger] done[j]).0 != next.0 by {
                assert(sorted_map::text_before(sorted@[j].0, sorted@[i as int].0));
                sorted_map::lemma_before_irreflexive(next.0);
            }
            entries::lemma_put_absent(done, next.0, next.1);
            assert(done.push(next) =~= sorted@.take(i + 1));
        }
        object.insert(entries[i].0.clone(), entries[i].1.clone());
        i = i + 1;
    }
    assert(sorted@.take(sorted@.len() as int) =~= sorted@);
    object
}

/// The names of the tools under their subcommands, in the order in which the subcommands first
/// occur; of two tools with one subcommand the later counts.
pub open spec fn subcommand_members(tools: Seq<ToolView>) -> Seq<(Seq<char>, JsonView)>
    decreases tools.len(),
{
    if tools.len() == 0 {
        Seq::empty()
    } else {
        entries::put(
            subcommand_members(tools.drop_last()),
            mapping::kebab_case(tools.last().name),
            JsonView::Text(tools.last().name),
        )
    }
}

/// The help texts of the tools under their subcommands, in the same order.
pub open spec fn subcommand_help_members(cli_name: Seq<char>, tools: Seq<ToolView>) -> Seq<
    (Seq<char>, JsonView),
>
    decreases tools.len(),
{
    if tools.len() == 0 {
        Seq::empty()
    } else {
        entries::put(
            subcommand_help_members(cli_name, tools.drop_last()),
            mapping::kebab_case(tools.last().name),
            JsonView::Text(help::subcommand_help(cli_name, tools.last())),
        )
    }
}

/// The last tool with a subcommand, if there is one.
pub open spec fn tool_of_subcommand(tools: Seq<ToolView>, subcommand: Seq<char>) -> Option<ToolView>
    decreases tools.len(),
{
    if tools.len() == 0 {
        None
    } else if mapping::kebab_case(tools.last().name) == subcommand {
        Some(tools.last())
    } else {
        tool_of_subcommand(tools.drop_last(), subcommand)
    }
}

/// Each subcommand stands for the last tool that has it: under it the program holds the name of
/// that tool and the help on it, and under nothing else does it hold a name or a help text.
pub proof fn law_subcommands(cli_name: Seq<char>, tools: Seq<ToolView>, subcommand: Seq<char>)
    ensures
        entries::lookup(subcommand_members(tools), subcommand) == (match tool_of_subcommand(
            tools,
            subcommand,
        ) {
            Some(found) => Some(JsonView::Text(found.name)),
            None => None,
        }),
        entries::lookup(subcommand_help_members(cli_name, tools), subcommand) == (
        match tool_of_subcommand(tools, subcommand) {
            Some(found) => Some(JsonView::Text(help::subcommand_help(cli_name, found))),
            None => None,
        }),
        entries::distinct_keys(subcommand_members(tools)),
        entries::distinct_keys(subcommand_help_members(cli_name, tools)),
    decreases tools.len(),
{
    if tools.len() > 0 {
        let earlier = tools.drop_last();
        let last = tools.last();
        law_subcommands(cli_name, earlier, subcommand);
        entries::law_put(
            subcommand_members(earlier),
            mapping::kebab_case(last.name),
            JsonView::Text(last.name),
        );
        entries::law_put(
            subcommand_help_members(cli_name, earlier),
            mapping::kebab_case(last.name),
            JsonView::Text(help::subcommand_help(cli_name, last)),
        );
    }
}

/// The subcommand of every tool is known to the program.
pub proof fn law_every_tool_has_a_subcommand(tools: Seq<ToolView>, i: int)
    requires
        0 <= i < tools.len(),
    ensures
        entries::lookup(subcommand_members(tools), mapping::kebab_case(tools[i].name)) is Some,
    decreases tools.len(),
{
    law_subcommands(Seq::empty(), tools, mapping::kebab_case(tools[i].name));
    if i < tools.len() - 1 {
        law_every_tool_has_a_subcommand(tools.drop_last(), i);
        law_subcommands(
            Seq::empty(),
            tools.drop_last(),
            mapping::kebab_case(tools.drop_last()[i].name),
        );
    }
}

/// The last tool with a name, if there is one.
pub open spec fn tool_named(tools: Seq<ToolView>, name: Seq<char>) -> Option<ToolView>
    decreases tools.len(),
{
    if tools.len() == 0 {
        None
    } else if tools.last().name == name {
        Some(tools.last())
    } else {
        tool_named(tools.drop_last(), name)
    }
}

/// The map of tools is sorted by name, and holds under each name the last tool that has it.
pub proof fn law_schema_members(tools: Seq<ToolView>, name: Seq<char>)
    ensures
        sorted_map::strictly_sorted(schema_members(tools)),
        entries::lookup(schema_members(tools), name) == (match tool_named(tools, name) {
            Some(found) => Some(tool_json(found)),
            None => None,
        }),
    decreases tools.len(),
{
    if tools.len() > 0 {
        law_schema_members(tools.drop_last(), name);
        sorted_map::law_sorted_insert(
            schema_members(tools.drop_last()),
            tools.last().name,
            tool_json(tools.last()),
        );
    }
}

/// The encoded map of tools holds letters, digits and a few signs only: whatever the tools are
/// called and however they are described, nothing in it ends a string or starts an escape.
pub proof fn law_encoded_schemas(tools: Seq<ToolView>)
    ensures
        forall|i: int|
            0 <= i < encoded_schemas(tools).len() ==> base64_text::is_base64_char(
                #[trigger] encoded_schemas(tools)[i],
            ),
        !encoded_schemas(tools).contains('"'),
        !encoded_schemas(tools).contains('\\'),
{
    base64_text::law_base64_alphabet(
        vstd::utf8::encode_utf8(json_text::json_text(JsonView::Object(schema_members(tools)))),
    );
}

/// The help text of the command.
pub open spec fn command_help(config: ConfigView) -> Seq<char> {
    help::top_level_help(
        config.cli_name,
        config.cli_name,
        config.tools,
        None,
        help::help_footer(config.cli_name),
    )
}

/// The line that the command prints when it is called without a subcommand that it knows.
pub open spec fn usage_line(cli_name: Seq<char>) -> Seq<char> {
    "Usage: "@ + cli_name + " <subcommand> [args...]"@
}

/// The client program.
pub open spec fn client_program(config: ConfigView) -> Seq<char> {
    PROGRAM_START@ + json_text::json_string(command_help(config)) + PROGRAM_BRIDGES@
        + json_text::json_text(bridge_map(config)) + PROGRAM_SCHEMAS@ + "\""@ + encoded_schemas(
        config.tools,
    ) + "\""@ + PROGRAM_SUBCOMMANDS@ + json_text::json_text(
        JsonView::Object(subcommand_members(config.tools)),
    ) + PROGRAM_SUBCOMMAND_HELP@ + json_text::json_text(
        JsonView::Object(subcommand_help_members(config.cli_name, config.tools)),
    ) + PROGRAM_FUNCTIONS@ + json_text::json_string(usage_line(config.cli_name)) + PROGRAM_END@
}

/// The client program.
pub fn client_python_body(config: &GeneratorConfig) -> (body: String)
    ensures
        body@ == client_program(config@),
{
    let cli_name = config.cli_name.as_str();
    let top_help = print_json(
        &Json::Text(
            render_top_level_help(cli_name, cli_name, &config.tools, &HelpFraming::shell(cli_name)),
        ),
    );
    let bridges = bridge_map_literal(config);
    let tool_schemas = tool_schema_map_literal(config);
    let ghost views = tool::tool_views(config.tools@);
    let mut subcommand_map = JsonObject::new();
    let mut subcommand_help_map = JsonObject::new();
    let mut i: usize = 0;
    while i < config.tools.len()
        invariant
            0 <= i <= config.tools@.len(),
            cli_name@ == config.cli_name@,
            views == tool::tool_views(config.tools@),
            subcommand_map@ == subcommand_members(views.take(i as int)),
            subcommand_help_map@ == subcommand_help_members(cli_name@, views.take(i as int)),
        decreases config.tools@.len() - i,
    {
        let described = &config.tools[i];
        let subcommand = tool_name_to_subcommand(described.name.as_str());
        subcommand_map.insert(subcommand.clone(), Json::Text(described.name.clone()));
        subcommand_help_map.insert(
            subcommand,
            Json::Text(render_subcommand_help(cli_name, described)),
        );
        proof {
            let longer = views.take(i + 1);
            assert(longer.drop_last() =~= views.take(i as int));
            assert(longer.last() == described@);
        }
        i = i + 1;
    }
    assert(views.take(views.len() as int) =~= views);
    let subcommands = print_json(&Json::Object(subcommand_map));
    let subcommand_help = print_json(&Json::Object(subcommand_help_map));
    let mut usage = String::from_str("Usage: ");
    usage.append(cli_name);
    usage.append(" <subcommand> [args...]");
    let usage_literal = print_json(&Json::Text(usage));

    let mut body = String::from_str(PROGRAM_START);
    body.append(top_help.as_str());
    body.append(PROGRAM_BRIDGES);
    body.append(bridges.as_str());
    body.append(PROGRAM_SCHEMAS);
    body.append("\"");
    body.append(tool_schemas.as_str());
    body.append("\"");
    body.append(PROGRAM_SUBCOMMANDS);
    body.append(subcommands.as_str());
    body.append(PROGRAM_SUBCOMMAND_HELP);
    body.append(subcommand_help.as_str());
    body.append(PROGRAM_FUNCTIONS);
    body.append(usage_literal.as_str());
    body.append(PROGRAM_END);
    body
}

}
