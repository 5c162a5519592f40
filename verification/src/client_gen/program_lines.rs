//! The lines of the client program: what a configuration holds can neither add a line to the program
//! nor end it early in the shell script.

use vstd::prelude::*;

use crate::base64_text;
use crate::cli::help;
use crate::cli::mapping;
use crate::client_gen::generator::ConfigView;
use crate::client_gen::program;
use crate::client_gen::read_back;
use crate::entries;
use crate::json::JsonView;
use crate::json_text;
use crate::text;
use crate::tool::ToolView;

verus! {

/// The lines of a text.
pub open spec fn lines(source: Seq<char>) -> Seq<Seq<char>> {
    text::split(source, '\n')
}

/// The line that ends the program in the shell script.
pub open spec fn end_mark() -> Seq<char> {
    seq!['P', 'Y']
}

/// Whether no line of the text starts with the end mark.
pub open spec fn never_ends(source: Seq<char>) -> bool {
    forall|at: int|
        0 <= at < source.len() - 1 && #[trigger] source[at] == 'P' && source[at + 1] == 'Y' ==> at
            > 0 && source[at - 1] != '\n'
}

/// A text without a capital Y adds no line that starts with the end mark.
proof fn lemma_fixed_text_never_ends(start: Seq<char>, fixed: Seq<char>)
    requires
        never_ends(start),
        !fixed.contains('Y'),
    ensures
        never_ends(start + fixed),
{
    let whole = start + fixed;
    assert forall|at: int|
        0 <= at < whole.len() - 1 && #[trigger] whole[at] == 'P' && whole[at + 1]
            == 'Y' implies at > 0 && whole[at - 1] != '\n' by {
        if at + 1 >= start.len() {
            assert(fixed.contains(fixed[at + 1 - start.len()]));
        } else {
            assert(start[at] == 'P');
        }
    }
}

/// A text without line breaks, inside a line, adds no line.
proof fn lemma_inserted_text_never_ends(start: Seq<char>, inserted: Seq<char>)
    requires
        never_ends(start),
        start.len() > 0,
        start.last() != '\n',
        start.last() != 'P',
        json_text::no_control(inserted),
    ensures
        never_ends(start + inserted),
{
    let whole = start + inserted;
    assert forall|at: int|
        0 <= at < whole.len() - 1 && #[trigger] whole[at] == 'P' && whole[at + 1]
            == 'Y' implies at > 0 && whole[at - 1] != '\n' by {
        if at + 1 < start.len() {
            assert(start[at] == 'P');
        } else if at > start.len() {
            assert(inserted[at - 1 - start.len()] as nat >= 32);
        }
    }
}

/// Whether the members are texts under distinct keys.
spec fn all_texts(members: Seq<(Seq<char>, JsonView)>) -> bool {
    &&& entries::distinct_keys(members)
    &&& forall|i: int| 0 <= i < members.len() ==> (#[trigger] members[i]).1 is Text
}

/// Putting a text among texts gives texts.
proof fn lemma_put_text(members: Seq<(Seq<char>, JsonView)>, key: Seq<char>, value: JsonView)
    requires
        all_texts(members),
        value is Text,
    ensures
        all_texts(entries::put(members, key, value)),
{
    let result = entries::put(members, key, value);
    entries::law_put(members, key, value);
    assert forall|i: int| 0 <= i < result.len() implies (#[trigger] result[i]).1 is Text by {
        if result[i] != (key, value) {
            let j = members.index_of(result[i]);
            assert(members[j].1 is Text);
        }
    }
}

/// The maps of subcommands hold texts.
proof fn lemma_subcommands_are_texts(cli_name: Seq<char>, tools: Seq<ToolView>)
    ensures
        all_texts(program::subcommand_members(tools)),
        all_texts(program::subcommand_help_members(cli_name, tools)),
    decreases tools.len(),
{
    if tools.len() > 0 {
        let earlier = tools.drop_last();
        let last = tools.last();
        lemma_subcommands_are_texts(cli_name, earlier);
        lemma_put_text(
            program::subcommand_members(earlier),
            mapping::kebab_case(last.name),
            JsonView::Text(last.name),
        );
        lemma_put_text(
            program::subcommand_help_members(cli_name, earlier),
            mapping::kebab_case(last.name),
            JsonView::Text(help::subcommand_help(cli_name, last)),
        );
    }
}

/// The text of a map of texts stands on one line.
proof fn lemma_texts_on_one_line(members: Seq<(Seq<char>, JsonView)>)
    requires
        all_texts(members),
    ensures
        json_text::no_control(json_text::json_text(JsonView::Object(members))),
{
    let value = JsonView::Object(members);
    assert forall|i: int| 0 <= i < members.len() implies json_text::plain(
        (#[trigger] members[i]).1,
        0,
    ) by {
        assert(members[i].1 is Text);
    }
    assert(json_text::plain(value, 1));
    json_text::law_json_text_on_one_line(value, 1);
}

/// What a configuration puts into the program stands on one line each time.
pub proof fn lemma_inserted_texts(config: ConfigView)
    ensures
        json_text::no_control(json_text::json_string(program::command_help(config))),
        json_text::no_control(json_text::json_text(program::bridge_map(config))),
        json_text::no_control(program::encoded_schemas(config.tools)),
        json_text::no_control(
            json_text::json_text(JsonView::Object(program::subcommand_members(config.tools))),
        ),
        json_text::no_control(
            json_text::json_text(
                JsonView::Object(program::subcommand_help_members(config.cli_name, config.tools)),
            ),
        ),
        json_text::no_control(json_text::json_string(program::usage_line(config.cli_name))),
{
    json_text::lemma_escape_no_control(program::command_help(config));
    json_text::lemma_escape_no_control(program::usage_line(config.cli_name));
    read_back::law_bridges_read_back(config);
    json_text::law_json_text_on_one_line(program::bridge_map(config), 127);
    lemma_subcommands_are_texts(config.cli_name, config.tools);
    lemma_texts_on_one_line(program::subcommand_members(config.tools));
    lemma_texts_on_one_line(program::subcommand_help_members(config.cli_name, config.tools));
    let encoded = program::encoded_schemas(config.tools);
    program::law_encoded_schemas(config.tools);
    assert forall|i: int| 0 <= i < encoded.len() implies (#[trigger] encoded[i] as nat) >= 32 by {
        assert(base64_text::is_base64_char(encoded[i]));
    }
}

/// The number of lines of `start` with `inserted` in its last line.
proof fn lemma_inserted_line(start: Seq<char>, inserted: Seq<char>)
    requires
        json_text::no_control(inserted),
    ensures
        lines(start + inserted).len() == lines(start).len(),
{
    assert(!inserted.contains('\n'));
    text::lemma_split_len_of_sum(start, inserted, '\n');
    text::lemma_split_one(inserted, '\n');
}

/// The number of lines of every client program.
pub open spec fn line_count() -> int {
    lines(program::PROGRAM_START@).len() + lines(program::PROGRAM_BRIDGES@).len() + lines(
        program::PROGRAM_SCHEMAS@,
    ).len() + lines("\""@).len() + lines("\""@).len() + lines(program::PROGRAM_SUBCOMMANDS@).len()
        + lines(program::PROGRAM_SUBCOMMAND_HELP@).len() + lines(program::PROGRAM_FUNCTIONS@).len()
        + lines(program::PROGRAM_END@).len() - 8
}

/// All client programs have the same number of lines.
pub proof fn law_program_line_count(config: ConfigView)
    ensures
        lines(program::client_program(config)).len() == line_count(),
{
    lemma_inserted_texts(config);
    let quote = "\""@;
    let help = json_text::json_string(program::command_help(config));
    let bridges = json_text::json_text(program::bridge_map(config));
    let schemas = program::encoded_schemas(config.tools);
    let names = json_text::json_text(JsonView::Object(program::subcommand_members(config.tools)));
    let helps = json_text::json_text(
        JsonView::Object(program::subcommand_help_members(config.cli_name, config.tools)),
    );
    let usage = json_text::json_string(program::usage_line(config.cli_name));
    let s0 = program::PROGRAM_START@;
    let s1 = s0 + help + program::PROGRAM_BRIDGES@;
    let s2 = s1 + bridges + program::PROGRAM_SCHEMAS@;
    let s3 = s2 + quote;
    let s4 = s3 + schemas + quote;
    let s5 = s4 + program::PROGRAM_SUBCOMMANDS@;
    let s6 = s5 + names + program::PROGRAM_SUBCOMMAND_HELP@;
    let s7 = s6 + helps + program::PROGRAM_FUNCTIONS@;
    lemma_inserted_line(s0, help);
    text::lemma_split_len_of_sum(s0 + help, program::PROGRAM_BRIDGES@, '\n');
    lemma_inserted_line(s1, bridges);
    text::lemma_split_len_of_sum(s1 + bridges, program::PROGRAM_SCHEMAS@, '\n');
    text::lemma_split_len_of_sum(s2, quote, '\n');
    lemma_inserted_line(s3, schemas);
    text::lemma_split_len_of_sum(s3 + schemas, quote, '\n');
    text::lemma_split_len_of_sum(s4, program::PROGRAM_SUBCOMMANDS@, '\n');
    lemma_inserted_line(s5, names);
    text::lemma_split_len_of_sum(s5 + names, program::PROGRAM_SUBCOMMAND_HELP@, '\n');
    lemma_inserted_line(s6, helps);
    text::lemma_split_len_of_sum(s6 + helps, program::PROGRAM_FUNCTIONS@, '\n');
    lemma_inserted_line(s7, usage);
    text::lemma_split_len_of_sum(s7 + usage, program::PROGRAM_END@, '\n');
}

/// The fixed texts before `PROGRAM_FUNCTIONS` hold no capital Y, and what is inserted behind them
/// stands inside a line.
proof fn lemma_heading_texts()
    ensures
        !program::PROGRAM_START@.contains('Y'),
        program::PROGRAM_START@.len() > 0 && program::PROGRAM_START@.last() == ' ',
        !program::PROGRAM_BRIDGES@.contains('Y'),
        program::PROGRAM_BRIDGES@.len() > 0 && program::PROGRAM_BRIDGES@.last() == ' ',
        !program::PROGRAM_SCHEMAS@.contains('Y'),
        !"\""@.contains('Y'),
        "\""@.len() > 0 && "\""@.last() == '"',
        !program::PROGRAM_SUBCOMMANDS@.contains('Y'),
        program::PROGRAM_SUBCOMMANDS@.len() > 0 && program::PROGRAM_SUBCOMMANDS@.last() == ' ',
        !program::PROGRAM_SUBCOMMAND_HELP@.contains('Y'),
        program::PROGRAM_SUBCOMMAND_HELP@.len() > 0 && program::PROGRAM_SUBCOMMAND_HELP@.last()
            == ' ',
{
    reveal_strlit("\"");
    reveal_strlit("import base64, json, os, sys, urllib.error, urllib.request\n\nTOP_HELP = ");
    reveal_strlit("\n\nBRIDGES = ");
    reveal_strlit("\n\nTOOL_SCHEMAS = json.loads(base64.b64decode(");
    reveal_strlit(").decode(\"utf-8\"))\n\nSUBCOMMANDS = ");
    reveal_strlit("\n\nSUBCOMMAND_HELP = ");
}

/// `PROGRAM_END` holds no capital Y. (A literal is revealed by its text.)
#[verifier::spinoff_prover]
#[verifier::rlimit(40)]
proof fn lemma_end_text()
    ensures
        !program::PROGRAM_END@.contains('Y'),
{
    reveal_strlit(
        r#", file=sys.stderr)
        return 2
    rest = argv[1:]
    if rest and rest[0] in ("--help", "-h", "help"):
        print(SUBCOMMAND_HELP[subcommand])
        return 0
    tool_name = SUBCOMMANDS[subcommand]
    entry = find_bridge()
    if entry is None:
        print("mcp-compressor proxy is not running; restart the mcp-compressor CLI-mode process and try again.", file=sys.stderr)
        return 1
    bridge = entry["bridge"]
    token = entry["token"]
    tool_schema = TOOL_SCHEMAS[tool_name]
    properties = tool_schema.get("inputSchema") or tool_schema.get("input_schema") or {}
    properties = properties.get("properties", {}) if isinstance(properties, dict) else {}
    tool_input = parse_args(rest)
    payload = json.dumps({"tool": tool_name, "input": tool_input}).encode()
    req = urllib.request.Request(
        bridge + "/exec",
        data=payload,
        headers={"Content-Type": "application/json", "Authorization": "Bearer " + token},
        method="POST",
    )
    try:
        with urllib.request.urlopen(req, timeout=30) as resp:
            sys.stdout.write(unwrap_proxy_response(resp.read().decode()))
    except urllib.error.HTTPError as exc:
        message = exc.read().decode(errors="replace") or exc.reason
        print(f"mcp-compressor proxy returned HTTP {exc.code}: {message}", file=sys.stderr)
        return 1
    except urllib.error.URLError as exc:
        print(
            "mcp-compressor proxy is not running; restart the mcp-compressor CLI-mode process and try again.",
            file=sys.stderr,
        )
        print(f"details: {exc.reason}", file=sys.stderr)
        return 1
    return 0

if __name__ == "__main__":
    raise SystemExit(main())
"#,
    );
}

/// `PROGRAM_FUNCTIONS` holds no capital Y and ends inside a line. (A literal is revealed by its
/// text.)
#[verifier::spinoff_prover]
#[verifier::rlimit(80)]
pub proof fn lemma_function_texts()
    ensures
        !program::PROGRAM_FUNCTIONS@.contains('Y'),
        program::PROGRAM_FUNCTIONS@.len() > 0 && program::PROGRAM_FUNCTIONS@[0] == '\n',
        program::PROGRAM_FUNCTIONS@.len() > 0 && program::PROGRAM_FUNCTIONS@.last() == '(',
{
    reveal_strlit(
        r#"

properties = {}

def alive(entry):
    try:
        req = urllib.request.Request(entry["bridge"] + "/health", method="GET")
        with urllib.request.urlopen(req, timeout=1) as resp:
            return resp.status == 200
    except Exception:
        return False

def windows_parent_pid(pid):
    # Read the parent PID from a process snapshot. ctypes defaults kernel32 calls
    # to a 32-bit int return, which truncates the pointer-sized snapshot handle on
    # 64-bit Python and makes the lookup fail, so declare the real arg/return types.
    import ctypes
    from ctypes import wintypes
    TH32CS_SNAPPROCESS = 0x2
    INVALID_HANDLE_VALUE = ctypes.c_void_p(-1).value
    class ProcessEntry(ctypes.Structure):
        _fields_ = [("dwSize", wintypes.DWORD), ("cntUsage", wintypes.DWORD),
                    ("th32ProcessID", wintypes.DWORD),
                    ("th32DefaultHeapID", ctypes.c_void_p),
                    ("th32ModuleID", wintypes.DWORD), ("cntThreads", wintypes.DWORD),
                    ("th32ParentProcessID", wintypes.DWORD),
                    ("pcPriClassBase", ctypes.c_long), ("dwFlags", wintypes.DWORD),
                    ("szExeFile", ctypes.c_char * 260)]
    kernel32 = ctypes.windll.kernel32
    kernel32.CreateToolhelp32Snapshot.restype = wintypes.HANDLE
    kernel32.CreateToolhelp32Snapshot.argtypes = [wintypes.DWORD, wintypes.DWORD]
    kernel32.Process32First.argtypes = [wintypes.HANDLE, ctypes.POINTER(ProcessEntry)]
    kernel32.Process32Next.argtypes = [wintypes.HANDLE, ctypes.POINTER(ProcessEntry)]
    kernel32.CloseHandle.argtypes = [wintypes.HANDLE]
    snapshot = kernel32.CreateToolhelp32Snapshot(TH32CS_SNAPPROCESS, 0)
    # The documented failure return is INVALID_HANDLE_VALUE, not NULL; guard both.
    if snapshot is None or snapshot == INVALID_HANDLE_VALUE:
        return 0
    try:
        entry = ProcessEntry()
        entry.dwSize = ctypes.sizeof(ProcessEntry)
        ok = kernel32.Process32First(snapshot, ctypes.byref(entry))
        while ok:
            if entry.th32ProcessID == pid:
                return entry.th32ParentProcessID
            ok = kernel32.Process32Next(snapshot, ctypes.byref(entry))
        return 0
    finally:
        kernel32.CloseHandle(snapshot)

def unix_parent_pid(pid):
    try:  # Linux: read the parent PID from /proc.
        with open(f"/proc/{pid}/stat", "r", encoding="utf-8") as handle:
            return int(handle.read().rsplit(")", 1)[1].split()[1])
    except Exception:
        pass
    try:  # Other Unix: ask ps.
        import subprocess
        output = subprocess.check_output(["ps", "-o", "ppid=", "-p", str(pid)], text=True)
        return int(output.strip() or "0")
    except Exception:
        return 0

def parent_pid(pid):
    # The walk is shared; this per-OS parent lookup is the only platform-specific
    # part. Dispatch by os.name: Windows has no /proc or ps, and a stray ps on PATH
    # (e.g. Git for Windows) must not be consulted there.
    try:
        return windows_parent_pid(pid) if os.name == "nt" else unix_parent_pid(pid)
    except Exception:
        return 0

def ancestors():
    pid = os.getppid()
    seen = set()
    while pid and pid not in seen:
        seen.add(pid)
        yield str(pid)
        pid = parent_pid(pid)

def find_bridge():
    for pid in ancestors():
        entry = BRIDGES.get(pid)
        if entry and alive(entry):
            return entry
    # Last resort: no ancestor PID matched a known bridge (e.g. the session that
    # launched this client has exited). Return any live bridge so a lone session
    # still works.
    for entry in BRIDGES.values():
        if alive(entry):
            return entry
    return None

def schema_type(schema):
    return schema.get("type") if isinstance(schema, dict) else None

def enum_values(schema):
    if not isinstance(schema, dict):
        return []
    explicit = schema.get("enum")
    if isinstance(explicit, list):
        return [str(value) for value in explicit]
    return []

def canonical_name(value):
    return value.replace("-", "_").replace("_", "").lower()

def flag_to_property(flag):
    raw = flag[2:]
    if raw.startswith("no-"):
        raw = raw[3:]
    if raw in properties:
        return raw
    snake = raw.replace("-", "_")
    if snake in properties:
        return snake
    canonical = canonical_name(raw)
    for prop in properties:
        if canonical_name(prop) == canonical:
            return prop
    return raw

def coerce_value(flag, schema, raw_value, forced_bool=None):
    if forced_bool is not None:
        return forced_bool
    typ = schema_type(schema)
    if typ == "boolean":
        if raw_value is None:
            return True
        if raw_value == "true":
            return True
        if raw_value == "false":
            return False
        raise SystemExit(f"invalid boolean value for {flag}: {raw_value} (expected true or false)")
    if typ == "integer":
        try:
            return int(raw_value)
        except Exception:
            raise SystemExit(f"invalid integer value for {flag}: {raw_value}")
    if typ == "number":
        try:
            return float(raw_value)
        except Exception:
            raise SystemExit(f"invalid number value for {flag}: {raw_value}")
    if typ == "array":
        try:
            parsed = json.loads(raw_value)
            if isinstance(parsed, list):
                return parsed
        except Exception:
            pass
        return coerce_value(flag, schema.get("items", {}), raw_value)
    try:
        return json.loads(raw_value or "")
    except Exception:
        return raw_value or ""

def validate_value(flag, schema, value):
    allowed = enum_values(schema)
    if not allowed:
        return
    values = value if isinstance(value, list) else [value]
    for candidate in values:
        if str(candidate) not in allowed:
            raise SystemExit(
                f"invalid value for {flag}: {candidate} (expected one of: {', '.join(allowed)})"
            )

def insert_value(output, key, schema, value):
    if schema_type(schema) == "array":
        values = value if isinstance(value, list) else [value]
        output.setdefault(key, []).extend(values)
    else:
        output[key] = value

def parse_args(argv):
    if argv and argv[0] == "--json":
        if len(argv) < 2:
            raise SystemExit("--json requires a value")
        if len(argv) > 2:
            raise SystemExit("--json cannot be combined with other arguments")
        return json.loads(argv[1])
    output = {}
    index = 0
    while index < len(argv):
        flag = argv[index]
        if not flag.startswith("--") or flag == "--":
            raise SystemExit(f"unexpected positional argument: {flag}")
        prop = flag_to_property(flag)
        if prop not in properties:
            raise SystemExit(f"unknown flag: {flag}")
        schema = properties[prop]
        typ = schema_type(schema)
        forced_bool = False if flag.startswith("--no-") else None
        if forced_bool is False:
            if typ != "boolean":
                raise SystemExit(f"{flag} can only be used with boolean properties")
            raw_value = None
            consumed = 1
        elif typ == "boolean":
            if index + 1 < len(argv) and not argv[index + 1].startswith("--"):
                raw_value = argv[index + 1]
                consumed = 2
            else:
                raw_value = None
                consumed = 1
        else:
            if index + 1 >= len(argv) or argv[index + 1].startswith("--"):
                raise SystemExit(f"{flag} requires a value")
            raw_value = argv[index + 1]
            consumed = 2
        value = coerce_value(flag, schema, raw_value, forced_bool)
        validate_value(flag, schema, value)
        insert_value(output, prop, schema, value)
        index += consumed
    return output

def unwrap_proxy_response(body):
    try:
        parsed = json.loads(body)
    except Exception:
        return body
    if isinstance(parsed, dict) and set(parsed.keys()) == {"result"}:
        result = parsed["result"]
        return result if isinstance(result, str) else json.dumps(result, separators=(",", ":"))
    return body

def main():
    global properties
    argv = sys.argv[1:]
    if not argv or argv[0] in ("--help", "-h", "help"):
        print(TOP_HELP)
        return 0
    subcommand = argv[0]
    if subcommand not in SUBCOMMANDS:
        print("#,
    );
}

/// No line of a client program starts with the end mark.
proof fn lemma_program_never_ends(config: ConfigView)
    ensures
        never_ends(program::client_program(config)),
{
    lemma_inserted_texts(config);
    lemma_heading_texts();
    lemma_function_texts();
    lemma_end_text();
    let quote = "\""@;
    let help = json_text::json_string(program::command_help(config));
    let bridges = json_text::json_text(program::bridge_map(config));
    let schemas = program::encoded_schemas(config.tools);
    let names = json_text::json_text(JsonView::Object(program::subcommand_members(config.tools)));
    let helps = json_text::json_text(
        JsonView::Object(program::subcommand_help_members(config.cli_name, config.tools)),
    );
    let usage = json_text::json_string(program::usage_line(config.cli_name));
    let s0 = program::PROGRAM_START@;
    let s1 = s0 + help + program::PROGRAM_BRIDGES@;
    let s2 = s1 + bridges + program::PROGRAM_SCHEMAS@;
    let s3 = s2 + quote;
    let s4 = s3 + schemas + quote;
    let s5 = s4 + program::PROGRAM_SUBCOMMANDS@;
    let s6 = s5 + names + program::PROGRAM_SUBCOMMAND_HELP@;
    let s7 = s6 + helps + program::PROGRAM_FUNCTIONS@;
    lemma_fixed_text_never_ends(Seq::empty(), s0);
    assert(Seq::empty() + s0 =~= s0);
    lemma_inserted_text_never_ends(s0, help);
    lemma_fixed_text_never_ends(s0 + help, program::PROGRAM_BRIDGES@);
    assert(s1.last() == ' ');
    lemma_inserted_text_never_ends(s1, bridges);
    lemma_fixed_text_never_ends(s1 + bridges, program::PROGRAM_SCHEMAS@);
    lemma_fixed_text_never_ends(s2, quote);
    assert(s3.last() == '"');
    lemma_inserted_text_never_ends(s3, schemas);
    lemma_fixed_text_never_ends(s3 + schemas, quote);
    lemma_fixed_text_never_ends(s4, program::PROGRAM_SUBCOMMANDS@);
    assert(s5.last() == ' ');
    lemma_inserted_text_never_ends(s5, names);
    lemma_fixed_text_never_ends(s5 + names, program::PROGRAM_SUBCOMMAND_HELP@);
    assert(s6.last() == ' ');
    lemma_inserted_text_never_ends(s6, helps);
    lemma_fixed_text_never_ends(s6 + helps, program::PROGRAM_FUNCTIONS@);
    assert(s7.last() == '(');
    lemma_inserted_text_never_ends(s7, usage);
    lemma_fixed_text_never_ends(s7 + usage, program::PROGRAM_END@);
}

/// Whatever two configurations hold, their programs have the same number of lines, and no line of
/// a program is the one that ends it in the shell script.
pub proof fn law_program_lines(left: ConfigView, right: ConfigView)
    ensures
        lines(program::client_program(left)).len() == lines(program::client_program(right)).len(),
        !lines(program::client_program(left)).contains(end_mark()),
        !lines(program::client_program(right)).contains(end_mark()),
{
    law_program_line_count(left);
    law_program_line_count(right);
    lemma_no_end_line(left);
    lemma_no_end_line(right);
}

/// No line of a client program is the end mark.
proof fn lemma_no_end_line(config: ConfigView)
    ensures
        !lines(program::client_program(config)).contains(end_mark()),
{
    let source = program::client_program(config);
    lemma_program_never_ends(config);
    if lines(source).contains(end_mark()) {
        let i = lines(source).index_of(end_mark());
        let at = text::lemma_part_stands(source, '\n', i);
        let found = source.subrange(at, at + 2);
        assert(found[0] == source[at] && found[1] == source[at + 1]);
        assert(source[at] == 'P');
    }
}

/// The program up to the text before the map of bridges.
pub open spec fn before_bridges(config: ConfigView) -> Seq<char> {
    program::PROGRAM_START@ + json_text::json_string(program::command_help(config))
}

/// The program up to the text before the encoded map of tools.
pub open spec fn before_schemas(config: ConfigView) -> Seq<char> {
    before_bridges(config) + program::PROGRAM_BRIDGES@ + json_text::json_text(
        program::bridge_map(config),
    )
}

/// The program up to the text before the map of subcommands.
pub open spec fn before_subcommands(config: ConfigView) -> Seq<char> {
    before_schemas(config) + program::PROGRAM_SCHEMAS@ + "\""@ + program::encoded_schemas(
        config.tools,
    ) + "\""@
}

/// The program up to the text before the help on the subcommands.
pub open spec fn before_subcommand_help(config: ConfigView) -> Seq<char> {
    before_subcommands(config) + program::PROGRAM_SUBCOMMANDS@ + json_text::json_text(
        JsonView::Object(program::subcommand_members(config.tools)),
    )
}

/// The program up to the usage line.
pub open spec fn before_usage(config: ConfigView) -> Seq<char> {
    before_subcommand_help(config) + program::PROGRAM_SUBCOMMAND_HELP@ + json_text::json_text(
        JsonView::Object(program::subcommand_help_members(config.cli_name, config.tools)),
    ) + program::PROGRAM_FUNCTIONS@
}

/// The program behind the functions that follow the help on the subcommands.
pub open spec fn after_subcommand_help(config: ConfigView) -> Seq<char> {
    json_text::json_string(program::usage_line(config.cli_name)) + program::PROGRAM_END@
}

/// The program behind the text that follows the map of subcommands.
pub open spec fn after_subcommands(config: ConfigView) -> Seq<char> {
    json_text::json_text(
        JsonView::Object(program::subcommand_help_members(config.cli_name, config.tools)),
    ) + (program::PROGRAM_FUNCTIONS@ + after_subcommand_help(config))
}

/// The program behind the text that follows the encoded map of tools.
pub open spec fn after_schemas(config: ConfigView) -> Seq<char> {
    json_text::json_text(JsonView::Object(program::subcommand_members(config.tools))) + (
    program::PROGRAM_SUBCOMMAND_HELP@ + after_subcommands(config))
}

/// The program behind the text that follows the map of bridges.
pub open spec fn after_bridges(config: ConfigView) -> Seq<char> {
    "\""@ + program::encoded_schemas(config.tools) + ("\""@ + program::PROGRAM_SUBCOMMANDS@
        + after_schemas(config))
}

/// The program behind the text that follows the help.
pub open spec fn after_help(config: ConfigView) -> Seq<char> {
    json_text::json_text(program::bridge_map(config)) + (program::PROGRAM_SCHEMAS@ + after_bridges(
        config,
    ))
}

/// The program in two parts, around each text that is inserted into it.
pub proof fn lemma_parts(config: ConfigView)
    ensures
        ({
            let whole = program::client_program(config);
            &&& whole == before_usage(config) + json_text::json_string(
                program::usage_line(config.cli_name),
            ) + program::PROGRAM_END@
            &&& whole == before_subcommand_help(config) + program::PROGRAM_SUBCOMMAND_HELP@
                + json_text::json_text(
                JsonView::Object(program::subcommand_help_members(config.cli_name, config.tools)),
            ) + program::PROGRAM_FUNCTIONS@ + after_subcommand_help(config)
            &&& whole == before_subcommands(config) + program::PROGRAM_SUBCOMMANDS@
                + json_text::json_text(
                JsonView::Object(program::subcommand_members(config.tools)),
            ) + program::PROGRAM_SUBCOMMAND_HELP@ + after_subcommands(config)
            &&& whole == before_schemas(config) + program::PROGRAM_SCHEMAS@ + "\""@
                + program::encoded_schemas(config.tools) + "\""@ + program::PROGRAM_SUBCOMMANDS@
                + after_schemas(config)
            &&& whole == before_bridges(config) + program::PROGRAM_BRIDGES@ + json_text::json_text(
                program::bridge_map(config),
            ) + program::PROGRAM_SCHEMAS@ + after_bridges(config)
            &&& whole == program::PROGRAM_START@ + json_text::json_string(
                program::command_help(config),
            ) + program::PROGRAM_BRIDGES@ + after_help(config)
        }),
{
    let quote = "\""@;
    let bridges = json_text::json_text(program::bridge_map(config));
    let schemas = program::encoded_schemas(config.tools);
    let names = json_text::json_text(JsonView::Object(program::subcommand_members(config.tools)));
    let helps = json_text::json_text(
        JsonView::Object(program::subcommand_help_members(config.cli_name, config.tools)),
    );
    let usage = json_text::json_string(program::usage_line(config.cli_name));
    let s3 = before_subcommand_help(config);
    lemma_regroup(s3 + program::PROGRAM_SUBCOMMAND_HELP@ + helps + program::PROGRAM_FUNCTIONS@, usage, program::PROGRAM_END@);
    let s2 = before_subcommands(config);
    let t2 = s2 + program::PROGRAM_SUBCOMMANDS@ + names + program::PROGRAM_SUBCOMMAND_HELP@;
    lemma_regroup(t2 + helps, program::PROGRAM_FUNCTIONS@, after_subcommand_help(config));
    lemma_regroup(t2, helps, program::PROGRAM_FUNCTIONS@ + after_subcommand_help(config));
    let s1 = before_schemas(config);
    let t1 = s1 + program::PROGRAM_SCHEMAS@ + quote + schemas + quote + program::PROGRAM_SUBCOMMANDS@;
    lemma_regroup(t1 + names, program::PROGRAM_SUBCOMMAND_HELP@, after_subcommands(config));
    lemma_regroup(t1, names, program::PROGRAM_SUBCOMMAND_HELP@ + after_subcommands(config));
    let s0 = before_bridges(config);
    let t0 = s0 + program::PROGRAM_BRIDGES@ + bridges + program::PROGRAM_SCHEMAS@;
    lemma_regroup(t0 + quote + schemas + quote, program::PROGRAM_SUBCOMMANDS@, after_schemas(config));
    lemma_regroup(t0 + quote + schemas, quote, program::PROGRAM_SUBCOMMANDS@ + after_schemas(config));
    lemma_regroup(quote, program::PROGRAM_SUBCOMMANDS@, after_schemas(config));
    let rest = quote + program::PROGRAM_SUBCOMMANDS@ + after_schemas(config);
    lemma_regroup(t0 + quote, schemas, rest);
    lemma_regroup(t0, quote, schemas + rest);
    lemma_regroup(quote, schemas, rest);
    let start = s0 + program::PROGRAM_BRIDGES@;
    lemma_regroup(start + bridges, program::PROGRAM_SCHEMAS@, after_bridges(config));
    lemma_regroup(start, bridges, program::PROGRAM_SCHEMAS@ + after_bridges(config));
}

/// Joining texts is associative.
proof fn lemma_regroup(first: Seq<char>, second: Seq<char>, third: Seq<char>)
    ensures
        first + second + third == first + (second + third),
{
    assert(first + second + third =~= first + (second + third));
}

}
