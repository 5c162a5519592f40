//! The command-line client of a live session: a shell script and, on Windows, a batch file.
//!
//! Both run one Python program. The shell script hands it to `python3`; the batch file is a
//! Python program too, and runs `python` on itself. The program holds the map of the bridges of
//! all sessions that share the name of the command, and the scripts of earlier sessions are read
//! back to find them.

use vstd::prelude::*;

use crate::client_gen::generator;
use crate::client_gen::generator::{
    ArtifactView, BridgeView, CliBridgeEntry, ClientGenerator, ConfigView, GeneratedArtifact,
    GeneratorConfig, GeneratorError,
};
use crate::client_gen::program;
use crate::client_gen::program::client_python_body;
use crate::client_gen::read_back;
use crate::decimal;
use crate::decimal::parsed_decimal;
use crate::json;
use crate::json::{Json, JsonView};
use crate::json_text;
use crate::json_text::parse_json;
use crate::platform::Platform;
use crate::text;

verus! {

/// The start of the shell script: it hands what follows to `python3`.
pub const SHELL_START: &'static str = "#!/usr/bin/env sh\n# generated by mcp-compressor -- do not edit manually\nexec python3 - \"$@\" <<'PY'\n";

/// The end of the shell script.
pub const SHELL_END: &'static str = "\nPY\n";

/// The start of the batch file: batch commands that run `python` on the file itself. To Python,
/// which skips the first line, they are a string.
pub const BATCH_START: &'static str = "@echo off\nREM = r'''\npython -x \"%~f0\" %*\nexit /b %errorlevel%\n'''\n";

/// The shell script of a client.
pub open spec fn unix_script(config: ConfigView) -> Seq<char> {
    SHELL_START@ + program::client_program(config) + SHELL_END@
}

/// The batch file of a client.
pub open spec fn windows_cmd(config: ConfigView) -> Seq<char> {
    BATCH_START@ + program::client_program(config)
}

/// Whether the text is a script of a client.
pub open spec fn is_script_of(script: Seq<char>, config: ConfigView) -> bool {
    script == unix_script(config) || script == windows_cmd(config)
}

/// The shell script of a client.
pub fn render_unix_script(config: &GeneratorConfig) -> (script: String)
    ensures
        script@ == unix_script(config@),
{
    let mut script = String::from_str(SHELL_START);
    script.append(client_python_body(config).as_str());
    script.append(SHELL_END);
    script
}

/// The batch file of a client.
pub fn render_windows_cmd(config: &GeneratorConfig) -> (script: String)
    ensures
        script@ == windows_cmd(config@),
{
    let mut script = String::from_str(BATCH_START);
    script.append(client_python_body(config).as_str());
    script
}

/// The files of a client: the shell script under the name of the command and, on Windows, the
/// batch file.
pub open spec fn cli_artifacts(platform: Platform, config: ConfigView) -> Seq<ArtifactView> {
    let script = ArtifactView {
        file_name: config.cli_name,
        contents: unix_script(config),
        executable: true,
    };
    match platform {
        Platform::Unix => seq![script],
        Platform::Windows => seq![
            script,
            ArtifactView {
                file_name: config.cli_name + ".cmd"@,
                contents: windows_cmd(config),
                executable: false,
            },
        ],
    }
}

/// The files of a client on a platform.
pub fn render_cli_artifacts(config: &GeneratorConfig, platform: Platform) -> (artifacts: Vec<
    GeneratedArtifact,
>)
    ensures
        generator::artifact_views(artifacts@) == cli_artifacts(platform, config@),
{
    let script = GeneratedArtifact::new(
        config.cli_name.as_str(),
        render_unix_script(config),
    ).executable();
    let mut artifacts: Vec<GeneratedArtifact> = Vec::new();
    artifacts.push(script);
    match platform {
        Platform::Unix => {},
        Platform::Windows => {
            let mut file_name = config.cli_name.clone();
            file_name.append(".cmd");
            artifacts.push(GeneratedArtifact::new(file_name.as_str(), render_windows_cmd(config)));
        },
    }
    assert(generator::artifact_views(artifacts@) =~= cli_artifacts(platform, config@));
    artifacts
}

/// The generator of command-line clients for a platform.
#[derive(Debug, Clone, Copy, PartialEq, Eq, Structural)]
pub struct CliGenerator {
    pub platform: Platform,
}

impl ClientGenerator for CliGenerator {
    fn render(&self, config: &GeneratorConfig) -> (rendered: Result<
        Vec<GeneratedArtifact>,
        GeneratorError,
    >)
        ensures
            rendered matches Ok(artifacts) && generator::artifact_views(artifacts@)
                == cli_artifacts(self.platform, config@),
    {
        Ok(render_cli_artifacts(config, self.platform))
    }
}

/// The line without a carriage return at its end.
pub open spec fn without_return(line: Seq<char>) -> Seq<char> {
    if line.len() > 0 && line.last() == '\r' {
        line.drop_last()
    } else {
        line
    }
}

/// Whether the line holds the map of bridges.
pub open spec fn is_bridge_line(line: Seq<char>) -> bool {
    text::starts_with(text::trim_start(line), "BRIDGES = "@)
}

/// The first line of a script that holds the map of bridges. A line ends at a line break, before
/// which a carriage return may stand; the last line needs none.
pub open spec fn bridge_line(script: Seq<char>) -> Option<Seq<char>>
    decreases script.len(),
    via bridge_line_ends
{
    let head = text::before(script, '\n');
    if script.len() == 0 {
        None
    } else if head.len() == script.len() {
        if is_bridge_line(head) {
            Some(head)
        } else {
            None
        }
    } else if is_bridge_line(without_return(head)) {
        Some(without_return(head))
    } else {
        bridge_line(script.skip(head.len() as int + 1))
    }
}

#[via_fn]
proof fn bridge_line_ends(script: Seq<char>) {
    text::lemma_before(script, '\n');
}

/// What stands behind the first equals sign, if there is one.
pub open spec fn after_equals(line: Seq<char>) -> Option<Seq<char>>
    decreases line.len(),
{
    if line.len() == 0 {
        None
    } else if line[0] == '=' {
        Some(line.skip(1))
    } else {
        after_equals(line.skip(1))
    }
}

/// The text that a script holds for the map of bridges.
pub open spec fn bridge_source(script: Seq<char>) -> Option<Seq<char>> {
    match bridge_line(script) {
        Some(line) => match after_equals(line) {
            Some(value) => Some(text::trim(value)),
            None => None,
        },
        None => None,
    }
}

/// The bridge that a member of the map of bridges stands for: its key is the process number of
/// the session, and it holds an address and a token.
pub open spec fn bridge_of(member: (Seq<char>, JsonView)) -> Option<BridgeView> {
    match (
        decimal::parse_decimal(member.0),
        member.1.get_text("bridge"@),
        member.1.get_text("token"@),
    ) {
        (Some(session_pid), Some(bridge_url), Some(token)) => Some(
            BridgeView { session_pid, bridge_url, token },
        ),
        _ => None,
    }
}

/// The bridges that members of a map stand for; members that stand for none are passed over.
pub open spec fn bridges_of(members: Seq<(Seq<char>, JsonView)>) -> Seq<BridgeView>
    decreases members.len(),
{
    if members.len() == 0 {
        Seq::empty()
    } else {
        let earlier = bridges_of(members.drop_last());
        match bridge_of(members.last()) {
            Some(entry) => earlier.push(entry),
            None => earlier,
        }
    }
}

/// The bridges that a map of bridges holds; none if the value is no map.
pub open spec fn bridges_in(value: JsonView) -> Seq<BridgeView> {
    match value {
        JsonView::Object(members) => bridges_of(members),
        _ => Seq::empty(),
    }
}

/// The bridges that a script records.
pub open spec fn recorded_bridges(script: Seq<char>) -> Seq<BridgeView> {
    match bridge_source(script) {
        Some(source) => match json_text::parse_result(source) {
            Some(value) => bridges_in(value),
            None => Seq::empty(),
        },
        None => Seq::empty(),
    }
}

/// The text that a script holds for the map of bridges.
pub fn find_bridge_source(script: &str) -> (source: Option<String>)
    ensures
        bridge_source(script@) == (match source {
            Some(found) => Some(found@),
            None => None,
        }),
{
    let chars = text::chars_of(script);
    let mut from: usize = 0;
    assert(chars@.skip(0) =~= script@);
    while from < chars.len()
        invariant
            from <= chars@.len(),
            bridge_line(chars@.skip(from as int)) == bridge_line(script@),
        decreases chars@.len() - from,
    {
        let ghost rest = chars@.skip(from as int);
        let stop: usize = text::position_of(&chars, from, '\n');
        let end: usize = if stop < chars.len() && from < stop && chars[stop - 1] == '\r' {
            stop - 1
        } else {
            stop
        };
        let line = text::chars_of(text::string_of(&chars, from, end).as_str());
        let ghost head = text::before(rest, '\n');
        proof {
            text::lemma_before(rest, '\n');
            assert(head.len() == stop - from);
            if stop < chars@.len() {
                if from < stop {
                    assert(head.last() == chars@[stop - 1]);
                }
                assert(line@ =~= without_return(head));
            } else {
                assert(line@ =~= head);
            }
        }
        let start: usize = text::start_of_trimmed(&line, 0, line.len());
        assert(line@.subrange(0, line@.len() as int) =~= line@);
        assert(line@.subrange(start as int, line@.len() as int) =~= line@.skip(start as int));
        if text::prefix_at(&line, start, "BRIDGES = ") {
            return source_in_line(&line);
        }
        if stop >= chars.len() {
            return None;
        }
        assert(rest.skip(head.len() as int + 1) =~= chars@.skip(stop + 1));
        from = stop + 1;
    }
    assert(chars@.skip(from as int).len() == 0);
    None
}

/// What stands behind the first equals sign of a line, without white space around it.
fn source_in_line(line: &Vec<char>) -> (source: Option<String>)
    ensures
        match source {
            Some(found) => after_equals(line@) matches Some(value) && found@ == text::trim(value),
            None => after_equals(line@) is None,
        },
{
    let mut i: usize = 0;
    assert(line@.skip(0) =~= line@);
    while i < line.len() && line[i] != '='
        invariant
            i <= line@.len(),
            after_equals(line@.skip(i as int)) == after_equals(line@),
        decreases line@.len() - i,
    {
        assert(line@.skip(i as int).skip(1) =~= line@.skip(i + 1));
        i = i + 1;
    }
    if i == line.len() {
        return None;
    }
    assert(line@.skip(i as int).skip(1) =~= line@.skip(i + 1));
    let value = text::string_of(line, i + 1, line.len());
    assert(value@ =~= line@.skip(i + 1));
    Some(text::trimmed(value.as_str()))
}

/// The bridges that a map of bridges holds.
pub fn bridge_entries_in(value: &Json) -> (entries: Vec<CliBridgeEntry>)
    ensures
        generator::bridge_views(entries@) == bridges_in(value@),
{
    let mut entries: Vec<CliBridgeEntry> = Vec::new();
    match value {
        Json::Object(object) => {
            let members = object.members();
            let mut i: usize = 0;
            assert(generator::bridge_views(entries@) =~= bridges_of(object@.take(0)));
            while i < members.len()
                invariant
                    0 <= i <= members@.len(),
                    json::member_views(members@) == object@,
                    generator::bridge_views(entries@) == bridges_of(object@.take(i as int)),
                decreases members@.len() - i,
            {
                let key = members[i].0.as_str();
                let entry = &members[i].1;
                let ghost above = entries@;
                proof {
                    let longer = object@.take(i + 1);
                    assert(longer.drop_last() =~= object@.take(i as int));
                    assert(longer.last() == (key@, entry@));
                }
                let parsed: Option<u32> = parsed_decimal(key);
                match (parsed, entry.get_text("bridge"), entry.get_text("token")) {
                    (Some(session_pid), Some(bridge_url), Some(token)) => {
                        entries.push(
                            CliBridgeEntry {
                                session_pid,
                                bridge_url: bridge_url.clone(),
                                token: token.clone(),
                            },
                        );
                        assert(generator::bridge_views(entries@) =~= generator::bridge_views(
                            above,
                        ).push(bridge_of((key@, entry@))->Some_0));
                    },
                    _ => {},
                }
                i = i + 1;
            }
            assert(object@.take(object@.len() as int) =~= object@);
        },
        _ => {
            assert(generator::bridge_views(entries@) =~= Seq::empty());
        },
    }
    entries
}

/// The bridges that a script records. Of the scripts of a client these are the bridges that the
/// client knows, the last of each session.
pub fn recorded_bridge_entries(script: &str) -> (entries: Vec<CliBridgeEntry>)
    ensures
        generator::bridge_views(entries@) == recorded_bridges(script@),
        forall|config: ConfigView|
            #[trigger] is_script_of(script@, config) ==> generator::bridge_views(entries@)
                == read_back::latest_bridges(program::known_bridges(config)),
{
    let none: Vec<CliBridgeEntry> = Vec::new();
    assert(generator::bridge_views(none@) =~= Seq::empty());
    match find_bridge_source(script) {
        Some(source) => {
            let parsed = parse_json(source.as_str());
            proof {
                assert forall|config: ConfigView|
                    #[trigger] is_script_of(script@, config) implies recorded_bridges(script@)
                    == read_back::latest_bridges(program::known_bridges(config)) by {
                    read_back::lemma_source_in_scripts(config);
                    read_back::law_bridges_read_back(config);
                    assert(json_text::plain(program::bridge_map(config), 127) && source@
                        == json_text::json_text(program::bridge_map(config)));
                }
            }
            match parsed {
                Some(value) => bridge_entries_in(&value),
                None => none,
            }
        },
        None => {
            proof {
                assert forall|config: ConfigView| !#[trigger] is_script_of(script@, config) by {
                    read_back::lemma_source_in_scripts(config);
                }
            }
            none
        },
    }
}

/// The host and port of a bridge: what stands before the first slash behind the scheme `http`,
/// which is the only one that a bridge speaks.
pub open spec fn bridge_address(bridge_url: Seq<char>) -> Option<Seq<char>> {
    if text::starts_with(bridge_url, "http://"@) {
        Some(text::before(bridge_url.skip(7), '/'))
    } else {
        None
    }
}

/// The host and port of a bridge.
pub fn address_of_bridge(bridge_url: &str) -> (address: Option<String>)
    ensures
        bridge_address(bridge_url@) == (match address {
            Some(found) => Some(found@),
            None => None,
        }),
{
    let chars = text::chars_of(bridge_url);
    assert(chars@.skip(0) =~= bridge_url@);
    if !text::prefix_at(&chars, 0, "http://") {
        return None;
    }
    proof {
        reveal_strlit("http://");
    }
    let end: usize = text::position_of(&chars, 7, '/');
    Some(text::string_of(&chars, 7, end))
}

/// Whether `live` is what an attempt to connect says of a bridge: without an address the bridge
/// is not live, and no attempt is made.
pub open spec fn is_liveness<F: Fn(&str) -> bool>(
    connect: F,
    bridge_url: Seq<char>,
    live: bool,
) -> bool {
    match bridge_address(bridge_url) {
        Some(address) => exists|tried: &str|
            tried@ == address && call_ensures(connect, (tried,), live),
        None => !live,
    }
}

/// Whether a bridge is live: `connect` tells whether a connection to a host and port succeeds.
pub fn bridge_is_live<F: Fn(&str) -> bool>(bridge_url: &str, connect: &F) -> (live: bool)
    requires
        forall|address: &str| call_requires(*connect, (address,)),
    ensures
        is_liveness(*connect, bridge_url@, live),
{
    match address_of_bridge(bridge_url) {
        Some(address) => {
            let tried = address.as_str();
            let live = connect(tried);
            assert(tried@ == address@ && call_ensures(*connect, (tried,), live));
            live
        },
        None => false,
    }
}

/// The bridges that are live.
pub open spec fn live_bridges(bridges: Seq<BridgeView>, live: Seq<bool>) -> Seq<BridgeView>
    decreases bridges.len(),
{
    if bridges.len() == 0 {
        Seq::empty()
    } else {
        let earlier = live_bridges(bridges.drop_last(), live);
        if live[bridges.len() - 1] {
            earlier.push(bridges.last())
        } else {
            earlier
        }
    }
}

/// The live bridges that a script records, in order.
pub fn read_live_bridge_entries<F: Fn(&str) -> bool>(script: &str, connect: &F) -> (entries: Vec<
    CliBridgeEntry,
>)
    requires
        forall|address: &str| call_requires(*connect, (address,)),
    ensures
        exists|live: Seq<bool>|
            {
                &&& live.len() == recorded_bridges(script@).len()
                &&& forall|i: int|
                    0 <= i < live.len() ==> is_liveness(
                        *connect,
                        recorded_bridges(script@)[i].bridge_url,
                        #[trigger] live[i],
                    )
                &&& generator::bridge_views(entries@) == #[trigger] live_bridges(
                    recorded_bridges(script@),
                    live,
                )
            },
        forall|config: ConfigView|
            #[trigger] is_script_of(script@, config) ==> recorded_bridges(script@)
                == read_back::latest_bridges(program::known_bridges(config)),
{
    let recorded = recorded_bridge_entries(script);
    let ghost bridges = generator::bridge_views(recorded@);
    let ghost mut live: Seq<bool> = Seq::empty();
    let mut entries: Vec<CliBridgeEntry> = Vec::new();
    assert(generator::bridge_views(entries@) =~= Seq::empty());
    let mut i: usize = 0;
    while i < recorded.len()
        invariant
            0 <= i <= recorded@.len(),
            live.len() == i,
            bridges == generator::bridge_views(recorded@),
            forall|address: &str| call_requires(*connect, (address,)),
            forall|j: int|
                0 <= j < i ==> is_liveness(*connect, bridges[j].bridge_url, #[trigger] live[j]),
            generator::bridge_views(entries@) == live_bridges(bridges.take(i as int), live),
        decreases recorded@.len() - i,
    {
        let entry = &recorded[i];
        let alive: bool = bridge_is_live(entry.bridge_url.as_str(), connect);
        let ghost above = entries@;
        proof {
            let longer = bridges.take(i + 1);
            assert(longer.drop_last() =~= bridges.take(i as int));
            assert(longer.last() == entry@);
            lemma_live_bridges(bridges.take(i as int), live, live.push(alive));
            live = live.push(alive);
        }
        if alive {
            entries.push(entry.clone());
            assert(generator::bridge_views(entries@) =~= generator::bridge_views(above).push(
                entry@,
            ));
        }
        i = i + 1;
    }
    assert(bridges.take(bridges.len() as int) =~= bridges);
    entries
}

/// Which bridges are live is decided by the answers for these bridges alone.
pub proof fn lemma_live_bridges(bridges: Seq<BridgeView>, left: Seq<bool>, right: Seq<bool>)
    requires
        forall|i: int| 0 <= i < bridges.len() ==> #[trigger] left[i] == right[i],
    ensures
        live_bridges(bridges, left) == live_bridges(bridges, right),
    decreases bridges.len(),
{
    if bridges.len() > 0 {
        lemma_live_bridges(bridges.drop_last(), left, right);
        assert(left[bridges.len() - 1] == right[bridges.len() - 1]);
    }
}

}
