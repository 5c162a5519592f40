//! What is read from a generated script is what was written into it.

use vstd::prelude::*;

use crate::client_gen::cli;
use crate::client_gen::generator::{BridgeView, ConfigView};
use crate::client_gen::program;
use crate::decimal;
use crate::entries;
use crate::json::JsonView;
use crate::json_text;
use crate::text;

verus! {

/// The bridges with `entry` among them: in the place of the bridge of the same session, or else
/// behind all others.
pub open spec fn put_bridge(bridges: Seq<BridgeView>, entry: BridgeView) -> Seq<BridgeView>
    decreases bridges.len(),
{
    if bridges.len() == 0 {
        seq![entry]
    } else if bridges[0].session_pid == entry.session_pid {
        seq![entry] + bridges.skip(1)
    } else {
        seq![bridges[0]] + put_bridge(bridges.skip(1), entry)
    }
}

/// One bridge for each session, the last of each, in the order in which the sessions first occur.
pub open spec fn latest_bridges(bridges: Seq<BridgeView>) -> Seq<BridgeView>
    decreases bridges.len(),
{
    if bridges.len() == 0 {
        Seq::empty()
    } else {
        put_bridge(latest_bridges(bridges.drop_last()), bridges.last())
    }
}

/// The last bridge of a session among bridges, if there is one.
pub open spec fn last_bridge_of(bridges: Seq<BridgeView>, session_pid: u32) -> Option<BridgeView>
    decreases bridges.len(),
{
    if bridges.len() == 0 {
        None
    } else if bridges.last().session_pid == session_pid {
        Some(bridges.last())
    } else {
        last_bridge_of(bridges.drop_last(), session_pid)
    }
}

/// Whether no two bridges belong to one session.
pub open spec fn distinct_sessions(bridges: Seq<BridgeView>) -> bool {
    forall|i: int, j: int|
        0 <= i < j < bridges.len() ==> (#[trigger] bridges[i]).session_pid != (
        #[trigger] bridges[j]).session_pid
}

/// Putting a bridge keeps the sessions distinct, and replaces the bridge of its session alone.
proof fn lemma_put_bridge_contents(bridges: Seq<BridgeView>, entry: BridgeView)
    requires
        distinct_sessions(bridges),
    ensures
        distinct_sessions(put_bridge(bridges, entry)),
        forall|other: BridgeView| #[trigger]
            put_bridge(bridges, entry).contains(other) <==> other == entry || (bridges.contains(
                other,
            ) && other.session_pid != entry.session_pid),
    decreases bridges.len(),
{
    let result = put_bridge(bridges, entry);
    if bridges.len() == 0 {
        assert(result[0] == entry);
    } else {
        let rest = bridges.skip(1);
        assert(distinct_sessions(rest));
        lemma_put_bridge_contents(rest, entry);
        let tail = if bridges[0].session_pid == entry.session_pid {
            rest
        } else {
            put_bridge(rest, entry)
        };
        let head = if bridges[0].session_pid == entry.session_pid {
            entry
        } else {
            bridges[0]
        };
        assert(result =~= seq![head] + tail);
        assert forall|i: int| 0 <= i < rest.len() implies (#[trigger] rest[i]).session_pid
            != bridges[0].session_pid by {
            assert(rest[i] == bridges[i + 1]);
        }
        assert forall|i: int, j: int| 0 <= i < j < result.len() implies (
        #[trigger] result[i]).session_pid != (#[trigger] result[j]).session_pid by {
            assert(result[j] == tail[j - 1]);
            assert(tail.contains(tail[j - 1]));
            if i > 0 {
                assert(result[i] == tail[i - 1]);
            }
        }
        assert forall|other: BridgeView| #[trigger]
            result.contains(other) <==> other == entry || (bridges.contains(other)
                && other.session_pid != entry.session_pid) by {
            assert(result.contains(other) <==> other == head || tail.contains(other)) by {
                if other == head {
                    assert(result[0] == other);
                }
                if tail.contains(other) {
                    let i = tail.index_of(other);
                    assert(result[i + 1] == other);
                }
            }
            assert(bridges.contains(other) <==> other == bridges[0] || rest.contains(other)) by {
                if rest.contains(other) {
                    let i = rest.index_of(other);
                    assert(bridges[i + 1] == other);
                }
                if bridges.contains(other) && other != bridges[0] {
                    let i = bridges.index_of(other);
                    assert(rest[i - 1] == other);
                }
            }
        }
    }
}

/// The latest bridges are, for each session, its last bridge, and no session has two.
pub proof fn law_latest_bridges(bridges: Seq<BridgeView>)
    ensures
        distinct_sessions(latest_bridges(bridges)),
        forall|entry: BridgeView| #[trigger]
            latest_bridges(bridges).contains(entry) <==> last_bridge_of(bridges, entry.session_pid)
                == Some(entry),
    decreases bridges.len(),
{
    if bridges.len() > 0 {
        law_latest_bridges(bridges.drop_last());
        lemma_put_bridge_contents(latest_bridges(bridges.drop_last()), bridges.last());
        assert forall|entry: BridgeView| #[trigger]
            latest_bridges(bridges).contains(entry) <==> last_bridge_of(bridges, entry.session_pid)
                == Some(entry) by {
            lemma_last_bridge_session(bridges, entry.session_pid);
            lemma_last_bridge_session(bridges.drop_last(), entry.session_pid);
            assert(latest_bridges(bridges.drop_last()).contains(entry) <==> last_bridge_of(
                bridges.drop_last(),
                entry.session_pid,
            ) == Some(entry));
        }
    }
}

/// The last bridge of a session is one of the bridges, and belongs to the session.
pub proof fn lemma_last_bridge_session(bridges: Seq<BridgeView>, session_pid: u32)
    ensures
        last_bridge_of(bridges, session_pid) matches Some(entry) ==> entry.session_pid
            == session_pid && bridges.contains(entry),
    decreases bridges.len(),
{
    if bridges.len() > 0 {
        lemma_last_bridge_session(bridges.drop_last(), session_pid);
        match last_bridge_of(bridges, session_pid) {
            Some(entry) => {
                if bridges.last().session_pid == session_pid {
                    assert(bridges[bridges.len() - 1] == entry);
                } else {
                    let i = bridges.drop_last().index_of(entry);
                    assert(bridges[i] == entry);
                }
            },
            None => {},
        }
    }
}

/// Of its own session a client knows its own bridge, whatever bridges it is given besides; of
/// every other session it knows the last bridge that it is given.
pub proof fn law_known_bridges(config: ConfigView, session_pid: u32)
    ensures
        last_bridge_of(program::known_bridges(config), config.session_pid) == Some(
            BridgeView {
                session_pid: config.session_pid,
                bridge_url: config.bridge_url,
                token: config.token,
            },
        ),
        session_pid != config.session_pid ==> last_bridge_of(
            program::known_bridges(config),
            session_pid,
        ) == last_bridge_of(config.extra_cli_bridges, session_pid),
{
    let others = config.extra_cli_bridges.filter(
        |entry: BridgeView| entry.session_pid != config.session_pid,
    );
    let known = program::known_bridges(config);
    assert(known.drop_last() =~= others);
    if session_pid != config.session_pid {
        lemma_last_bridge_of_others(config.extra_cli_bridges, config.session_pid, session_pid);
    }
}

/// Leaving out the bridges of one session does not touch those of another.
proof fn lemma_last_bridge_of_others(bridges: Seq<BridgeView>, own: u32, session_pid: u32)
    requires
        session_pid != own,
    ensures
        last_bridge_of(bridges.filter(|entry: BridgeView| entry.session_pid != own), session_pid)
            == last_bridge_of(bridges, session_pid),
    decreases bridges.len(),
{
    reveal(Seq::filter);
    let foreign = |entry: BridgeView| entry.session_pid != own;
    if bridges.len() > 0 {
        lemma_last_bridge_of_others(bridges.drop_last(), own, session_pid);
        let kept = bridges.drop_last().filter(foreign);
        if foreign(bridges.last()) {
            assert(kept.push(bridges.last()).drop_last() =~= kept);
        }
    }
}

/// A session that is given the bridges which the scripts of an earlier session record knows every
/// bridge that the earlier one knew, but for its own session.
pub proof fn law_later_session_keeps_bridges(
    earlier: ConfigView,
    later: ConfigView,
    session_pid: u32,
)
    requires
        later.extra_cli_bridges == latest_bridges(program::known_bridges(earlier)),
        session_pid != later.session_pid,
    ensures
        last_bridge_of(program::known_bridges(later), session_pid) == last_bridge_of(
            program::known_bridges(earlier),
            session_pid,
        ),
{
    let known = program::known_bridges(earlier);
    let latest = latest_bridges(known);
    law_known_bridges(later, session_pid);
    law_latest_bridges(known);
    lemma_last_bridge_session(known, session_pid);
    match last_bridge_of(known, session_pid) {
        Some(entry) => {
            assert(latest.contains(entry));
            lemma_last_of_distinct(latest, latest.index_of(entry));
        },
        None => {
            if last_bridge_of(latest, session_pid) is Some {
                lemma_last_bridge_session(latest, session_pid);
                assert(latest.contains(last_bridge_of(latest, session_pid)->Some_0));
            }
        },
    }
}

/// Where no session has two bridges, each bridge is the last of its session.
proof fn lemma_last_of_distinct(bridges: Seq<BridgeView>, at: int)
    requires
        distinct_sessions(bridges),
        0 <= at < bridges.len(),
    ensures
        last_bridge_of(bridges, bridges[at].session_pid) == Some(bridges[at]),
    decreases bridges.len(),
{
    if at < bridges.len() - 1 {
        let shorter = bridges.drop_last();
        assert(bridges[at].session_pid != bridges[bridges.len() - 1].session_pid);
        assert(distinct_sessions(shorter)) by {
            assert forall|i: int, j: int| 0 <= i < j < shorter.len() implies (
            #[trigger] shorter[i]).session_pid != (#[trigger] shorter[j]).session_pid by {
                assert(shorter[i] == bridges[i] && shorter[j] == bridges[j]);
            }
        }
        lemma_last_of_distinct(shorter, at);
    }
}

/// A bridge as a member of the map of bridges.
pub open spec fn bridge_member(entry: BridgeView) -> (Seq<char>, JsonView) {
    (decimal::decimal(entry.session_pid as nat), program::bridge_json(entry))
}

/// Bridges as members of the map of bridges.
pub open spec fn as_members(bridges: Seq<BridgeView>) -> Seq<(Seq<char>, JsonView)> {
    bridges.map_values(|entry: BridgeView| bridge_member(entry))
}

/// Putting a bridge among bridges puts its member among their members.
proof fn lemma_put_bridge(bridges: Seq<BridgeView>, entry: BridgeView)
    ensures
        as_members(put_bridge(bridges, entry)) == entries::put(
            as_members(bridges),
            bridge_member(entry).0,
            bridge_member(entry).1,
        ),
    decreases bridges.len(),
{
    let members = as_members(bridges);
    let result = as_members(put_bridge(bridges, entry));
    let put = entries::put(members, bridge_member(entry).0, bridge_member(entry).1);
    if bridges.len() > 0 {
        let rest = bridges.skip(1);
        assert(members.skip(1) =~= as_members(rest));
        if bridges[0].session_pid != entry.session_pid {
            if members[0].0 == bridge_member(entry).0 {
                decimal::law_decimal_injective(bridges[0].session_pid, entry.session_pid);
            }
            lemma_put_bridge(rest, entry);
        }
    }
    assert(result =~= put);
}

/// The map of bridges holds the last bridge of each session.
pub proof fn law_bridge_members(bridges: Seq<BridgeView>)
    ensures
        program::bridge_members(bridges) == as_members(latest_bridges(bridges)),
    decreases bridges.len(),
{
    if bridges.len() > 0 {
        law_bridge_members(bridges.drop_last());
        lemma_put_bridge(latest_bridges(bridges.drop_last()), bridges.last());
    } else {
        assert(program::bridge_members(bridges) =~= as_members(latest_bridges(bridges)));
    }
}

/// A bridge is read back from its member.
proof fn lemma_bridge_of_member(entry: BridgeView)
    ensures
        cli::bridge_of(bridge_member(entry)) == Some(entry),
{
    reveal_strlit("bridge");
    reveal_strlit("token");
    let members = program::bridge_json(entry)->Object_0;
    assert(members[0].0.len() != members[1].0.len());
    entries::lemma_lookup_at(members, 0);
    entries::lemma_lookup_at(members, 1);
    decimal::law_decimal_round_trip(entry.session_pid);
}

/// Bridges are read back from their members.
proof fn lemma_bridges_of_members(bridges: Seq<BridgeView>)
    ensures
        cli::bridges_of(as_members(bridges)) == bridges,
    decreases bridges.len(),
{
    let members = as_members(bridges);
    if bridges.len() > 0 {
        assert(members.drop_last() =~= as_members(bridges.drop_last()));
        lemma_bridges_of_members(bridges.drop_last());
        lemma_bridge_of_member(bridges.last());
        assert(bridges.drop_last().push(bridges.last()) =~= bridges);
    } else {
        assert(cli::bridges_of(members) =~= bridges);
    }
}

/// The keys of the map of bridges are distinct.
proof fn lemma_bridge_keys(bridges: Seq<BridgeView>)
    ensures
        entries::distinct_keys(program::bridge_members(bridges)),
    decreases bridges.len(),
{
    if bridges.len() > 0 {
        lemma_bridge_keys(bridges.drop_last());
        entries::law_put(
            program::bridge_members(bridges.drop_last()),
            decimal::decimal(bridges.last().session_pid as nat),
            program::bridge_json(bridges.last()),
        );
    }
}

/// The map of bridges holds no numbers and no deep nesting.
proof fn lemma_bridge_map_plain(config: ConfigView)
    ensures
        json_text::plain(program::bridge_map(config), 127),
{
    let bridges = program::known_bridges(config);
    lemma_bridge_keys(bridges);
    law_bridge_members(bridges);
    let latest = latest_bridges(bridges);
    let members = program::bridge_members(bridges);
    reveal_strlit("bridge");
    reveal_strlit("token");
    assert forall|i: int| 0 <= i < members.len() implies json_text::plain(
        (#[trigger] members[i]).1,
        126,
    ) by {
        let inner = program::bridge_json(latest[i])->Object_0;
        assert(members[i].1 == program::bridge_json(latest[i]));
        assert(inner[0].0.len() != inner[1].0.len());
        assert forall|j: int| 0 <= j < inner.len() implies json_text::plain(
            (#[trigger] inner[j]).1,
            125,
        ) by {}
    }
}

/// A line that does not hold the map of bridges is passed over.
proof fn lemma_line_passed_over(line: Seq<char>, rest: Seq<char>)
    requires
        !line.contains('\n'),
        !cli::is_bridge_line(cli::without_return(line)),
    ensures
        cli::bridge_line(line + seq!['\n'] + rest) == cli::bridge_line(rest),
{
    let whole = line + seq!['\n'] + rest;
    text::lemma_before_stop(line, '\n', rest);
    assert(whole.skip(line.len() as int + 1) =~= rest);
}

/// The line that holds the map of bridges is found.
proof fn lemma_line_found(line: Seq<char>, rest: Seq<char>)
    requires
        !line.contains('\n'),
        cli::without_return(line) == line,
        cli::is_bridge_line(line),
    ensures
        cli::bridge_line(line + seq!['\n'] + rest) == Some(line),
{
    text::lemma_before_stop(line, '\n', rest);
}

/// A line whose first character is neither white space nor a capital B does not hold the map of
/// bridges.
proof fn lemma_other_line(line: Seq<char>)
    requires
        line.len() > 0 ==> !text::is_white_space(line[0]) && line[0] != 'B',
    ensures
        !cli::is_bridge_line(line),
{
    reveal_strlit("BRIDGES = ");
    if cli::is_bridge_line(line) {
        assert(line.take(10)[0] == 'B');
    }
}

/// A line without a capital B does not hold the map of bridges.
proof fn lemma_line_without_b(line: Seq<char>)
    requires
        !line.contains('B'),
    ensures
        !cli::is_bridge_line(line),
    decreases line.len(),
{
    if line.len() > 0 {
        assert(line.contains(line[0]));
        if text::is_white_space(line[0]) {
            let rest = line.skip(1);
            assert forall|i: int| 0 <= i < rest.len() implies rest[i] != 'B' by {
                assert(line.contains(line[i + 1]));
            }
            lemma_line_without_b(rest);
        } else {
            lemma_other_line(line);
        }
    } else {
        lemma_other_line(line);
    }
}

/// Lines without a capital B are passed over.
proof fn lemma_lines_passed_over(lines: Seq<char>, rest: Seq<char>)
    requires
        lines.len() > 0 ==> lines.last() == '\n',
        !lines.contains('B'),
    ensures
        cli::bridge_line(lines + rest) == cli::bridge_line(rest),
    decreases lines.len(),
{
    if lines.len() == 0 {
        assert(lines + rest =~= rest);
    } else {
        let line = text::before(lines, '\n');
        text::lemma_before(lines, '\n');
        if line.len() == lines.len() {
            assert(line[line.len() - 1] == lines.last());
            assert(line.contains('\n'));
        }
        let further = lines.skip(line.len() as int + 1);
        assert forall|i: int| 0 <= i < further.len() implies further[i] != 'B' by {
            assert(lines.contains(lines[i + line.len() + 1]));
        }
        let shown = cli::without_return(line);
        assert forall|i: int| 0 <= i < shown.len() implies shown[i] != 'B' by {
            assert(lines.contains(lines[i]));
        }
        lemma_line_without_b(shown);
        lemma_line_passed_over(line, further + rest);
        assert(lines + rest =~= line + seq!['\n'] + (further + rest));
        lemma_lines_passed_over(further, rest);
    }
}

/// What stands behind the first equals sign.
pub proof fn lemma_after_equals(start: Seq<char>, value: Seq<char>)
    requires
        !start.contains('='),
    ensures
        cli::after_equals(start + seq!['='] + value) == Some(value),
    decreases start.len(),
{
    let whole = start + seq!['='] + value;
    if start.len() > 0 {
        let shorter = start.skip(1);
        assert(start.contains(start[0]));
        assert forall|i: int| 0 <= i < shorter.len() implies shorter[i] != '=' by {
            assert(start.contains(start[i + 1]));
        }
        lemma_after_equals(shorter, value);
        assert(whole.skip(1) =~= shorter + seq!['='] + value);
    } else {
        assert(whole.skip(1) =~= value);
    }
}

/// The text of a map is found on its line and without the white space before it.
proof fn lemma_source_in_line(map: Seq<char>, rest: Seq<char>)
    requires
        map.len() > 0,
        map[0] == '{',
        map.last() == '}',
        json_text::no_control(map),
    ensures
        cli::bridge_source("BRIDGES = "@ + map + seq!['\n'] + rest) == Some(map),
{
    reveal_strlit("BRIDGES = ");
    reveal_strlit("BRIDGES ");
    let line = "BRIDGES = "@ + map;
    assert(line.last() == '}');
    assert(!line.contains('\n'));
    assert(line.take(10) =~= "BRIDGES = "@);
    lemma_line_found(line, rest);
    let value = seq![' '] + map;
    lemma_after_equals("BRIDGES "@, value);
    assert(line =~= "BRIDGES "@ + seq!['='] + value);
    assert(value.skip(1) =~= map);
    assert(text::trim_start(map) == map);
    assert(text::trim_start(value) == map);
    assert(text::trim_end(map) == map);
}

/// The line of the help text is passed over, and so is what stands before it.
proof fn lemma_help_passed_over(help: Seq<char>, rest: Seq<char>)
    requires
        json_text::no_control(help),
    ensures
        cli::bridge_line(program::PROGRAM_START@ + help + program::PROGRAM_BRIDGES@ + rest)
            == cli::bridge_line("BRIDGES = "@ + rest),
{
    reveal_strlit("import base64, json, os, sys, urllib.error, urllib.request\n\nTOP_HELP = ");
    reveal_strlit("\n\nBRIDGES = ");
    reveal_strlit("BRIDGES = ");
    let start = program::PROGRAM_START@;
    let imports = start.take(60);
    let line = start.skip(60) + help;
    let further = "BRIDGES = "@ + rest;
    assert(seq!['\n', '\n'] + "BRIDGES = "@ =~= program::PROGRAM_BRIDGES@);
    assert(start + help + program::PROGRAM_BRIDGES@ + rest =~= imports + (line + seq!['\n'] + (
    seq!['\n'] + further)));
    assert(!imports.contains('B'));
    lemma_lines_passed_over(imports, line + seq!['\n'] + (seq!['\n'] + further));
    assert(!line.contains('\n'));
    assert(line[0] == 'T');
    lemma_other_line(cli::without_return(line));
    lemma_line_passed_over(line, seq!['\n'] + further);
    lemma_lines_passed_over(seq!['\n'], further);
}

/// The program of a client starts with the help text and the map of bridges.
proof fn lemma_program_start(config: ConfigView, end: Seq<char>)
    ensures
        ({
            let start = program::PROGRAM_START@ + json_text::json_string(
                program::command_help(config),
            ) + program::PROGRAM_BRIDGES@ + json_text::json_text(program::bridge_map(config))
                + program::PROGRAM_SCHEMAS@;
            program::client_program(config) + end == start + (program::client_program(config)
                + end).skip(start.len() as int)
        }),
{
    let start = program::PROGRAM_START@ + json_text::json_string(program::command_help(config))
        + program::PROGRAM_BRIDGES@ + json_text::json_text(program::bridge_map(config))
        + program::PROGRAM_SCHEMAS@;
    let whole = program::client_program(config) + end;
    assert(whole =~= start + whole.skip(start.len() as int));
}

/// The text of the map of bridges is found in the program of a client, whatever follows it.
proof fn lemma_source_in_program(config: ConfigView, end: Seq<char>)
    ensures
        cli::bridge_source(program::client_program(config) + end) == Some(
            json_text::json_text(program::bridge_map(config)),
        ),
{
    let help = json_text::json_string(program::command_help(config));
    let map = json_text::json_text(program::bridge_map(config));
    let start = program::PROGRAM_START@ + help + program::PROGRAM_BRIDGES@;
    let schemas = program::PROGRAM_SCHEMAS@;
    let whole = program::client_program(config) + end;
    let tail = whole.skip((start + map + schemas).len() as int);
    lemma_program_start(config, end);
    reveal_strlit("\n\nTOOL_SCHEMAS = json.loads(base64.b64decode(");
    let rest = schemas.skip(1) + tail;
    assert(schemas =~= seq!['\n'] + schemas.skip(1));
    assert(whole =~= start + (map + seq!['\n'] + rest));
    json_text::lemma_escape_no_control(program::command_help(config));
    lemma_help_passed_over(help, map + seq!['\n'] + rest);
    lemma_bridge_map_plain(config);
    json_text::law_json_text_on_one_line(program::bridge_map(config), 127);
    lemma_source_in_line(map, rest);
    assert("BRIDGES = "@ + map + seq!['\n'] + rest =~= "BRIDGES = "@ + (map + seq!['\n'] + rest));
}

/// The text of the map of bridges is found in the scripts of a client.
pub proof fn lemma_source_in_scripts(config: ConfigView)
    ensures
        cli::bridge_source(cli::unix_script(config)) == Some(
            json_text::json_text(program::bridge_map(config)),
        ),
        cli::bridge_source(cli::windows_cmd(config)) == Some(
            json_text::json_text(program::bridge_map(config)),
        ),
{
    let body = program::client_program(config);
    reveal_strlit(
        "#!/usr/bin/env sh\n# generated by mcp-compressor -- do not edit manually\nexec python3 - \"$@\" <<'PY'\n",
    );
    reveal_strlit("@echo off\nREM = r'''\npython -x \"%~f0\" %*\nexit /b %errorlevel%\n'''\n");
    assert(!cli::SHELL_START@.contains('B'));
    assert(!cli::BATCH_START@.contains('B'));
    lemma_lines_passed_over(cli::SHELL_START@, body + cli::SHELL_END@);
    lemma_lines_passed_over(cli::BATCH_START@, body + Seq::empty());
    assert(cli::unix_script(config) =~= cli::SHELL_START@ + (body + cli::SHELL_END@));
    assert(cli::windows_cmd(config) =~= cli::BATCH_START@ + (body + Seq::empty()));
    lemma_source_in_program(config, cli::SHELL_END@);
    lemma_source_in_program(config, Seq::empty());
}

/// The bridges of a map of bridges are read back: the last bridge of each session.
pub proof fn law_bridges_read_back(config: ConfigView)
    ensures
        json_text::plain(program::bridge_map(config), 127),
        cli::bridges_in(program::bridge_map(config)) == latest_bridges(
            program::known_bridges(config),
        ),
{
    let bridges = program::known_bridges(config);
    lemma_bridge_map_plain(config);
    law_bridge_members(bridges);
    lemma_bridges_of_members(latest_bridges(bridges));
}

/// The process number, the address and the token of a bridge stand in its member.
proof fn lemma_member_holds(members: Seq<(Seq<char>, JsonView)>, i: int, entry: BridgeView)
    requires
        0 <= i < members.len(),
        members[i] == bridge_member(entry),
    ensures
        ({
            let map = json_text::json_text(JsonView::Object(members));
            &&& text::holds(
                map,
                json_text::json_string(decimal::decimal(entry.session_pid as nat)),
            )
            &&& text::holds(map, json_text::json_string(entry.bridge_url))
            &&& text::holds(map, json_text::json_string(entry.token))
        }),
{
    let map = json_text::json_text(JsonView::Object(members));
    let texts = json_text::member_texts(members);
    let inner = program::bridge_json(entry)->Object_0;
    let inner_texts = json_text::member_texts(inner);
    let key = json_text::json_string(members[i].0);
    let value = json_text::json_text(members[i].1);
    let none = Seq::<char>::empty();
    text::lemma_join_holds(texts, seq![','], i);
    assert(map =~= seq!['{'] + text::join(texts, seq![',']) + seq!['}']);
    text::lemma_holds_inside(map, text::join(texts, seq![',']), texts[i]);
    assert(texts[i] =~= none + key + (seq![':'] + value));
    text::lemma_holds_inside(map, texts[i], key);
    assert(texts[i] =~= (key + seq![':']) + value + none);
    text::lemma_holds_inside(map, texts[i], value);
    assert(value =~= seq!['{'] + text::join(inner_texts, seq![',']) + seq!['}']);
    text::lemma_holds_inside(map, value, text::join(inner_texts, seq![',']));
    assert forall|j: int| 0 <= j < 2 implies text::holds(
        map,
        json_text::json_text(#[trigger] inner[j].1),
    ) by {
        text::lemma_join_holds(inner_texts, seq![','], j);
        text::lemma_holds_inside(map, text::join(inner_texts, seq![',']), inner_texts[j]);
        assert(inner_texts[j] =~= (json_text::json_string(inner[j].0) + seq![':'])
            + json_text::json_text(inner[j].1) + none);
        text::lemma_holds_inside(map, inner_texts[j], json_text::json_text(inner[j].1));
    }
    assert(json_text::json_text(inner[0].1) == json_text::json_string(entry.bridge_url));
    assert(json_text::json_text(inner[1].1) == json_text::json_string(entry.token));
}

/// The map of bridges stands in the scripts of a client.
proof fn lemma_scripts_hold_map(config: ConfigView)
    ensures
        text::holds(cli::unix_script(config), json_text::json_text(program::bridge_map(config))),
        text::holds(cli::windows_cmd(config), json_text::json_text(program::bridge_map(config))),
{
    let map = json_text::json_text(program::bridge_map(config));
    let start = program::PROGRAM_START@ + json_text::json_string(program::command_help(config))
        + program::PROGRAM_BRIDGES@;
    let body = program::client_program(config);
    lemma_program_start(config, cli::SHELL_END@);
    let tail = (body + cli::SHELL_END@).skip((start + map + program::PROGRAM_SCHEMAS@).len() as int);
    assert(cli::unix_script(config) =~= (cli::SHELL_START@ + start) + map + (
    program::PROGRAM_SCHEMAS@ + tail));
    lemma_program_start(config, Seq::empty());
    assert(body + Seq::empty() =~= body);
    let last = body.skip((start + map + program::PROGRAM_SCHEMAS@).len() as int);
    assert(cli::windows_cmd(config) =~= (cli::BATCH_START@ + start) + map + (
    program::PROGRAM_SCHEMAS@ + last));
}

/// The scripts of a client hold the process number, the address and the token of each bridge that
/// the client knows, each as a JSON string.
pub proof fn law_scripts_hold_bridges(config: ConfigView, entry: BridgeView, script: Seq<char>)
    requires
        last_bridge_of(program::known_bridges(config), entry.session_pid) == Some(entry),
        cli::is_script_of(script, config),
    ensures
        text::holds(script, json_text::json_string(decimal::decimal(entry.session_pid as nat))),
        text::holds(script, json_text::json_string(entry.bridge_url)),
        text::holds(script, json_text::json_string(entry.token)),
{
    let bridges = program::known_bridges(config);
    let map = json_text::json_text(program::bridge_map(config));
    let latest = latest_bridges(bridges);
    law_latest_bridges(bridges);
    assert(latest.contains(entry));
    let i = latest.index_of(entry);
    law_bridge_members(bridges);
    lemma_member_holds(program::bridge_members(bridges), i, entry);
    lemma_scripts_hold_map(config);
    text::lemma_holds_inside(
        script,
        map,
        json_text::json_string(decimal::decimal(entry.session_pid as nat)),
    );
    text::lemma_holds_inside(script, map, json_text::json_string(entry.bridge_url));
    text::lemma_holds_inside(script, map, json_text::json_string(entry.token));
}

/// The scripts of a client hold the token and the address of its own bridge as they are, where
/// their characters need no escape.
pub proof fn law_scripts_hold_own_bridge(config: ConfigView, script: Seq<char>)
    requires
        cli::is_script_of(script, config),
    ensures
        json_text::needs_no_escape(config.token) ==> text::holds(script, config.token),
        json_text::needs_no_escape(config.bridge_url) ==> text::holds(script, config.bridge_url),
{
    let own = BridgeView {
        session_pid: config.session_pid,
        bridge_url: config.bridge_url,
        token: config.token,
    };
    law_known_bridges(config, config.session_pid);
    law_scripts_hold_bridges(config, own, script);
    if json_text::needs_no_escape(config.token) {
        json_text::law_json_string_verbatim(config.token);
        text::lemma_holds_inside(script, json_text::json_string(config.token), config.token);
    }
    if json_text::needs_no_escape(config.bridge_url) {
        json_text::law_json_string_verbatim(config.bridge_url);
        text::lemma_holds_inside(
            script,
            json_text::json_string(config.bridge_url),
            config.bridge_url,
        );
    }
}

}
