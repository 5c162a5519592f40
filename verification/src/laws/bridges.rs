//! Bridges: what scripts record of them, and which of them are read back.

use vstd::prelude::*;

use crate::client_gen::cli;
use crate::client_gen::cli::{
    address_of_bridge, bridge_entries_in, bridge_is_live, find_bridge_source,
    read_live_bridge_entries, recorded_bridge_entries, render_unix_script, render_windows_cmd,
};
use crate::client_gen::generator;
use crate::client_gen::generator::{BridgeView, CliBridgeEntry, GeneratorConfig};
use crate::client_gen::program;
use crate::client_gen::read_back;
use crate::decimal;
use crate::decimal::{decimal_text, parsed_decimal};
use crate::json::{Json, JsonView};
use crate::json_text::parse_json;
use crate::laws::help;
use crate::text;

verus! {

/// Whether `kept` are positions of a list: increasing, and among them exactly those for which
/// `keep` says so.
pub open spec fn are_kept_positions(keep: Seq<bool>, kept: Seq<int>) -> bool {
    &&& forall|i: int| 0 <= i < kept.len() ==> 0 <= #[trigger] kept[i] < keep.len() && keep[kept[i]]
    &&& forall|i: int, j: int| 0 <= i < j < kept.len() ==> #[trigger] kept[i] < #[trigger] kept[j]
    &&& forall|at: int| 0 <= at < keep.len() && #[trigger] keep[at] ==> kept.contains(at)
}

/// Whether `result` are the bridges for which `keep` says so, in order.
pub open spec fn keeps_bridges(
    all: Seq<BridgeView>,
    keep: Seq<bool>,
    result: Seq<BridgeView>,
) -> bool {
    exists|kept: Seq<int>|
        {
            &&& #[trigger] are_kept_positions(keep, kept)
            &&& result.len() == kept.len()
            &&& forall|i: int| 0 <= i < result.len() ==> #[trigger] result[i] == all[kept[i]]
        }
}

/// The live bridges are those with a true answer, in order.
proof fn lemma_live_bridges(all: Seq<BridgeView>, live: Seq<bool>) -> (kept: Seq<int>)
    requires
        live.len() == all.len(),
    ensures
        are_kept_positions(live, kept),
        cli::live_bridges(all, live).len() == kept.len(),
        forall|i: int|
            0 <= i < kept.len() ==> #[trigger] cli::live_bridges(all, live)[i] == all[kept[i]],
    decreases all.len(),
{
    if all.len() == 0 {
        Seq::empty()
    } else {
        let shorter = all.drop_last();
        let fewer = live.drop_last();
        let earlier = lemma_live_bridges(shorter, fewer);
        cli::lemma_live_bridges(shorter, live, fewer);
        let last = all.len() - 1;
        let kept = if live[last] {
            earlier.push(last)
        } else {
            earlier
        };
        assert forall|i: int| 0 <= i < kept.len() implies 0 <= #[trigger] kept[i] < live.len()
            && live[kept[i]] by {
            if i < earlier.len() {
                assert(0 <= earlier[i] < fewer.len() && fewer[earlier[i]]);
            }
        }
        assert forall|i: int, j: int| 0 <= i < j < kept.len() implies #[trigger] kept[i]
            < #[trigger] kept[j] by {
            if j < earlier.len() {
                assert(earlier[i] < earlier[j]);
            } else {
                assert(0 <= earlier[i] < fewer.len());
            }
        }
        assert forall|at: int| 0 <= at < live.len() && #[trigger] live[at] implies kept.contains(
            at,
        ) by {
            if at < last {
                assert(fewer[at]);
                let i = earlier.index_of(at);
                assert(kept[i] == at);
            } else {
                assert(kept[kept.len() - 1] == at);
            }
        }
        assert forall|i: int| 0 <= i < kept.len() implies #[trigger] cli::live_bridges(
            all,
            live,
        )[i] == all[kept[i]] by {
            if i < earlier.len() {
                assert(cli::live_bridges(shorter, fewer)[i] == shorter[earlier[i]]);
            }
        }
        kept
    }
}

/// Whether `live` is the answer for a bridge: an address with the scheme `http` is tried by its host
/// and port, up to the next slash; without that scheme nothing is tried, and the bridge is not live.
pub open spec fn answers<F: Fn(&str) -> bool>(connect: F, url: Seq<char>, live: bool) -> bool {
    if url.len() >= 7 && url.take(7) == "http://"@ {
        exists|tried: &str, rest: Seq<char>|
            {
                &&& #[trigger] call_ensures(connect, (tried,), live)
                &&& url == #[trigger] ("http://"@ + tried@ + rest)
                &&& !tried@.contains('/')
                &&& rest.len() == 0 || rest[0] == '/'
            }
    } else {
        !live
    }
}

/// The answer for a bridge is what the attempt to connect says.
proof fn lemma_answers<F: Fn(&str) -> bool>(connect: F, url: Seq<char>, live: bool)
    requires
        cli::is_liveness(connect, url, live),
    ensures
        answers(connect, url, live),
{
    reveal_strlit("http://");
    match cli::bridge_address(url) {
        Some(address) => {
            let tried = choose|tried: &str|
                tried@ == address && call_ensures(connect, (tried,), live);
            let behind = url.skip(7);
            text::lemma_before(behind, '/');
            let rest = behind.skip(address.len() as int);
            assert(behind =~= address + rest);
            assert(url =~= "http://"@ + behind);
            assert(url =~= "http://"@ + tried@ + rest);
            if rest.len() > 0 {
                assert(rest[0] == behind[address.len() as int]);
            }
        },
        None => {},
    }
}

/// The host and port of a bridge stand between the scheme `http` and the next slash; an address
/// without that scheme has none.
pub proof fn law_bridge_address(url: &str, address: Option<String>)
    requires
        call_ensures(address_of_bridge, (url,), address),
    ensures
        match address {
            Some(found) => !found@.contains('/') && exists|rest: Seq<char>|
                url@ == #[trigger] ("http://"@ + found@ + rest) && (rest.len() == 0 || rest[0]
                    == '/'),
            None => !(url@.len() >= 7 && url@.take(7) == "http://"@),
        },
{
    reveal_strlit("http://");
    match address {
        Some(found) => {
            let behind = url@.skip(7);
            text::lemma_before(behind, '/');
            let rest = behind.skip(found@.len() as int);
            assert(behind =~= found@ + rest);
            assert(url@ =~= "http://"@ + behind);
            assert(url@ =~= "http://"@ + found@ + rest);
        },
        None => {},
    }
}

/// A bridge is live exactly if the attempt to connect to its host and port says so.
pub proof fn law_bridge_is_live<F: Fn(&str) -> bool>(url: &str, connect: &F, live: bool)
    requires
        call_ensures(bridge_is_live::<F>, (url, connect), live),
    ensures
        answers(*connect, url@, live),
{
    lemma_answers(*connect, url@, live);
}

/// The live bridges of a script are those of its recorded bridges for which the attempt to connect
/// succeeded, all of them and no others, in the order in which they are recorded.
pub proof fn law_live_bridges<F: Fn(&str) -> bool>(
    script: &str,
    connect: &F,
    recorded: Vec<CliBridgeEntry>,
    entries: Vec<CliBridgeEntry>,
)
    requires
        call_ensures(recorded_bridge_entries, (script,), recorded),
        call_ensures(read_live_bridge_entries::<F>, (script, connect), entries),
    ensures
        exists|live: Seq<bool>|
            {
                &&& live.len() == recorded@.len()
                &&& forall|i: int|
                    0 <= i < live.len() ==> answers(
                        *connect,
                        recorded@[i].bridge_url@,
                        #[trigger] live[i],
                    )
                &&& #[trigger] keeps_bridges(
                    generator::bridge_views(recorded@),
                    live,
                    generator::bridge_views(entries@),
                )
            },
{
    let all = generator::bridge_views(recorded@);
    let live = choose|live: Seq<bool>|
        {
            &&& live.len() == cli::recorded_bridges(script@).len()
            &&& forall|i: int|
                0 <= i < live.len() ==> cli::is_liveness(
                    *connect,
                    cli::recorded_bridges(script@)[i].bridge_url,
                    #[trigger] live[i],
                )
            &&& generator::bridge_views(entries@) == #[trigger] cli::live_bridges(
                cli::recorded_bridges(script@),
                live,
            )
        };
    let kept = lemma_live_bridges(all, live);
    assert forall|i: int| 0 <= i < live.len() implies answers(
        *connect,
        recorded@[i].bridge_url@,
        #[trigger] live[i],
    ) by {
        assert(all[i].bridge_url == recorded@[i].bridge_url@);
        lemma_answers(*connect, all[i].bridge_url, live[i]);
    }
    assert(are_kept_positions(live, kept));
    assert(keeps_bridges(all, live, generator::bridge_views(entries@)));
}

/// If every attempt to connect succeeds and every recorded bridge has the scheme `http`, all
/// recorded bridges are read; if none succeeds, none is.
pub proof fn law_all_or_no_live_bridges<F: Fn(&str) -> bool>(
    script: &str,
    connect: &F,
    recorded: Vec<CliBridgeEntry>,
    entries: Vec<CliBridgeEntry>,
)
    requires
        call_ensures(recorded_bridge_entries, (script,), recorded),
        call_ensures(read_live_bridge_entries::<F>, (script, connect), entries),
    ensures
        (forall|tried: &str, live: bool| #[trigger] call_ensures(*connect, (tried,), live) ==> live)
            && (forall|i: int|
            0 <= i < recorded@.len() ==> (#[trigger] recorded@[i]).bridge_url@.len() >= 7
                && recorded@[i].bridge_url@.take(7) == "http://"@) ==> generator::bridge_views(
            entries@,
        ) == generator::bridge_views(recorded@),
        (forall|tried: &str, live: bool| #[trigger]
            call_ensures(*connect, (tried,), live) ==> !live) ==> entries@.len() == 0,
{
    law_live_bridges(script, connect, recorded, entries);
    let all = generator::bridge_views(recorded@);
    let result = generator::bridge_views(entries@);
    let live = choose|live: Seq<bool>|
        {
            &&& live.len() == recorded@.len()
            &&& forall|i: int|
                0 <= i < live.len() ==> answers(
                    *connect,
                    recorded@[i].bridge_url@,
                    #[trigger] live[i],
                )
            &&& #[trigger] keeps_bridges(all, live, result)
        };
    let kept = choose|kept: Seq<int>|
        {
            &&& #[trigger] are_kept_positions(live, kept)
            &&& result.len() == kept.len()
            &&& forall|i: int| 0 <= i < result.len() ==> #[trigger] result[i] == all[kept[i]]
        };
    if (forall|tried: &str, live: bool| #[trigger] call_ensures(*connect, (tried,), live) ==> live)
        && (forall|i: int|
        0 <= i < recorded@.len() ==> (#[trigger] recorded@[i]).bridge_url@.len() >= 7
            && recorded@[i].bridge_url@.take(7) == "http://"@) {
        assert forall|i: int| 0 <= i < live.len() implies #[trigger] live[i] by {
            assert(answers(*connect, recorded@[i].bridge_url@, live[i]));
        }
        lemma_all_positions(live, kept);
        assert(result =~= all);
    }
    if forall|tried: &str, live: bool| #[trigger] call_ensures(*connect, (tried,), live) ==> !live {
        if kept.len() > 0 {
            let at = kept[0];
            assert(0 <= at < live.len() && live[at]);
            assert(answers(*connect, recorded@[at].bridge_url@, live[at]));
        }
    }
}

/// If all positions are kept, the positions are counted through.
proof fn lemma_all_positions(keep: Seq<bool>, kept: Seq<int>)
    requires
        are_kept_positions(keep, kept),
        forall|i: int| 0 <= i < keep.len() ==> #[trigger] keep[i],
    ensures
        kept.len() == keep.len(),
        forall|i: int| 0 <= i < kept.len() ==> #[trigger] kept[i] == i,
    decreases keep.len(),
{
    if keep.len() == 0 {
        if kept.len() > 0 {
            assert(0 <= kept[0] < keep.len());
        }
    } else {
        let last = keep.len() - 1;
        assert(keep[last]);
        let at = kept.index_of(last);
        if at < kept.len() - 1 {
            assert(kept[at] < kept[kept.len() - 1]);
            assert(kept[kept.len() - 1] < keep.len());
        }
        let fewer = keep.drop_last();
        let earlier = kept.drop_last();
        assert forall|i: int| 0 <= i < earlier.len() implies 0 <= #[trigger] earlier[i]
            < fewer.len() && fewer[earlier[i]] by {
            assert(kept[i] < kept[kept.len() - 1]);
            assert(keep[kept[i]]);
        }
        assert forall|p: int| 0 <= p < fewer.len() && #[trigger] fewer[p] implies earlier.contains(
            p,
        ) by {
            assert(keep[p]);
            let i = kept.index_of(p);
            assert(earlier[i] == p);
        }
        assert forall|i: int, j: int| 0 <= i < j < earlier.len() implies #[trigger] earlier[i]
            < #[trigger] earlier[j] by {
            assert(kept[i] < kept[j]);
        }
        assert forall|i: int| 0 <= i < fewer.len() implies #[trigger] fewer[i] by {
            assert(keep[i]);
        }
        lemma_all_positions(fewer, earlier);
        assert forall|i: int| 0 <= i < kept.len() implies #[trigger] kept[i] == i by {
            if i < earlier.len() {
                assert(earlier[i] == i);
            }
        }
    }
}

/// What is no object records no bridges.
pub proof fn law_no_map_of_bridges(value: &Json, entries: Vec<CliBridgeEntry>)
    requires
        !(value@ matches JsonView::Object(members) && members.len() > 0),
        call_ensures(bridge_entries_in, (value,), entries),
    ensures
        entries@.len() == 0,
{
    assert(generator::bridge_views(entries@).len() == entries@.len());
}

/// One more member of a map records one more bridge, if its key is a process number and it holds
/// texts under `bridge` and `token`, and nothing otherwise.
pub proof fn law_recorded_bridges_grow(
    value: &Json,
    longer: &Json,
    members: Seq<(Seq<char>, JsonView)>,
    key: &str,
    member: JsonView,
    number: Option<u32>,
    entries: Vec<CliBridgeEntry>,
    grown: Vec<CliBridgeEntry>,
)
    requires
        value@ == JsonView::Object(members),
        longer@ == JsonView::Object(members.push((key@, member))),
        call_ensures(parsed_decimal, (key,), number),
        call_ensures(bridge_entries_in, (value,), entries),
        call_ensures(bridge_entries_in, (longer,), grown),
    ensures
        generator::bridge_views(grown@) == (match (
            number,
            member.get("bridge"@),
            member.get("token"@),
        ) {
            (
                Some(session_pid),
                Some(JsonView::Text(bridge_url)),
                Some(JsonView::Text(token)),
            ) => generator::bridge_views(entries@).push(
                BridgeView { session_pid, bridge_url, token },
            ),
            _ => generator::bridge_views(entries@),
        }),
{
    assert(members.push((key@, member)).drop_last() =~= members);
}

/// A process number is read from digits: none and other characters give no number, one digit gives
/// its value, and one more digit ten times the number and the digit, if that fits in 32 bits.
pub proof fn law_number_grows(
    digits: &str,
    longer: &str,
    ch: char,
    number: Option<u32>,
    grown: Option<u32>,
)
    requires
        longer@ == digits@.push(ch),
        call_ensures(parsed_decimal, (digits,), number),
        call_ensures(parsed_decimal, (longer,), grown),
    ensures
        digits@.len() == 0 ==> number is None,
        !('0' <= ch <= '9') ==> grown is None,
        '0' <= ch <= '9' && (digits@.len() == 0 || digits@ == seq!['+']) ==> grown == Some(
            (ch as nat - 48) as u32,
        ),
        '0' <= ch <= '9' && number is Some ==> grown == if number->Some_0 * 10 + (ch as nat - 48)
            <= u32::MAX {
            Some((number->Some_0 * 10 + (ch as nat - 48)) as u32)
        } else {
            None
        },
        '0' <= ch <= '9' && digits@.len() > 0 && digits@ != seq!['+'] && number is None
            ==> grown is None,
{
    let before = decimal::unsigned_digits(digits@);
    let after = decimal::unsigned_digits(longer@);
    if digits@.len() == 0 {
        if ch == '+' {
            assert(after.len() == 0);
        } else {
            assert(after =~= seq![ch]);
            assert(after.drop_last() =~= Seq::empty());
            assert(decimal::digits_value(after.drop_last()) == 0);
            assert(after[0] == ch);
        }
    } else {
        assert(longer@[0] == digits@[0]);
        assert(after =~= before.push(ch));
        assert(after.drop_last() =~= before);
        assert(after.last() == ch);
        if decimal::all_digits(after) {
            assert(decimal::is_digit(after[after.len() - 1]));
            assert forall|i: int| 0 <= i < before.len() implies decimal::is_digit(
                #[trigger] before[i],
            ) by {
                assert(after[i] == before[i]);
            }
        }
        if decimal::all_digits(before) && '0' <= ch <= '9' {
            assert forall|i: int| 0 <= i < after.len() implies decimal::is_digit(
                #[trigger] after[i],
            ) by {
                if i < before.len() {
                    assert(after[i] == before[i]);
                }
            }
        }
        if digits@ =~= seq!['+'] {
            assert(before =~= Seq::empty());
            assert(decimal::digits_value(before) == 0);
        } else if before.len() == 0 {
            assert(digits@.len() == 1 && digits@[0] == '+');
            assert(digits@ =~= seq!['+']);
        }
    }
}

/// A process number is read back from its notation.
pub proof fn law_number_read_back(value: u32, digits: String, read: &str, number: Option<u32>)
    requires
        call_ensures(decimal_text, (value,), digits),
        read@ == digits@,
        call_ensures(parsed_decimal, (read,), number),
    ensures
        number == Some(value),
{
    decimal::law_decimal_round_trip(value);
}

/// Whether the line, behind white space, is the assignment of `value` to the map of bridges.
pub open spec fn assigns_bridges(line: Seq<char>, value: Seq<char>) -> bool {
    exists|indent: Seq<char>|
        help::all_white(indent) && line == #[trigger] (indent + "BRIDGES = "@ + value)
}

/// A line holds the map of bridges exactly if it assigns a value to it.
proof fn lemma_bridge_line(line: Seq<char>)
    ensures
        cli::is_bridge_line(line) ==> exists|value: Seq<char>| assigns_bridges(line, value),
{
    if cli::is_bridge_line(line) {
        let indent = help::lemma_trim_start(line);
        let started = text::trim_start(line);
        let value = started.skip("BRIDGES = "@.len() as int);
        assert(started =~= "BRIDGES = "@ + value);
        assert(line =~= indent + "BRIDGES = "@ + value);
        assert(assigns_bridges(line, value));
    }
}

/// White space at the start of a text does not matter to trimming at the start.
proof fn lemma_trim_start_of_sum(white: Seq<char>, rest: Seq<char>)
    requires
        help::all_white(white),
        rest.len() > 0,
        !text::is_white_space(rest[0]),
    ensures
        text::trim_start(white + rest) == rest,
    decreases white.len(),
{
    if white.len() > 0 {
        assert((white + rest).skip(1) =~= white.skip(1) + rest);
        assert(text::is_white_space(white[0]));
        assert forall|i: int| 0 <= i < white.skip(1).len() implies text::is_white_space(
            #[trigger] white.skip(1)[i],
        ) by {
            assert(white.skip(1)[i] == white[i + 1]);
        }
        lemma_trim_start_of_sum(white.skip(1), rest);
    } else {
        assert(white + rest =~= rest);
    }
}

/// The source of a line that assigns a value is the value without white space around it.
proof fn lemma_assigned_source(line: Seq<char>, value: Seq<char>)
    requires
        assigns_bridges(line, value),
    ensures
        cli::is_bridge_line(line),
        cli::after_equals(line) == Some(seq![' '] + value),
{
    let indent = choose|indent: Seq<char>|
        help::all_white(indent) && line == #[trigger] (indent + "BRIDGES = "@ + value);
    reveal_strlit("BRIDGES = ");
    reveal_strlit("BRIDGES ");
    let rest = "BRIDGES = "@ + value;
    assert(line =~= indent + rest);
    lemma_trim_start_of_sum(indent, rest);
    assert(rest.take(10) =~= "BRIDGES = "@);
    let start = indent + "BRIDGES "@;
    assert(line =~= start + seq!['='] + (seq![' '] + value));
    assert forall|i: int| 0 <= i < start.len() implies start[i] != '=' by {
        if i < indent.len() {
            assert(text::is_white_space(indent[i]));
        }
    }
    read_back::lemma_after_equals(start, seq![' '] + value);
}

/// A carriage return at the end does not matter to what is read from a line.
proof fn lemma_return_is_white(line: Seq<char>)
    ensures
        cli::is_bridge_line(cli::without_return(line)) == cli::is_bridge_line(line),
        cli::is_bridge_line(line) ==> (match (
            cli::after_equals(line),
            cli::after_equals(cli::without_return(line)),
        ) {
            (Some(whole), Some(shorter)) => text::trim(whole) == text::trim(shorter),
            _ => false,
        }),
{
    let shorter = cli::without_return(line);
    if shorter != line {
        assert(line =~= shorter + seq!['\r']);
        reveal_strlit("BRIDGES = ");
        if cli::is_bridge_line(shorter) {
            lemma_bridge_line(shorter);
            let value = choose|value: Seq<char>| assigns_bridges(shorter, value);
            let indent = choose|indent: Seq<char>|
                help::all_white(indent) && shorter == #[trigger] (indent + "BRIDGES = "@ + value);
            assert(line =~= indent + "BRIDGES = "@ + value.push('\r'));
            assert(assigns_bridges(line, value.push('\r')));
            lemma_assigned_source(line, value.push('\r'));
            lemma_assigned_source(shorter, value);
            lemma_trim_return(seq![' '] + value);
            assert(seq![' '] + value.push('\r') =~= (seq![' '] + value).push('\r'));
        } else if cli::is_bridge_line(line) {
            lemma_bridge_line(line);
            let value = choose|value: Seq<char>| assigns_bridges(line, value);
            let indent = choose|indent: Seq<char>|
                help::all_white(indent) && line == #[trigger] (indent + "BRIDGES = "@ + value);
            assert(line.last() == '\r');
            if value.len() == 0 {
                assert(line.last() == "BRIDGES = "@.last());
            }
            assert(shorter =~= indent + "BRIDGES = "@ + value.drop_last());
            assert(assigns_bridges(shorter, value.drop_last()));
            lemma_assigned_source(shorter, value.drop_last());
        }
    } else if cli::is_bridge_line(line) {
        lemma_bridge_line(line);
        let value = choose|value: Seq<char>| assigns_bridges(line, value);
        lemma_assigned_source(line, value);
    }
}

/// Trimming takes a carriage return at the end away.
proof fn lemma_trim_return(source: Seq<char>)
    ensures
        text::trim(source.push('\r')) == text::trim(source),
    decreases source.len(),
{
    let longer = source.push('\r');
    if source.len() > 0 && text::is_white_space(source[0]) {
        assert(longer.skip(1) =~= source.skip(1).push('\r'));
        lemma_trim_return(source.skip(1));
    } else if source.len() == 0 {
        reveal_with_fuel(text::trim_start, 2);
        assert(longer.skip(1) =~= Seq::empty());
        assert(text::trim_start(longer) =~= Seq::empty());
        assert(text::trim_start(source) =~= Seq::empty());
    } else {
        assert(text::trim_start(longer) == longer);
        assert(longer.drop_last() =~= source);
    }
}

/// Whether the map of bridges is first found on line `k`, and `source` is read from it.
spec fn is_first_source(lines: Seq<Seq<char>>, k: int, source: Seq<char>) -> bool {
    &&& 0 <= k < lines.len()
    &&& cli::is_bridge_line(lines[k])
    &&& cli::after_equals(lines[k]) is Some
    &&& source == text::trim(cli::after_equals(lines[k])->Some_0)
    &&& forall|j: int| 0 <= j < k ==> !cli::is_bridge_line(#[trigger] lines[j])
}

/// The line that is found is the first that assigns a value; the value is what is read from it.
proof fn lemma_first_bridge_line(script: Seq<char>)
    ensures
        match cli::bridge_source(script) {
            Some(source) => exists|k: int| #[trigger]
                is_first_source(text::split(script, '\n'), k, source),
            None => forall|k: int|
                0 <= k < text::split(script, '\n').len() ==> !cli::is_bridge_line(
                    #[trigger] text::split(script, '\n')[k],
                ),
        },
    decreases script.len(),
{
    let lines = text::split(script, '\n');
    let head = text::before(script, '\n');
    text::lemma_before(script, '\n');
    text::lemma_split_one(head, '\n');
    lemma_return_is_white(head);
    if head.len() == script.len() {
        assert(script.take(script.len() as int) =~= script);
        assert(lines =~= seq![head]);
        assert(lines[0] == head);
        if script.len() == 0 {
            lemma_empty_line();
            assert(head =~= Seq::empty());
        } else if cli::is_bridge_line(head) {
            assert(is_first_source(lines, 0, cli::bridge_source(script)->Some_0));
        }
    } else {
        let rest = script.skip(head.len() as int + 1);
        assert(script =~= head + seq!['\n'] + rest);
        text::lemma_split_at(head, rest, '\n');
        let further = text::split(rest, '\n');
        assert(lines =~= seq![head] + further);
        assert(lines[0] == head);
        if cli::is_bridge_line(head) {
            assert(is_first_source(lines, 0, cli::bridge_source(script)->Some_0));
        } else {
            lemma_first_bridge_line(rest);
            assert(cli::bridge_line(script) == cli::bridge_line(rest));
            match cli::bridge_source(rest) {
                Some(source) => {
                    let k = choose|k: int| is_first_source(further, k, source);
                    assert(lines[k + 1] == further[k]);
                    assert forall|j: int| 0 <= j < k + 1 implies !cli::is_bridge_line(
                        #[trigger] lines[j],
                    ) by {
                        if j > 0 {
                            assert(lines[j] == further[j - 1]);
                        }
                    }
                    assert(is_first_source(lines, k + 1, source));
                },
                None => {
                    assert forall|k: int| 0 <= k < lines.len() implies !cli::is_bridge_line(
                        #[trigger] lines[k],
                    ) by {
                        if k > 0 {
                            assert(lines[k] == further[k - 1]);
                        }
                    }
                },
            }
        }
    }
}

/// An empty line does not hold the map of bridges.
proof fn lemma_empty_line()
    ensures
        !cli::is_bridge_line(Seq::empty()),
{
    reveal_strlit("BRIDGES = ");
}

/// The text of the map of bridges is what the first line that assigns a value to it assigns, without
/// the white space around it; a script without such a line has none.
pub proof fn law_bridge_source(script: &str, source: Option<String>)
    requires
        call_ensures(find_bridge_source, (script,), source),
    ensures
        source is None ==> forall|k: int, value: Seq<char>|
            0 <= k < text::split(script@, '\n').len() ==> !#[trigger] assigns_bridges(
                text::split(script@, '\n')[k],
                value,
            ),
        source matches Some(found) ==> help::no_white_ends(found@) && exists|
            k: int,
            value: Seq<char>,
        |
            {
                &&& 0 <= k < text::split(script@, '\n').len()
                &&& #[trigger] assigns_bridges(text::split(script@, '\n')[k], value)
                &&& found@ == text::trim(value)
                &&& forall|j: int, other: Seq<char>|
                    0 <= j < k ==> !#[trigger] assigns_bridges(
                        text::split(script@, '\n')[j],
                        other,
                    )
            },
{
    let lines = text::split(script@, '\n');
    lemma_first_bridge_line(script@);
    assert forall|k: int, value: Seq<char>| #[trigger]
        assigns_bridges(lines[k], value) implies cli::is_bridge_line(lines[k]) by {
        lemma_assigned_source(lines[k], value);
    }
    match source {
        Some(found) => {
            let k = choose|k: int| is_first_source(lines, k, found@);
            lemma_bridge_line(lines[k]);
            let value = choose|value: Seq<char>| assigns_bridges(lines[k], value);
            lemma_assigned_source(lines[k], value);
            assert((seq![' '] + value).skip(1) =~= value);
            assert(found@ == text::trim(value));
            help::lemma_trim(value);
        },
        None => {},
    }
}

/// The bridges that the scripts of a client record: its own bridge; and of the bridges that it is
/// given, the last of every other session. No session has two.
pub proof fn law_scripts_record_bridges(
    config: &GeneratorConfig,
    script: String,
    read: &str,
    entries: Vec<CliBridgeEntry>,
)
    requires
        call_ensures(render_unix_script, (config,), script) || call_ensures(
            render_windows_cmd,
            (config,),
            script,
        ),
        read@ == script@,
        call_ensures(recorded_bridge_entries, (read,), entries),
    ensures
        exists|i: int|
            0 <= i < entries@.len() && (#[trigger] entries@[i])@ == (BridgeView {
                session_pid: config.session_pid,
                bridge_url: config.bridge_url@,
                token: config.token@,
            }),
        forall|k: int|
            0 <= k < config.extra_cli_bridges@.len() && (
            #[trigger] config.extra_cli_bridges@[k]).session_pid != config.session_pid && (forall|
                j: int,
            |
                k < j < config.extra_cli_bridges@.len() ==> (
                #[trigger] config.extra_cli_bridges@[j]).session_pid
                    != config.extra_cli_bridges@[k].session_pid) ==> generator::bridge_views(
                entries@,
            ).contains(config.extra_cli_bridges@[k]@),
        forall|i: int|
            0 <= i < entries@.len() ==> (#[trigger] entries@[i]).session_pid == config.session_pid
                || generator::bridge_views(config.extra_cli_bridges@).contains(entries@[i]@),
        forall|i: int, j: int|
            0 <= i < j < entries@.len() ==> (#[trigger] entries@[i]).session_pid != (
            #[trigger] entries@[j]).session_pid,
{
    let extra = generator::bridge_views(config.extra_cli_bridges@);
    let known = program::known_bridges(config@);
    let latest = read_back::latest_bridges(known);
    let views = generator::bridge_views(entries@);
    let own = BridgeView {
        session_pid: config.session_pid,
        bridge_url: config.bridge_url@,
        token: config.token@,
    };
    assert(cli::is_script_of(read@, config@));
    assert(views == latest);
    read_back::law_latest_bridges(known);
    read_back::law_known_bridges(config@, config.session_pid);
    assert(latest.contains(own));
    let at = latest.index_of(own);
    assert(entries@[at]@ == views[at]);
    assert forall|k: int|
        0 <= k < config.extra_cli_bridges@.len() && (
        #[trigger] config.extra_cli_bridges@[k]).session_pid != config.session_pid && (forall|
            j: int,
        |
            k < j < config.extra_cli_bridges@.len() ==> (
            #[trigger] config.extra_cli_bridges@[j]).session_pid
                != config.extra_cli_bridges@[k].session_pid) implies views.contains(
        config.extra_cli_bridges@[k]@,
    ) by {
        assert forall|j: int| k < j < extra.len() implies (#[trigger] extra[j]).session_pid
            != extra[k].session_pid by {
            assert(config.extra_cli_bridges@[j].session_pid
                != config.extra_cli_bridges@[k].session_pid);
        }
        lemma_last_at(extra, k);
        read_back::law_known_bridges(config@, extra[k].session_pid);
        assert(latest.contains(extra[k]));
    }
    assert forall|i: int| 0 <= i < entries@.len() implies (#[trigger] entries@[i]).session_pid
        == config.session_pid || extra.contains(entries@[i]@) by {
        let entry = views[i];
        assert(latest.contains(entry));
        read_back::law_known_bridges(config@, entry.session_pid);
        read_back::lemma_last_bridge_session(extra, entry.session_pid);
    }
    assert forall|i: int, j: int| 0 <= i < j < entries@.len() implies (
    #[trigger] entries@[i]).session_pid != (#[trigger] entries@[j]).session_pid by {
        assert(views[i].session_pid != views[j].session_pid);
    }
}

/// The last bridge of its session is found.
proof fn lemma_last_at(bridges: Seq<BridgeView>, at: int)
    requires
        0 <= at < bridges.len(),
        forall|j: int|
            at < j < bridges.len() ==> (#[trigger] bridges[j]).session_pid
                != bridges[at].session_pid,
    ensures
        read_back::last_bridge_of(bridges, bridges[at].session_pid) == Some(bridges[at]),
    decreases bridges.len(),
{
    if at < bridges.len() - 1 {
        assert(bridges[bridges.len() - 1].session_pid != bridges[at].session_pid);
        lemma_last_at(bridges.drop_last(), at);
    }
}

/// Where the bridges that a client is given belong to distinct sessions, none of them its own, its
/// scripts record them in their order, and then its own.
pub proof fn law_scripts_keep_order(
    config: &GeneratorConfig,
    script: String,
    read: &str,
    entries: Vec<CliBridgeEntry>,
)
    requires
        call_ensures(render_unix_script, (config,), script) || call_ensures(
            render_windows_cmd,
            (config,),
            script,
        ),
        read@ == script@,
        call_ensures(recorded_bridge_entries, (read,), entries),
        forall|i: int|
            0 <= i < config.extra_cli_bridges@.len() ==> (
            #[trigger] config.extra_cli_bridges@[i]).session_pid != config.session_pid,
        forall|i: int, j: int|
            0 <= i < j < config.extra_cli_bridges@.len() ==> (
            #[trigger] config.extra_cli_bridges@[i]).session_pid != (
            #[trigger] config.extra_cli_bridges@[j]).session_pid,
    ensures
        generator::bridge_views(entries@) == generator::bridge_views(
            config.extra_cli_bridges@,
        ).push(
            BridgeView {
                session_pid: config.session_pid,
                bridge_url: config.bridge_url@,
                token: config.token@,
            },
        ),
{
    let extra = generator::bridge_views(config.extra_cli_bridges@);
    let foreign = |entry: BridgeView| entry.session_pid != config.session_pid;
    let known = program::known_bridges(config@);
    assert forall|i: int| 0 <= i < extra.len() implies #[trigger] foreign(extra[i]) by {
        assert(config.extra_cli_bridges@[i].session_pid != config.session_pid);
    }
    lemma_filter_all(extra, foreign);
    assert(known == extra.push(known.last()));
    assert forall|i: int, j: int| 0 <= i < j < known.len() implies (
    #[trigger] known[i]).session_pid != (#[trigger] known[j]).session_pid by {
        assert(config.extra_cli_bridges@[i].session_pid != config.session_pid);
        if j < extra.len() {
            assert(config.extra_cli_bridges@[i].session_pid
                != config.extra_cli_bridges@[j].session_pid);
        }
    }
    lemma_latest_of_distinct(known);
    assert(cli::is_script_of(read@, config@));
}

/// A filter that all pass changes nothing.
proof fn lemma_filter_all(bridges: Seq<BridgeView>, pass: spec_fn(BridgeView) -> bool)
    requires
        forall|i: int| 0 <= i < bridges.len() ==> pass(#[trigger] bridges[i]),
    ensures
        bridges.filter(pass) == bridges,
    decreases bridges.len(),
{
    reveal(Seq::filter);
    if bridges.len() > 0 {
        let shorter = bridges.drop_last();
        assert forall|i: int| 0 <= i < shorter.len() implies pass(#[trigger] shorter[i]) by {
            assert(shorter[i] == bridges[i]);
        }
        lemma_filter_all(shorter, pass);
        assert(pass(bridges[bridges.len() - 1]));
        assert(shorter.push(bridges.last()) =~= bridges);
    }
}

/// Bridges of distinct sessions are all the latest.
proof fn lemma_latest_of_distinct(bridges: Seq<BridgeView>)
    requires
        read_back::distinct_sessions(bridges),
    ensures
        read_back::latest_bridges(bridges) == bridges,
    decreases bridges.len(),
{
    if bridges.len() > 0 {
        let shorter = bridges.drop_last();
        assert forall|i: int, j: int| 0 <= i < j < shorter.len() implies (
        #[trigger] shorter[i]).session_pid != (#[trigger] shorter[j]).session_pid by {
            assert(bridges[i].session_pid != bridges[j].session_pid);
        }
        lemma_latest_of_distinct(shorter);
        assert forall|i: int| 0 <= i < shorter.len() implies (#[trigger] shorter[i]).session_pid
            != bridges.last().session_pid by {
            assert(bridges[i].session_pid != bridges[bridges.len() - 1].session_pid);
        }
        lemma_put_last(shorter, bridges.last());
        assert(shorter.push(bridges.last()) =~= bridges);
    }
}

/// A bridge of a new session comes last.
proof fn lemma_put_last(bridges: Seq<BridgeView>, entry: BridgeView)
    requires
        forall|i: int|
            0 <= i < bridges.len() ==> (#[trigger] bridges[i]).session_pid != entry.session_pid,
    ensures
        read_back::put_bridge(bridges, entry) == bridges.push(entry),
    decreases bridges.len(),
{
    if bridges.len() > 0 {
        let rest = bridges.skip(1);
        assert forall|i: int| 0 <= i < rest.len() implies (#[trigger] rest[i]).session_pid
            != entry.session_pid by {
            assert(rest[i] == bridges[i + 1]);
        }
        lemma_put_last(rest, entry);
    }
    assert(read_back::put_bridge(bridges, entry) =~= bridges.push(entry));
}

/// The bridges that a script records are those in the JSON value that its text of the map of bridges
/// gives; without the text, or without a value, there are none.
pub proof fn law_recorded_bridges(
    script: &str,
    source: Option<String>,
    read: &str,
    parsed: Option<Json>,
    recorded: Vec<CliBridgeEntry>,
)
    requires
        call_ensures(find_bridge_source, (script,), source),
        source matches Some(found) ==> read@ == found@,
        call_ensures(parse_json, (read,), parsed),
        call_ensures(recorded_bridge_entries, (script,), recorded),
    ensures
        source is None || parsed is None ==> recorded@.len() == 0,
        source is Some && parsed is Some ==> forall|inside: Vec<CliBridgeEntry>| #[trigger]
            call_ensures(bridge_entries_in, (&parsed->Some_0,), inside) ==> generator::bridge_views(
                recorded@,
            ) == generator::bridge_views(inside@),
{
    assert(generator::bridge_views(recorded@).len() == recorded@.len());
}

}
