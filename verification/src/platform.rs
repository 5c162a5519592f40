//! The platforms on which generated clients run, and the paths of their files.

use vstd::prelude::*;

use crate::text;

verus! {

/// The platform on which a generated client runs.
#[derive(Debug, Clone, Copy, PartialEq, Eq, Structural)]
pub enum Platform {
    Unix,
    Windows,
}

/// Whether the character separates the parts of a path on the platform.
pub open spec fn separates_path(platform: Platform, ch: char) -> bool {
    ch == '/' || (platform == Platform::Windows && ch == '\\')
}

/// The number of characters of the drive with which a path starts: a letter and a colon, on
/// Windows.
pub open spec fn drive_len(platform: Platform, path: Seq<char>) -> nat {
    if platform == Platform::Windows && path.len() >= 2 && path[1] == ':' && ('a' <= path[0]
        <= 'z' || 'A' <= path[0] <= 'Z') {
        2
    } else {
        0
    }
}

/// The number of characters before the first separator.
pub open spec fn part_len(platform: Platform, path: Seq<char>) -> nat
    decreases path.len(),
{
    if path.len() == 0 || separates_path(platform, path[0]) {
        0
    } else {
        1 + part_len(platform, path.skip(1))
    }
}

/// The number of characters of the network share with which a path starts: two separators, the
/// name of the server, a separator and the name of the share, on Windows.
pub open spec fn share_len(platform: Platform, path: Seq<char>) -> nat {
    let server = part_len(platform, path.skip(2));
    if server == 0 || 2 + server >= path.len() {
        0
    } else {
        let share = part_len(platform, path.skip(3 + server as int));
        if share == 0 {
            0
        } else {
            3 + server + share
        }
    }
}

/// Whether a path is verbatim: it starts with two backslashes, a question mark and a backslash, on
/// Windows. In a verbatim path slashes do not separate parts.
pub open spec fn is_verbatim(platform: Platform, path: Seq<char>) -> bool {
    &&& platform == Platform::Windows
    &&& text::starts_with(path, seq!['\\', '\\', '?', '\\'])
}

/// The number of characters of the start of a verbatim path that names a server and a share, a
/// drive, or something else.
pub open spec fn verbatim_len(path: Seq<char>) -> nat {
    let rest = path.skip(4);
    if rest.len() >= 4 && rest[0] == 'U' && rest[1] == 'N' && rest[2] == 'C' && separates_path(
        Platform::Windows,
        rest[3],
    ) {
        let server = text::before(path.skip(8), '\\').len();
        let share = if 8 + server < path.len() {
            text::before(path.skip(9 + server as int), '\\').len()
        } else {
            0
        };
        if share > 0 {
            9 + server + share
        } else {
            8 + server
        }
    } else if drive_len(Platform::Windows, rest) > 0 && (rest.len() == 2 || separates_path(
        Platform::Windows,
        rest[2],
    )) {
        6
    } else {
        4 + text::before(rest, '\\').len()
    }
}

/// The number of characters of the drive, the network share, the device or the verbatim start with
/// which a path starts, on Windows.
pub open spec fn prefix_len(platform: Platform, path: Seq<char>) -> nat {
    if is_verbatim(platform, path) {
        verbatim_len(path)
    } else if platform == Platform::Windows && path.len() >= 2 && separates_path(platform, path[0])
        && separates_path(platform, path[1]) {
        if path.len() >= 4 && path[2] == '.' && separates_path(platform, path[3]) {
            4 + part_len(platform, path.skip(4))
        } else {
            share_len(platform, path)
        }
    } else {
        drive_len(platform, path)
    }
}

/// Whether a path stands for itself wherever it is looked up: it starts with a separator on Unix,
/// and with a drive, a network share or the like on Windows.
pub open spec fn stands_alone(platform: Platform, path: Seq<char>) -> bool {
    match platform {
        Platform::Unix => path.len() > 0 && separates_path(platform, path[0]),
        Platform::Windows => prefix_len(platform, path) > 0,
    }
}

/// Whether a name can follow the directory without a separator between them.
pub open spec fn needs_no_separator(platform: Platform, dir: Seq<char>) -> bool {
    ||| dir.len() == drive_len(platform, dir)
    ||| separates_path(platform, dir.last())
}

/// The path with backslashes in the place of its slashes.
pub open spec fn backslashed(path: Seq<char>) -> Seq<char> {
    path.map_values(
        |ch: char|
            if ch == '/' {
                '\\'
            } else {
                ch
            },
    )
}

/// The parts that are not empty.
pub open spec fn nonempty_parts(parts: Seq<Seq<char>>) -> Seq<Seq<char>>
    decreases parts.len(),
{
    if parts.len() == 0 {
        Seq::empty()
    } else if parts.last().len() == 0 {
        nonempty_parts(parts.drop_last())
    } else {
        nonempty_parts(parts.drop_last()).push(parts.last())
    }
}

/// Whether the part stands for the directory that it is in.
pub open spec fn is_current(part: Seq<char>) -> bool {
    part == seq!['.']
}

/// Whether the part stands for the directory above the one that it is in.
pub open spec fn is_parent(part: Seq<char>) -> bool {
    part == seq!['.', '.']
}

/// The parts of a path, and then one more: a part for the directory itself adds nothing, and one
/// for the directory above takes the last name away.
pub open spec fn descend(parts: Seq<Seq<char>>, next: Seq<char>) -> Seq<Seq<char>> {
    if next.len() == 0 || is_current(next) {
        parts
    } else if is_parent(next) {
        if parts.len() > 0 && !is_current(parts.last()) && !is_parent(parts.last()) {
            parts.drop_last()
        } else {
            parts
        }
    } else {
        parts.push(next)
    }
}

/// The parts of a path, and then more.
pub open spec fn descend_all(parts: Seq<Seq<char>>, more: Seq<Seq<char>>) -> Seq<Seq<char>>
    decreases more.len(),
{
    if more.len() == 0 {
        parts
    } else {
        descend(descend_all(parts, more.drop_last()), more.last())
    }
}

/// The parts of a verbatim directory behind its start.
pub open spec fn verbatim_parts(dir: Seq<char>) -> Seq<Seq<char>> {
    if verbatim_len(dir) < dir.len() {
        nonempty_parts(text::split(dir.skip(verbatim_len(dir) as int + 1), '\\'))
    } else {
        Seq::empty()
    }
}

/// The verbatim path with the given start and parts. `rooted` tells whether a backslash follows
/// the start even if there are no parts.
pub open spec fn verbatim_path(start: Seq<char>, rooted: bool, parts: Seq<Seq<char>>) -> Seq<char> {
    if rooted || parts.len() > 0 {
        start + seq!['\\'] + text::join(parts, seq!['\\'])
    } else {
        start
    }
}

/// The path of a name that does not stand alone in a verbatim directory. Since the parts of a
/// verbatim path are taken as they are, the name is resolved: what stands in it for a directory
/// itself or for the one above does not enter the path.
pub open spec fn join_verbatim(dir: Seq<char>, name: Seq<char>) -> Seq<char> {
    let start = dir.take(verbatim_len(dir) as int);
    let more = text::split(backslashed(name), '\\');
    if separates_path(Platform::Windows, name[0]) {
        verbatim_path(start, true, descend_all(Seq::empty(), more))
    } else {
        verbatim_path(
            start,
            verbatim_len(dir) < dir.len(),
            descend_all(verbatim_parts(dir), more),
        )
    }
}

/// The path of `name` in the directory `dir`. A name that stands alone is its own path; one that
/// starts with a separator on Windows is looked up on the drive or the share of the directory.
pub open spec fn join(platform: Platform, dir: Seq<char>, name: Seq<char>) -> Seq<char> {
    if stands_alone(platform, name) {
        name
    } else if is_verbatim(platform, dir) && name.len() > 0 {
        join_verbatim(dir, name)
    } else if name.len() > 0 && separates_path(platform, name[0]) {
        dir.take(prefix_len(platform, dir) as int) + name
    } else if needs_no_separator(platform, dir) {
        dir + name
    } else {
        match platform {
            Platform::Unix => dir + seq!['/'] + name,
            Platform::Windows => dir + seq!['\\'] + name,
        }
    }
}

/// The path of a plain name in a directory that is not verbatim starts with the directory and ends
/// with the name.
pub proof fn law_join_inside(platform: Platform, dir: Seq<char>, name: Seq<char>)
    requires
        name.len() > 0 ==> !separates_path(platform, name[0]) && drive_len(platform, name) == 0,
        !is_verbatim(platform, dir),
    ensures
        text::starts_with(join(platform, dir, name), dir),
        join(platform, dir, name).len() >= dir.len() + name.len(),
        join(platform, dir, name).skip(join(platform, dir, name).len() - name.len()) == name,
{
    let path = join(platform, dir, name);
    if is_verbatim(platform, name) {
        assert(name.take(4)[0] == '\\');
    }
    assert(path.take(dir.len() as int) =~= dir);
    assert(path.skip(path.len() - name.len()) =~= name);
}

/// The path of a single name in a verbatim directory consists of the start of the directory, its
/// parts, and the name.
pub proof fn law_join_inside_verbatim(dir: Seq<char>, name: Seq<char>)
    requires
        is_verbatim(Platform::Windows, dir),
        name.len() > 0,
        forall|i: int| 0 <= i < name.len() ==> #[trigger] name[i] != '/' && name[i] != '\\',
        drive_len(Platform::Windows, name) == 0,
        !is_current(name),
        !is_parent(name),
    ensures
        join(Platform::Windows, dir, name) == verbatim_path(
            dir.take(verbatim_len(dir) as int),
            true,
            verbatim_parts(dir).push(name),
        ),
{
    if is_verbatim(Platform::Windows, name) {
        assert(name.take(4)[0] == '\\');
    }
    assert(backslashed(name) =~= name);
    text::lemma_split_one(name, '\\');
    assert(seq![name].drop_last() =~= Seq::empty());
    reveal_with_fuel(descend_all, 2);
}

/// Whether the text is a path of at most one name on every platform: no separator and no colon
/// stands in it.
pub open spec fn is_single_name(path: Seq<char>) -> bool {
    !path.contains('/') && !path.contains('\\') && !path.contains(':')
}

/// Whether `same` may be the answer to whether two paths are equal. What the parts of a path are
/// depends on the machine; on every machine a path is equal to itself, two single names are equal
/// only if they are the same, and a slash behind a single name does not matter.
pub open spec fn is_path_equality(left: Seq<char>, right: Seq<char>, same: bool) -> bool {
    &&& left == right ==> same
    &&& is_single_name(left) && is_single_name(right) ==> same == (left == right)
    &&& is_single_name(left) && left.len() > 0 && right == left.push('/') ==> same
    &&& is_single_name(right) && right.len() > 0 && left == right.push('/') ==> same
}

/// `==` of `std::path::Path`: whether two paths have the same components on this machine. What is
/// claimed of it is what holds on every machine.
#[verifier::external_body]
pub(crate) fn same_path(left: &str, right: &str) -> (same: bool)
    ensures
        is_path_equality(left@, right@, same),
{
    std::path::Path::new(left) == std::path::Path::new(right)
}

/// Decides `separates_path`.
fn is_separator(platform: Platform, ch: char) -> (separator: bool)
    ensures
        separator == separates_path(platform, ch),
{
    ch == '/' || (platform == Platform::Windows && ch == '\\')
}

/// The number of characters of the drive with which a path starts.
fn drive_length(platform: Platform, path: &Vec<char>) -> (length: usize)
    ensures
        length == drive_len(platform, path@),
{
    if platform == Platform::Windows && path.len() >= 2 && path[1] == ':' && (('a' <= path[0]
        && path[0] <= 'z') || ('A' <= path[0] && path[0] <= 'Z')) {
        2
    } else {
        0
    }
}

/// The first position from `from` on that holds a separator, or else the end.
fn part_end(platform: Platform, path: &Vec<char>, from: usize) -> (end: usize)
    requires
        from <= path@.len(),
    ensures
        from <= end <= path@.len(),
        end - from == part_len(platform, path@.skip(from as int)),
{
    let mut end: usize = from;
    while end < path.len() && !is_separator(platform, path[end])
        invariant
            from <= end <= path@.len(),
            end - from + part_len(platform, path@.skip(end as int)) == part_len(
                platform,
                path@.skip(from as int),
            ),
        decreases path@.len() - end,
    {
        assert(path@.skip(end as int).skip(1) =~= path@.skip(end + 1));
        end = end + 1;
    }
    end
}

/// The number of characters of the start of a verbatim path.
fn verbatim_length(path: &Vec<char>) -> (length: usize)
    requires
        path@.len() >= 4,
    ensures
        length == verbatim_len(path@),
        length <= path@.len(),
{
    let windows = Platform::Windows;
    if path.len() >= 8 && path[4] == 'U' && path[5] == 'N' && path[6] == 'C' && is_separator(
        windows,
        path[7],
    ) {
        let server_end: usize = text::position_of(path, 8, '\\');
        if server_end < path.len() {
            let share_end: usize = text::position_of(path, server_end + 1, '\\');
            if share_end > server_end + 1 {
                return share_end;
            }
        }
        return server_end;
    }
    if path.len() >= 6 && path[5] == ':' && (('a' <= path[4] && path[4] <= 'z') || ('A' <= path[4]
        && path[4] <= 'Z')) && (path.len() == 6 || is_separator(windows, path[6])) {
        return 6;
    }
    text::position_of(path, 4, '\\')
}

/// Decides `is_verbatim`.
fn verbatim(platform: Platform, path: &Vec<char>) -> (found: bool)
    ensures
        found == is_verbatim(platform, path@),
{
    let ghost start = seq!['\\', '\\', '?', '\\'];
    let found = platform == Platform::Windows && path.len() >= 4 && path[0] == '\\' && path[1]
        == '\\' && path[2] == '?' && path[3] == '\\';
    proof {
        if found {
            assert(path@.take(4) =~= start);
        } else if path@.len() >= 4 {
            let taken = path@.take(4);
            assert(taken[0] == path@[0] && taken[1] == path@[1] && taken[2] == path@[2] && taken[3]
                == path@[3]);
            assert(start[0] == '\\' && start[1] == '\\' && start[2] == '?' && start[3] == '\\');
        }
    }
    found
}

/// The number of characters of what stands before the parts of a path.
fn prefix_length(platform: Platform, path: &Vec<char>) -> (length: usize)
    ensures
        length == prefix_len(platform, path@),
        length <= path@.len(),
{
    if verbatim(platform, path) {
        return verbatim_length(path);
    }
    if platform == Platform::Windows && path.len() >= 2 && is_separator(platform, path[0])
        && is_separator(platform, path[1]) {
        if path.len() >= 4 && path[2] == '.' && is_separator(platform, path[3]) {
            return part_end(platform, path, 4);
        }
        let server_end: usize = part_end(platform, path, 2);
        if server_end == 2 || server_end == path.len() {
            return 0;
        }
        let share_end: usize = part_end(platform, path, server_end + 1);
        if share_end == server_end + 1 {
            return 0;
        }
        return share_end;
    }
    drive_length(platform, path)
}

/// Adds parts to the parts of a path.
fn push_parts(parts: &mut Vec<String>, more: &Vec<String>)
    ensures
        text::texts(final(parts)@) == descend_all(text::texts(old(parts)@), text::texts(more@)),
{
    let ghost start = text::texts(parts@);
    let ghost added = text::texts(more@);
    let mut i: usize = 0;
    while i < more.len()
        invariant
            0 <= i <= more@.len(),
            added == text::texts(more@),
            text::texts(parts@) == descend_all(start, added.take(i as int)),
        decreases more@.len() - i,
    {
        let ghost above = text::texts(parts@);
        let next = more[i].as_str();
        proof {
            let longer = added.take(i + 1);
            assert(longer.drop_last() =~= added.take(i as int));
            assert(longer.last() == next@);
            assert(above.len() == parts@.len());
        }
        let chars = text::chars_of(next);
        if two_dots(&chars) {
            if parts.len() > 0 {
                let last = text::chars_of(parts[parts.len() - 1].as_str());
                assert(last@ == above.last());
                if !one_dot(&last) && !two_dots(&last) {
                    parts.pop();
                    assert(text::texts(parts@) =~= above.drop_last());
                }
            }
        } else if chars.len() > 0 && !one_dot(&chars) {
            parts.push(more[i].clone());
            assert(text::texts(parts@) =~= above.push(next@));
        }
        i = i + 1;
    }
    assert(added.take(added.len() as int) =~= added);
}

/// Decides `is_current`.
fn one_dot(part: &Vec<char>) -> (found: bool)
    ensures
        found == is_current(part@),
{
    let found = part.len() == 1 && part[0] == '.';
    proof {
        if found {
            assert(part@ =~= seq!['.']);
        } else if is_current(part@) {
            assert(part@[0] == '.');
        }
    }
    found
}

/// Decides `is_parent`.
fn two_dots(part: &Vec<char>) -> (found: bool)
    ensures
        found == is_parent(part@),
{
    let found = part.len() == 2 && part[0] == '.' && part[1] == '.';
    proof {
        if found {
            assert(part@ =~= seq!['.', '.']);
        } else if is_parent(part@) {
            assert(part@[0] == '.' && part@[1] == '.');
        }
    }
    found
}

/// The parts of a list that are not empty.
fn keep_nonempty(parts: &Vec<String>) -> (kept: Vec<String>)
    ensures
        text::texts(kept@) == nonempty_parts(text::texts(parts@)),
{
    let ghost all = text::texts(parts@);
    let mut kept: Vec<String> = Vec::new();
    let mut i: usize = 0;
    assert(text::texts(kept@) =~= nonempty_parts(all.take(0)));
    while i < parts.len()
        invariant
            0 <= i <= parts@.len(),
            all == text::texts(parts@),
            text::texts(kept@) == nonempty_parts(all.take(i as int)),
        decreases parts@.len() - i,
    {
        let ghost above = text::texts(kept@);
        proof {
            let longer = all.take(i + 1);
            assert(longer.drop_last() =~= all.take(i as int));
            assert(longer.last() == parts@[i as int]@);
        }
        if !parts[i].as_str().is_empty() {
            kept.push(parts[i].clone());
            assert(text::texts(kept@) =~= above.push(parts@[i as int]@));
        }
        i = i + 1;
    }
    assert(all.take(all.len() as int) =~= all);
    kept
}

/// The path of a name that does not stand alone in a verbatim directory.
fn join_verbatim_path(dir: &Vec<char>, name: &Vec<char>) -> (path: String)
    requires
        dir@.len() >= 4,
        name@.len() > 0,
    ensures
        path@ == join_verbatim(dir@, name@),
{
    let start_len: usize = verbatim_length(dir);
    let mut path = text::string_of(dir, 0, start_len);
    let ghost start = dir@.take(start_len as int);
    assert(path@ =~= start);
    let mut uniform: Vec<char> = Vec::new();
    let mut i: usize = 0;
    while i < name.len()
        invariant
            0 <= i <= name@.len(),
            uniform@ == backslashed(name@).take(i as int),
        decreases name@.len() - i,
    {
        uniform.push(
            if name[i] == '/' {
                '\\'
            } else {
                name[i]
            },
        );
        assert(uniform@ =~= backslashed(name@).take(i + 1));
        i = i + 1;
    }
    assert(uniform@ =~= backslashed(name@));
    assert(uniform@.skip(0) =~= uniform@);
    let more = text::split_parts(&uniform, 0, '\\');
    let name_rooted = is_separator(Platform::Windows, name[0]);
    let rooted = name_rooted || start_len < dir.len();
    let mut parts: Vec<String> = Vec::new();
    assert(text::texts(parts@) =~= Seq::empty());
    if !name_rooted && start_len < dir.len() {
        parts = keep_nonempty(&text::split_parts(dir, start_len + 1, '\\'));
    }
    push_parts(&mut parts, &more);
    let ghost resolved = text::texts(parts@);
    assert(resolved.len() == parts@.len());
    if rooted || parts.len() > 0 {
        path.push('\\');
        proof {
            reveal_strlit("\\");
            assert("\\"@ =~= seq!['\\']);
        }
        path.append(text::joined(&parts, "\\").as_str());
        assert(path@ =~= start + seq!['\\'] + text::join(resolved, seq!['\\']));
    }
    path
}

/// The path of `name` in the directory `dir`.
pub fn join_path(platform: Platform, dir: &str, name: &str) -> (path: String)
    ensures
        path@ == join(platform, dir@, name@),
{
    let dir_chars = text::chars_of(dir);
    let name_chars = text::chars_of(name);
    let rooted = name_chars.len() > 0 && is_separator(platform, name_chars[0]);
    let alone = match platform {
        Platform::Unix => rooted,
        Platform::Windows => prefix_length(platform, &name_chars) > 0,
    };
    if alone {
        return String::from_str(name);
    }
    if name_chars.len() > 0 && verbatim(platform, &dir_chars) {
        return join_verbatim_path(&dir_chars, &name_chars);
    }
    if rooted {
        let prefix: usize = prefix_length(platform, &dir_chars);
        let mut path = text::string_of(&dir_chars, 0, prefix);
        path.append(name);
        assert(dir_chars@.subrange(0, prefix as int) =~= dir@.take(prefix as int));
        return path;
    }
    let mut path = String::from_str(dir);
    let drive: usize = drive_length(platform, &dir_chars);
    if dir_chars.len() != drive && !is_separator(platform, dir_chars[dir_chars.len() - 1]) {
        match platform {
            Platform::Unix => path.push('/'),
            Platform::Windows => path.push('\\'),
        }
    }
    path.append(name);
    assert(path@ =~= join(platform, dir@, name@));
    path
}

}
