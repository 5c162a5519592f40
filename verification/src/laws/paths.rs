//! Paths of generated files, and the variables that make them found.

use vstd::prelude::*;

use crate::client_gen::generator;
use crate::client_gen::generator::{artifact_map, ArtifactView, GeneratedArtifact};
use crate::entries;
use crate::ffi::host_transform::{artifact_paths, path_environment};
use crate::platform;
use crate::platform::{join_path, Platform};
use crate::sorted_map::SortedMap;
use crate::text;

verus! {

/// On Unix a name that starts with a slash is its own path; any other follows the directory, behind
/// a slash unless the directory is empty or ends with one.
pub proof fn law_unix_path(dir: &str, name: &str, path: String)
    requires
        call_ensures(join_path, (Platform::Unix, dir, name), path),
    ensures
        name@.len() > 0 && name@[0] == '/' ==> path@ == name@,
        (name@.len() == 0 || name@[0] != '/') && (dir@.len() == 0 || dir@.last() == '/')
            ==> path@ == dir@ + name@,
        (name@.len() == 0 || name@[0] != '/') && dir@.len() > 0 && dir@.last() != '/' ==> path@
            == dir@ + seq!['/'] + name@,
{
}

/// Whether the path starts with a letter and a colon.
pub open spec fn starts_with_drive(path: Seq<char>) -> bool {
    path.len() >= 2 && path[1] == ':' && ('a' <= path[0] <= 'z' || 'A' <= path[0] <= 'Z')
}

/// Whether the path starts with a slash or a backslash.
pub open spec fn starts_with_separator(path: Seq<char>) -> bool {
    path.len() > 0 && (path[0] == '/' || path[0] == '\\')
}

/// On Windows a name that starts with a drive is its own path. In a directory that does not start
/// with a separator, a name that starts with one is looked up on the drive of the directory; any
/// other follows the directory, behind a backslash unless the directory is empty, is a drive, or
/// ends with a separator.
pub proof fn law_windows_path(dir: &str, name: &str, path: String)
    requires
        call_ensures(join_path, (Platform::Windows, dir, name), path),
    ensures
        starts_with_drive(name@) ==> path@ == name@,
        !starts_with_separator(dir@) && starts_with_separator(name@) && !starts_with_separator(
            name@.skip(1),
        ) ==> path@ == if starts_with_drive(dir@) {
            dir@.take(2) + name@
        } else {
            name@
        },
        !starts_with_separator(dir@) && !starts_with_separator(name@) && !starts_with_drive(name@)
            ==> path@ == if dir@.len() == 0 || (dir@.len() == 2 && starts_with_drive(dir@))
            || dir@.last() == '/' || dir@.last() == '\\' {
            dir@ + name@
        } else {
            dir@ + seq!['\\'] + name@
        },
{
    if platform::is_verbatim(Platform::Windows, name@) {
        assert(name@.take(4)[0] == '\\' && name@.take(4)[1] == '\\');
    }
    if platform::is_verbatim(Platform::Windows, dir@) {
        assert(dir@.take(4)[0] == '\\');
    }
    if name@.len() > 1 {
        assert(name@.skip(1)[0] == name@[1]);
    }
    assert(dir@.take(0) + name@ =~= name@);
}

/// On Windows a name that starts with a network share is its own path: two separators, the name of a
/// server, a separator and the name of a share.
pub proof fn law_windows_share(
    dir: &str,
    name: &str,
    first: char,
    second: char,
    server: Seq<char>,
    third: char,
    share: Seq<char>,
    path: String,
)
    requires
        first == '/' || first == '\\',
        second == '/' || second == '\\',
        third == '/' || third == '\\',
        server.len() > 0 && share.len() > 0,
        !server.contains('/') && !server.contains('\\'),
        !share.contains('/') && !share.contains('\\'),
        server != seq!['?'] && server != seq!['.'],
        name@ == seq![first, second] + server + seq![third] + share,
        call_ensures(join_path, (Platform::Windows, dir, name), path),
    ensures
        path@ == name@,
{
    let windows = Platform::Windows;
    if platform::is_verbatim(windows, name@) {
        assert(name@.take(4)[2] == '?' && name@.take(4)[3] == '\\');
        assert(name@[2] == '?' && name@[3] == '\\');
        if server.len() > 1 {
            assert(server.contains(server[1]));
        }
        assert(server =~= seq!['?']);
    }
    if name@[2] == '.' && platform::separates_path(windows, name@[3]) {
        if server.len() > 1 {
            assert(server.contains(server[1]));
        }
        assert(server =~= seq!['.']);
    }
    let behind = name@.skip(2);
    assert(behind =~= server + (seq![third] + share));
    lemma_part(server, seq![third] + share);
    assert(name@.skip(3 + server.len() as int) =~= share + Seq::empty());
    lemma_part(share, Seq::empty());
}

/// The first part of a path ends at the first separator.
proof fn lemma_part(part: Seq<char>, rest: Seq<char>)
    requires
        !part.contains('/') && !part.contains('\\'),
        rest.len() == 0 || rest[0] == '/' || rest[0] == '\\',
    ensures
        platform::part_len(Platform::Windows, part + rest) == part.len(),
    decreases part.len(),
{
    let whole = part + rest;
    if part.len() > 0 {
        let shorter = part.skip(1);
        assert(part.contains(part[0]));
        assert forall|i: int| 0 <= i < shorter.len() implies shorter[i] != '/' && shorter[i]
            != '\\' by {
            assert(part.contains(part[i + 1]));
        }
        assert(whole.skip(1) =~= shorter + rest);
        lemma_part(shorter, rest);
    }
}

/// In a verbatim directory on a drive a single name follows the directory behind a backslash.
pub proof fn law_verbatim_path(dir: &str, letter: char, part: Seq<char>, name: &str, path: String)
    requires
        'a' <= letter <= 'z' || 'A' <= letter <= 'Z',
        part.len() > 0 && !part.contains('\\'),
        dir@ == seq!['\\', '\\', '?', '\\', letter, ':', '\\'] + part,
        name@.len() > 0,
        !name@.contains('/') && !name@.contains('\\'),
        !starts_with_drive(name@),
        name@ != seq!['.'] && name@ != seq!['.', '.'],
        call_ensures(join_path, (Platform::Windows, dir, name), path),
    ensures
        path@ == dir@ + seq!['\\'] + name@,
{
    let start = seq!['\\', '\\', '?', '\\'];
    assert(dir@.take(4) =~= start);
    assert forall|i: int| 0 <= i < name@.len() implies #[trigger] name@[i] != '/' && name@[i]
        != '\\' by {
        assert(name@.contains(name@[i]));
    }
    platform::law_join_inside_verbatim(dir@, name@);
    let rest = dir@.skip(4);
    assert(rest[0] == letter && rest[1] == ':' && rest[2] == '\\');
    assert(platform::verbatim_len(dir@) == 6);
    assert(dir@.skip(7) =~= part);
    text::lemma_split_one(part, '\\');
    reveal_with_fuel(platform::nonempty_parts, 2);
    assert(seq![part].drop_last() =~= Seq::empty());
    assert(platform::verbatim_parts(dir@) =~= seq![part]);
    let parts = seq![part].push(name@);
    assert(parts.drop_last() =~= seq![part]);
    reveal_with_fuel(text::join, 2);
    assert(text::join(parts, seq!['\\']) =~= part + seq!['\\'] + name@);
    assert(path@ =~= dir@ + seq!['\\'] + name@);
}

/// Each generated file has the path of its name in the directory, in order.
pub proof fn law_artifact_paths(
    platform: Platform,
    artifacts: &Vec<GeneratedArtifact>,
    dir: &str,
    paths: Vec<String>,
)
    requires
        call_ensures(artifact_paths, (platform, artifacts, dir), paths),
    ensures
        paths@.len() == artifacts@.len(),
        forall|i: int, name: &str, path: String|
            0 <= i < artifacts@.len() && name@ == artifacts@[i].file_name@
                && #[trigger] call_ensures(join_path, (platform, dir, name), path) ==> (
            #[trigger] paths@[i])@ == path@,
{
    assert(text::texts(paths@).len() == paths@.len());
    assert forall|i: int, name: &str, path: String|
        0 <= i < artifacts@.len() && name@ == artifacts@[i].file_name@ && #[trigger] call_ensures(
            join_path,
            (platform, dir, name),
            path,
        ) implies (#[trigger] paths@[i])@ == path@ by {
        assert(text::texts(paths@)[i] == paths@[i]@);
    }
}

/// The files of a client stand under their names: each name holds the contents of the last file that
/// has it, and nothing else has contents.
pub proof fn law_artifact_map(artifacts: &Vec<GeneratedArtifact>, files: SortedMap<String>)
    requires
        call_ensures(artifact_map, (artifacts,), files),
    ensures
        forall|i: int|
            0 <= i < artifacts@.len() && (forall|j: int|
                i < j < artifacts@.len() ==> (#[trigger] artifacts@[j]).file_name@
                    != artifacts@[i].file_name@) ==> entries::lookup(
                files@,
                (#[trigger] artifacts@[i]).file_name@,
            ) == Some(artifacts@[i].contents@),
        forall|name: Seq<char>|
            (forall|i: int| 0 <= i < artifacts@.len() ==> (#[trigger] artifacts@[i]).file_name@
                != name) ==> #[trigger] entries::lookup(files@, name) is None,
{
    let views = generator::artifact_views(artifacts@);
    assert forall|i: int|
        0 <= i < artifacts@.len() && (forall|j: int|
            i < j < artifacts@.len() ==> (#[trigger] artifacts@[j]).file_name@
                != artifacts@[i].file_name@) implies entries::lookup(
        files@,
        (#[trigger] artifacts@[i]).file_name@,
    ) == Some(artifacts@[i].contents@) by {
        generator::law_files_by_name(views, artifacts@[i].file_name@);
        assert forall|j: int| i < j < views.len() implies (#[trigger] views[j]).file_name
            != views[i].file_name by {
            assert(artifacts@[j].file_name@ != artifacts@[i].file_name@);
        }
        lemma_file_at(views, i);
    }
    assert forall|name: Seq<char>|
        (forall|i: int| 0 <= i < artifacts@.len() ==> (#[trigger] artifacts@[i]).file_name@
            != name) implies #[trigger] entries::lookup(files@, name) is None by {
        generator::law_files_by_name(views, name);
        assert forall|i: int| 0 <= i < views.len() implies (#[trigger] views[i]).file_name
            != name by {
            assert(artifacts@[i].file_name@ != name);
        }
        lemma_no_file(views, name);
    }
}

/// The last file with its name is found under it.
proof fn lemma_file_at(views: Seq<ArtifactView>, i: int)
    requires
        0 <= i < views.len(),
        forall|j: int|
            i < j < views.len() ==> (#[trigger] views[j]).file_name != views[i].file_name,
    ensures
        generator::file_named(views, views[i].file_name) == Some(views[i]),
    decreases views.len(),
{
    if i < views.len() - 1 {
        assert(views[views.len() - 1].file_name != views[i].file_name);
        lemma_file_at(views.drop_last(), i);
    }
}

/// A name that no file has is not found.
proof fn lemma_no_file(views: Seq<ArtifactView>, name: Seq<char>)
    requires
        forall|i: int| 0 <= i < views.len() ==> (#[trigger] views[i]).file_name != name,
    ensures
        generator::file_named(views, name) is None,
    decreases views.len(),
{
    if views.len() > 0 {
        assert(views[views.len() - 1].file_name != name);
        lemma_no_file(views.drop_last(), name);
    }
}

/// The one variable for a command puts its directory before what the path held: behind a colon on
/// Unix, behind a semicolon on Windows.
pub proof fn law_path_variable(platform: Platform, dir: &str, environment: SortedMap<String>)
    requires
        call_ensures(path_environment, (platform, dir), environment),
    ensures
        environment@.len() == 1,
        environment@[0].0 == "PATH"@,
        platform == Platform::Unix ==> environment@[0].1 == dir@ + ":$PATH"@,
        platform == Platform::Windows ==> environment@[0].1 == dir@ + ";%PATH%"@,
{
}

}
