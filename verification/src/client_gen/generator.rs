//! What client generators take and give.

use vstd::prelude::*;

use crate::entries;
use crate::sorted_map;
use crate::sorted_map::SortedMap;
use crate::tool;
use crate::tool::{Tool, ToolView};

verus! {

/// Why a client could not be generated.
#[derive(Debug, PartialEq, Eq)]
pub enum GeneratorError {
    Generation(String),
}

/// A bridge to a live session: the process of the session, the address of its proxy, and the
/// token that the proxy asks for.
#[derive(Debug, PartialEq, Eq)]
pub struct CliBridgeEntry {
    pub session_pid: u32,
    pub bridge_url: String,
    pub token: String,
}

/// What a bridge entry holds.
#[verifier::ext_equal]
pub struct BridgeView {
    pub session_pid: u32,
    pub bridge_url: Seq<char>,
    pub token: Seq<char>,
}

impl View for CliBridgeEntry {
    type V = BridgeView;

    open spec fn view(&self) -> BridgeView {
        BridgeView {
            session_pid: self.session_pid,
            bridge_url: self.bridge_url@,
            token: self.token@,
        }
    }
}

impl Clone for CliBridgeEntry {
    fn clone(&self) -> (copy: CliBridgeEntry)
        ensures
            copy@ == self@,
    {
        CliBridgeEntry {
            session_pid: self.session_pid,
            bridge_url: self.bridge_url.clone(),
            token: self.token.clone(),
        }
    }
}

/// What the bridge entries of a list hold.
pub open spec fn bridge_views(entries: Seq<CliBridgeEntry>) -> Seq<BridgeView> {
    entries.map_values(|entry: CliBridgeEntry| entry@)
}

/// What a client is generated from.
#[derive(Debug)]
pub struct GeneratorConfig {
    pub cli_name: String,
    pub bridge_url: String,
    pub token: String,
    pub tools: Vec<Tool>,
    pub session_pid: u32,
    pub output_dir: String,
    pub extra_cli_bridges: Vec<CliBridgeEntry>,
}

/// What a generator configuration holds.
#[verifier::ext_equal]
pub struct ConfigView {
    pub cli_name: Seq<char>,
    pub bridge_url: Seq<char>,
    pub token: Seq<char>,
    pub tools: Seq<ToolView>,
    pub session_pid: u32,
    pub output_dir: Seq<char>,
    pub extra_cli_bridges: Seq<BridgeView>,
}

impl View for GeneratorConfig {
    type V = ConfigView;

    open spec fn view(&self) -> ConfigView {
        ConfigView {
            cli_name: self.cli_name@,
            bridge_url: self.bridge_url@,
            token: self.token@,
            tools: tool::tool_views(self.tools@),
            session_pid: self.session_pid,
            output_dir: self.output_dir@,
            extra_cli_bridges: bridge_views(self.extra_cli_bridges@),
        }
    }
}

/// A generated file: its name, what it holds, and whether it is a program to run.
#[derive(Debug, PartialEq, Eq)]
pub struct GeneratedArtifact {
    pub file_name: String,
    pub contents: String,
    pub executable: bool,
}

/// What a generated file holds.
#[verifier::ext_equal]
pub struct ArtifactView {
    pub file_name: Seq<char>,
    pub contents: Seq<char>,
    pub executable: bool,
}

impl View for GeneratedArtifact {
    type V = ArtifactView;

    open spec fn view(&self) -> ArtifactView {
        ArtifactView {
            file_name: self.file_name@,
            contents: self.contents@,
            executable: self.executable,
        }
    }
}

impl GeneratedArtifact {
    /// A file that is no program.
    pub fn new(file_name: &str, contents: String) -> (artifact: GeneratedArtifact)
        ensures
            artifact@ == (ArtifactView {
                file_name: file_name@,
                contents: contents@,
                executable: false,
            }),
    {
        GeneratedArtifact { file_name: file_name.to_owned(), contents, executable: false }
    }

    /// The same file as a program to run.
    pub fn executable(self) -> (artifact: GeneratedArtifact)
        ensures
            artifact@ == (ArtifactView { executable: true, ..self@ }),
    {
        GeneratedArtifact { file_name: self.file_name, contents: self.contents, executable: true }
    }
}

/// What the generated files of a list hold.
pub open spec fn artifact_views(artifacts: Seq<GeneratedArtifact>) -> Seq<ArtifactView> {
    artifacts.map_values(|artifact: GeneratedArtifact| artifact@)
}

/// A generator of clients: it renders the files of a client without writing them.
pub trait ClientGenerator {
    /// The files of the client.
    fn render(&self, config: &GeneratorConfig) -> Result<Vec<GeneratedArtifact>, GeneratorError>;
}

/// The contents of generated files under their names, sorted by name; of two files with one
/// name the later counts.
pub open spec fn files_by_name(artifacts: Seq<ArtifactView>) -> Seq<(Seq<char>, Seq<char>)>
    decreases artifacts.len(),
{
    if artifacts.len() == 0 {
        Seq::empty()
    } else {
        sorted_map::sorted_insert(
            files_by_name(artifacts.drop_last()),
            artifacts.last().file_name,
            artifacts.last().contents,
        )
    }
}

/// The last file with a name, if there is one.
pub open spec fn file_named(artifacts: Seq<ArtifactView>, name: Seq<char>) -> Option<ArtifactView>
    decreases artifacts.len(),
{
    if artifacts.len() == 0 {
        None
    } else if artifacts.last().file_name == name {
        Some(artifacts.last())
    } else {
        file_named(artifacts.drop_last(), name)
    }
}

/// The files are sorted by name, and under each name stand the contents of the last file that has
/// it.
pub proof fn law_files_by_name(artifacts: Seq<ArtifactView>, name: Seq<char>)
    ensures
        sorted_map::strictly_sorted(files_by_name(artifacts)),
        entries::lookup(files_by_name(artifacts), name) == (match file_named(artifacts, name) {
            Some(found) => Some(found.contents),
            None => None,
        }),
    decreases artifacts.len(),
{
    if artifacts.len() > 0 {
        law_files_by_name(artifacts.drop_last(), name);
        sorted_map::law_sorted_insert(
            files_by_name(artifacts.drop_last()),
            artifacts.last().file_name,
            artifacts.last().contents,
        );
    }
}

/// The contents of generated files under their names.
pub fn artifact_map(artifacts: &Vec<GeneratedArtifact>) -> (files: SortedMap<String>)
    ensures
        files@ == files_by_name(artifact_views(artifacts@)),
{
    let mut files: SortedMap<String> = SortedMap::new();
    let mut i: usize = 0;
    while i < artifacts.len()
        invariant
            0 <= i <= artifacts@.len(),
            files@ == files_by_name(artifact_views(artifacts@.take(i as int))),
        decreases artifacts@.len() - i,
    {
        files.insert(artifacts[i].file_name.clone(), artifacts[i].contents.clone());
        proof {
            let longer = artifact_views(artifacts@.take(i + 1));
            assert(longer.drop_last() =~= artifact_views(artifacts@.take(i as int)));
            assert(longer.last() == artifacts@[i as int]@);
        }
        i = i + 1;
    }
    assert(artifacts@.take(artifacts@.len() as int) =~= artifacts@);
    files
}

}
