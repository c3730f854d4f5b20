//! The backup executor, as far as it decides: which entries of the source
//! go into the artifact, what kind of artifact is made and where, and what
//! is recorded when the run has ended.
//!
//! The artifact is written under a staging name and gets its final name
//! only when everything went through; after a failure the staged data is
//! discarded and the record says what went wrong.

use vstd::prelude::*;
use vstd::string::StringExecFns;
use crate::db::backup::{blank_backup, Backup, BackupView};
use crate::db::ignore::{ignore_views, Ignore, IgnoreView};
use crate::db::procedure::{CompressFormat, IgnoreMethod, ProcedureView};
use crate::db::table::lemma_count_of_next;
use crate::glob::{
    chars_of, contains, contains_text, glob_matches, has_wildcard, holds_wildcard, matches_part,
    matches_whole,
};
use crate::registry::{MissionSnapshot, SnapshotView};
use crate::time::Timestamp;

verus! {

/// One file or directory under the source path of a mission.
#[derive(Debug, PartialEq, Eq)]
pub struct SourceEntry {
    /// The path below the source path, with `/` or `\` between its
    /// components.
    pub path: String,
    pub is_dir: bool,
    /// Size in bytes; 0 for a directory.
    pub size: u64,
    /// Whether the version-control ignore files of the source exclude the
    /// entry.
    pub vcs_ignored: bool,
}

/// The mathematical content of a [`SourceEntry`].
pub struct EntryView {
    pub path: Seq<char>,
    pub is_dir: bool,
    pub size: u64,
    pub vcs_ignored: bool,
}

impl View for SourceEntry {
    type V = EntryView;

    open spec fn view(&self) -> EntryView {
        EntryView {
            path: self.path@,
            is_dir: self.is_dir,
            size: self.size,
            vcs_ignored: self.vcs_ignored,
        }
    }
}

impl Clone for SourceEntry {
    fn clone(&self) -> (r: Self)
        ensures
            r == *self,
    {
        SourceEntry {
            path: self.path.clone(),
            is_dir: self.is_dir,
            size: self.size,
            vcs_ignored: self.vcs_ignored,
        }
    }
}

/// The views of a sequence of entries, one by one.
pub open spec fn entry_views(entries: Seq<SourceEntry>) -> Seq<EntryView> {
    entries.map_values(|e: SourceEntry| e@)
}

/// A character that parts the components of a path.
pub open spec fn is_separator(c: char) -> bool {
    c == '/' || c == '\\'
}

/// `i..j` is one component of `path`: it starts at the start of the path
/// or behind a separator, ends at the end of the path or before a
/// separator, and holds no separator.
pub open spec fn is_component(path: Seq<char>, i: int, j: int) -> bool {
    &&& 0 <= i <= j <= path.len()
    &&& i == 0 || is_separator(path[i - 1])
    &&& j == path.len() || is_separator(path[j])
    &&& forall|k: int| i <= k < j ==> !is_separator(#[trigger] path[k])
}

/// Some component of `path` matches the pattern.
pub open spec fn some_component_matches(pattern: Seq<char>, path: Seq<char>) -> bool {
    exists|i: int, j: int|
        #![trigger path.subrange(i, j)]
        is_component(path, i, j) && glob_matches(pattern, path.subrange(i, j))
}

/// The keyword of an ignore rule leaves the entry at `path` out. A keyword
/// with a wildcard is a pattern that the whole path or one of its
/// components has to match; any other keyword, unless it is empty, has to
/// occur somewhere in the path.
pub open spec fn keyword_matches(keyword: Seq<char>, path: Seq<char>) -> bool {
    if has_wildcard(keyword) {
        glob_matches(keyword, path) || some_component_matches(keyword, path)
    } else {
        keyword.len() > 0 && contains_text(path, keyword)
    }
}

/// Some keyword leaves the entry at `path` out.
pub open spec fn some_keyword_matches(keywords: Seq<Seq<char>>, path: Seq<char>) -> bool {
    exists|r: int| 0 <= r < keywords.len() && keyword_matches(#[trigger] keywords[r], path)
}

/// The entry is left out of the artifact.
pub open spec fn is_left_out(method: IgnoreMethod, keywords: Seq<Seq<char>>, e: EntryView) -> bool {
    match method {
        IgnoreMethod::Disabled => false,
        IgnoreMethod::Custom => some_keyword_matches(keywords, e.path),
        IgnoreMethod::VcsIgnore => e.vcs_ignored,
    }
}

/// The entries that go into the artifact.
pub open spec fn is_taken(method: IgnoreMethod, keywords: Seq<Seq<char>>) -> spec_fn(
    EntryView,
) -> bool {
    |e: EntryView| !is_left_out(method, keywords, e)
}

/// The texts of a sequence of strings.
pub open spec fn texts(strings: Seq<String>) -> Seq<Seq<char>> {
    strings.map_values(|s: String| s@)
}

/// Whether some component of `path` matches the pattern.
fn component_matches(pattern: &Vec<char>, path: &Vec<char>) -> (r: bool)
    ensures
        r == some_component_matches(pattern@, path@),
{
    let mut i: usize = 0;
    loop
        invariant
            i <= path.len(),
            i == 0 || is_separator(path[i - 1]),
            forall|a: int, b: int|
                #![trigger path@.subrange(a, b)]
                is_component(path@, a, b) && a < i ==> !glob_matches(
                    pattern@,
                    path@.subrange(a, b),
                ),
        decreases path.len() - i,
    {
        let mut j: usize = i;
        while j < path.len() && !(path[j] == '/' || path[j] == '\\')
            invariant
                i <= j <= path.len(),
                forall|k: int| i <= k < j ==> !is_separator(#[trigger] path[k]),
            decreases path.len() - j,
        {
            j = j + 1;
        }
        if matches_part(pattern, path, i, j) {
            return true;
        }
        assert forall|a: int, b: int|
            #![trigger path@.subrange(a, b)]
            is_component(path@, a, b) && a <= j implies !glob_matches(
            pattern@,
            path@.subrange(a, b),
        ) by {
            if a >= i {
                if a > i {
                    assert(!is_separator(path[a - 1]));
                }
                if b < j {
                    assert(!is_separator(path[b]));
                } else if b > j {
                    assert(!is_separator(path[j as int]));
                }
            }
        }
        if j >= path.len() {
            return false;
        }
        i = j + 1;
    }
}

/// Whether the keyword leaves the entry at `path` out.
pub fn keyword_applies(keyword: &Vec<char>, path: &Vec<char>) -> (r: bool)
    ensures
        r == keyword_matches(keyword@, path@),
{
    if holds_wildcard(keyword) {
        matches_whole(keyword, path) || component_matches(keyword, path)
    } else {
        keyword.len() > 0 && contains(path, keyword)
    }
}

/// Whether some keyword leaves the entry at `path` out.
pub fn any_keyword_applies(keywords: &Vec<String>, path: &str) -> (r: bool)
    ensures
        r == some_keyword_matches(texts(keywords@), path@),
{
    let p = chars_of(path);
    let mut r: usize = 0;
    while r < keywords.len()
        invariant
            r <= keywords.len(),
            p@ == path@,
            forall|k: int|
                0 <= k < r ==> !keyword_matches(#[trigger] texts(keywords@)[k], path@),
        decreases keywords.len() - r,
    {
        let k = chars_of(keywords[r].as_str());
        assert(texts(keywords@)[r as int] == k@);
        if keyword_applies(&k, &p) {
            return true;
        }
        r = r + 1;
    }
    false
}

/// The entries that go into the artifact, in the order in which they were
/// given. Without an ignore method that is all of them; with custom rules
/// those that no keyword leaves out; with version-control ignore files
/// those that these files do not exclude.
pub fn select_entries(entries: &Vec<SourceEntry>, method: IgnoreMethod, keywords: &Vec<String>) -> (kept: Vec<
    SourceEntry,
>)
    ensures
        entry_views(kept@) == entry_views(entries@).filter(is_taken(method, texts(keywords@))),
{
    let ghost all = entry_views(entries@);
    let ghost p = is_taken(method, texts(keywords@));
    let mut kept: Vec<SourceEntry> = Vec::new();
    let mut i: usize = 0;
    while i < entries.len()
        invariant
            i <= entries.len(),
            all == entry_views(entries@),
            p == is_taken(method, texts(keywords@)),
            entry_views(kept@) == all.take(i as int).filter(p),
        decreases entries.len() - i,
    {
        proof {
            lemma_count_of_next(all, p, i as int);
        }
        let left_out = match method {
            IgnoreMethod::Disabled => false,
            IgnoreMethod::Custom => any_keyword_applies(keywords, entries[i].path.as_str()),
            IgnoreMethod::VcsIgnore => entries[i].vcs_ignored,
        };
        if !left_out {
            kept.push(entries[i].clone());
        }
        i = i + 1;
    }
    assert(all.take(i as int) =~= all);
    kept
}

/// The rules of `rules` that count for the procedure `procedure_id`: the
/// live rules that belong to it.
pub open spec fn rule_counts(procedure_id: Seq<char>) -> spec_fn(IgnoreView) -> bool {
    |r: IgnoreView| !r.is_deleted && r.procedure_id == procedure_id
}

/// The keywords of the live rules of the procedure `procedure_id`, in
/// their order.
pub fn rule_keywords(rules: &Vec<Ignore>, procedure_id: &String) -> (keywords: Vec<String>)
    ensures
        texts(keywords@) == ignore_views(rules@).filter(rule_counts(procedure_id@)).map_values(
            |r: IgnoreView| r.keyword,
        ),
{
    let ghost all = ignore_views(rules@);
    let ghost p = rule_counts(procedure_id@);
    let ghost word = |r: IgnoreView| r.keyword;
    let mut keywords: Vec<String> = Vec::new();
    let mut i: usize = 0;
    while i < rules.len()
        invariant
            i <= rules.len(),
            all == ignore_views(rules@),
            p == rule_counts(procedure_id@),
            word == |r: IgnoreView| r.keyword,
            texts(keywords@) == all.take(i as int).filter(p).map_values(word),
        decreases rules.len() - i,
    {
        proof {
            lemma_count_of_next(all, p, i as int);
        }
        let counts = !rules[i].is_deleted && rules[i].procedure_id == *procedure_id;
        if counts {
            let ghost before = texts(keywords@);
            keywords.push(rules[i].keyword.clone());
            assert(texts(keywords@) =~= before.push(rules[i as int]@.keyword));
        }
        i = i + 1;
    }
    assert(all.take(i as int) =~= all);
    keywords
}

/// What kind of artifact a run makes.
#[derive(Clone, Copy, Debug, PartialEq, Eq, Structural)]
pub enum ArtifactKind {
    /// The entries are copied as they are.
    Copy,
    /// The entries go into one archive of the given format.
    Archive(CompressFormat),
}

/// The kind of artifact that the procedure asks for: an archive where
/// compression is switched on and a format is chosen, else a copy.
pub open spec fn artifact_kind(p: ProcedureView) -> ArtifactKind {
    if p.is_compress && p.compress_format != CompressFormat::Uncompressed {
        ArtifactKind::Archive(p.compress_format)
    } else {
        ArtifactKind::Copy
    }
}

/// The ending of the name of an artifact.
pub open spec fn extension(kind: ArtifactKind) -> Seq<char> {
    match kind {
        ArtifactKind::Copy => ""@,
        ArtifactKind::Archive(CompressFormat::Uncompressed) => ""@,
        ArtifactKind::Archive(CompressFormat::Zip) => ".zip"@,
        ArtifactKind::Archive(CompressFormat::TarGz) => ".tar.gz"@,
        ArtifactKind::Archive(CompressFormat::TarBz2) => ".tar.bz2"@,
        ArtifactKind::Archive(CompressFormat::TarXz) => ".tar.xz"@,
        ArtifactKind::Archive(CompressFormat::SevenZip) => ".7z"@,
    }
}

/// The ending of the name of an artifact.
pub fn extension_of(kind: ArtifactKind) -> (r: &'static str)
    ensures
        r@ == extension(kind),
{
    match kind {
        ArtifactKind::Copy => "",
        ArtifactKind::Archive(CompressFormat::Uncompressed) => "",
        ArtifactKind::Archive(CompressFormat::Zip) => ".zip",
        ArtifactKind::Archive(CompressFormat::TarGz) => ".tar.gz",
        ArtifactKind::Archive(CompressFormat::TarBz2) => ".tar.bz2",
        ArtifactKind::Archive(CompressFormat::TarXz) => ".tar.xz",
        ArtifactKind::Archive(CompressFormat::SevenZip) => ".7z",
    }
}

/// What a run is to do.
#[derive(Debug, PartialEq, Eq)]
pub struct BackupPlan {
    /// The identity of the artifact, and of the record that will be kept
    /// of it.
    pub artifact_id: String,
    pub mission_id: String,
    /// The entries that go into the artifact.
    pub entries: Vec<SourceEntry>,
    pub kind: ArtifactKind,
    /// Where the artifact is written while the run lasts.
    pub staging_path: String,
    /// The name that the artifact gets once the run went through.
    pub final_path: String,
}

/// The mathematical content of a [`BackupPlan`].
pub struct PlanView {
    pub artifact_id: Seq<char>,
    pub mission_id: Seq<char>,
    pub entries: Seq<EntryView>,
    pub kind: ArtifactKind,
    pub staging_path: Seq<char>,
    pub final_path: Seq<char>,
}

impl View for BackupPlan {
    type V = PlanView;

    open spec fn view(&self) -> PlanView {
        PlanView {
            artifact_id: self.artifact_id@,
            mission_id: self.mission_id@,
            entries: entry_views(self.entries@),
            kind: self.kind,
            staging_path: self.staging_path@,
            final_path: self.final_path@,
        }
    }
}

/// The keywords that count for a snapshot: those of the live rules of its
/// procedure.
pub open spec fn keywords_of(snapshot: SnapshotView) -> Seq<Seq<char>> {
    snapshot.ignores.filter(rule_counts(snapshot.procedure.procedure_id)).map_values(
        |r: IgnoreView| r.keyword,
    )
}

/// The final name of the artifact `artifact_id` of a mission that keeps
/// its artifacts under `dst_path`.
pub open spec fn final_name(dst_path: Seq<char>, artifact_id: Seq<char>, kind: ArtifactKind) -> Seq<
    char,
> {
    dst_path + "/"@ + artifact_id + extension(kind)
}

/// The plan for a run of the mission in `snapshot` over the entries
/// `entries` of its source: the entries that the ignore method of the
/// procedure takes, the kind of artifact that the procedure asks for, and
/// the final name `dst_path/artifact_id` with the ending of the format,
/// staged under that name with `.partial` behind it.
pub open spec fn planned(
    snapshot: SnapshotView,
    entries: Seq<EntryView>,
    artifact_id: Seq<char>,
) -> PlanView {
    let kind = artifact_kind(snapshot.procedure);
    let final_path = final_name(snapshot.mission.dst_path, artifact_id, kind);
    PlanView {
        artifact_id,
        mission_id: snapshot.mission.mission_id,
        entries: entries.filter(is_taken(snapshot.procedure.ignore_method, keywords_of(snapshot))),
        kind,
        staging_path: final_path + ".partial"@,
        final_path,
    }
}

/// Plans a run. See [`planned`].
pub fn plan_backup(snapshot: &MissionSnapshot, entries: &Vec<SourceEntry>, artifact_id: &str) -> (plan: BackupPlan)
    ensures
        plan@ == planned(snapshot@, entry_views(entries@), artifact_id@),
{
    let keywords = rule_keywords(&snapshot.ignores, &snapshot.procedure.procedure_id);
    let taken = select_entries(entries, snapshot.procedure.ignore_method, &keywords);
    let kind = if snapshot.procedure.is_compress {
        match snapshot.procedure.compress_format {
            CompressFormat::Uncompressed => ArtifactKind::Copy,
            format => ArtifactKind::Archive(format),
        }
    } else {
        ArtifactKind::Copy
    };
    let mut final_path = snapshot.mission.dst_path.clone();
    final_path.append("/");
    final_path.append(artifact_id);
    final_path.append(extension_of(kind));
    let mut staging_path = final_path.clone();
    staging_path.append(".partial");
    BackupPlan {
        artifact_id: String::from_str(artifact_id),
        mission_id: snapshot.mission.mission_id.clone(),
        entries: taken,
        kind,
        staging_path,
        final_path,
    }
}

/// How the writing of an artifact ended.
#[derive(Debug, PartialEq, Eq)]
pub enum WriteResult {
    /// Everything was written; the artifact has this many bytes.
    Written(u64),
    /// Something could not be read or written; the text says what.
    Failed(String),
}

/// What becomes of the staged data.
#[derive(Clone, Copy, Debug, PartialEq, Eq, Structural)]
pub enum Finalize {
    /// It gets its final name.
    Commit,
    /// It is removed.
    Discard,
}

/// What a run leaves behind: the record of it, and what becomes of the
/// staged data.
#[derive(Debug, PartialEq, Eq)]
pub struct Completion {
    pub record: Backup,
    pub finalize: Finalize,
}

/// The record of a run that ended at `now`. After a run that went through
/// it names the final path and the size of the artifact; after a failure
/// it holds the message and neither path nor size.
pub open spec fn record_of(plan: PlanView, result: WriteResult, now: Timestamp) -> BackupView {
    let blank = blank_backup(plan.artifact_id, plan.mission_id, now);
    match result {
        WriteResult::Written(bytes) => BackupView {
            save_path: plan.final_path,
            backup_size: bytes,
            succeeded: true,
            ..blank
        },
        WriteResult::Failed(message) => BackupView { message: message@, ..blank },
    }
}

/// Ends a run: makes the record and says what becomes of the staged data.
/// The artifact gets its final name exactly when everything was written;
/// after any failure the staged data is discarded.
pub fn complete(plan: &BackupPlan, result: WriteResult, now: Timestamp) -> (done: Completion)
    ensures
        done.record@ == record_of(plan@, result, now),
        done.finalize == (if result is Written {
            Finalize::Commit
        } else {
            Finalize::Discard
        }),
        done.record@.succeeded == (result is Written),
{
    let mut record = Backup::blank(plan.artifact_id.clone(), plan.mission_id.clone(), now);
    match result {
        WriteResult::Written(bytes) => {
            record.save_path = plan.final_path.clone();
            record.backup_size = bytes;
            record.succeeded = true;
            Completion { record, finalize: Finalize::Commit }
        },
        WriteResult::Failed(message) => {
            record.message = message;
            Completion { record, finalize: Finalize::Discard }
        },
    }
}

} // verus!
