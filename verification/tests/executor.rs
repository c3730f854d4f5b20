use clean_recent::db::ignore::Ignore;
use clean_recent::db::mission::Mission;
use clean_recent::db::procedure::{CompressFormat, IgnoreMethod, Procedure};
use clean_recent::executor::{
    any_keyword_applies, complete, extension_of, keyword_applies, plan_backup, rule_keywords,
    select_entries, ArtifactKind, Finalize, SourceEntry, WriteResult,
};
use clean_recent::glob::{chars_of, contains, holds_wildcard, matches_whole};
use clean_recent::registry::MissionSnapshot;
use clean_recent::time::Timestamp;

fn at(secs: i64) -> Timestamp {
    Timestamp { secs, nanos: 0 }
}

fn glob(pattern: &str, text: &str) -> bool {
    matches_whole(&chars_of(pattern), &chars_of(text))
}

fn applies(keyword: &str, path: &str) -> bool {
    keyword_applies(&chars_of(keyword), &chars_of(path))
}

fn entry(path: &str) -> SourceEntry {
    SourceEntry { path: path.to_string(), is_dir: false, size: 1, vcs_ignored: false }
}

fn paths(entries: &[SourceEntry]) -> Vec<&str> {
    entries.iter().map(|e| e.path.as_str()).collect()
}

fn rule(keyword: &str, procedure_id: &str) -> Ignore {
    let mut r = Ignore::blank(format!("rule-{}", keyword), procedure_id.to_string(), at(0));
    r.keyword = keyword.to_string();
    r
}

fn snapshot(method: IgnoreMethod, keywords: &[&str]) -> MissionSnapshot {
    let mut procedure = Procedure::blank("p".to_string(), at(0));
    procedure.ignore_method = method;
    let mut mission = Mission::blank("m".to_string(), "p".to_string(), at(0));
    mission.dst_path = "/backups".to_string();
    let ignores = keywords.iter().map(|k| rule(k, "p")).collect();
    MissionSnapshot { mission, procedure, ignores }
}

#[test]
fn tmp_files_are_left_out() {
    let source = vec![entry("a.txt"), entry("b.tmp")];
    let plan = plan_backup(&snapshot(IgnoreMethod::Custom, &["*.tmp"]), &source, "art");
    assert_eq!(paths(&plan.entries), vec!["a.txt"]);
}

#[test]
fn wildcards() {
    assert!(glob("", ""));
    assert!(!glob("", "a"));
    assert!(glob("*", ""));
    assert!(glob("*", "anything at all"));
    assert!(glob("**", "x"));
    assert!(glob("?", "x"));
    assert!(!glob("?", ""));
    assert!(!glob("?", "xy"));
    assert!(glob("*.tmp", "b.tmp"));
    assert!(glob("*.tmp", ".tmp"));
    assert!(!glob("*.tmp", "a.txt"));
    assert!(!glob("*.tmp", "b.tmp.bak"));
    assert!(glob("a*b*c", "aXXbYYc"));
    assert!(glob("a*b*c", "abc"));
    assert!(!glob("a*b*c", "aXXbYY"));
    assert!(glob("a*b", "abab"));
    assert!(glob("*a*a*a*", "banana"));
    assert!(!glob("*a*a*a*a*", "banana"));
    assert!(glob("b?n?n?", "banana"));
    assert!(glob("caf?", "café"));
    assert!(glob("日*", "日本語"));
    assert!(!glob("abc", "ABC"));
    assert!(holds_wildcard(&chars_of("a?")));
    assert!(holds_wildcard(&chars_of("*")));
    assert!(!holds_wildcard(&chars_of("plain.txt")));
    assert!(!holds_wildcard(&chars_of("")));
}

#[test]
fn occurrences() {
    let has = |t: &str, k: &str| contains(&chars_of(t), &chars_of(k));
    assert!(has("node_modules/x", "node_modules"));
    assert!(has("a/node_modules", "node_modules"));
    assert!(has("abc", ""));
    assert!(has("", ""));
    assert!(!has("", "a"));
    assert!(!has("ab", "abc"));
    assert!(has("aab", "ab"));
    assert!(!has("abab", "bb"));
}

#[test]
fn keywords_with_and_without_wildcards() {
    // a pattern has to match the whole path or one of its components
    assert!(applies("*.tmp", "b.tmp"));
    assert!(applies("*.tmp", "deep/down/b.tmp"));
    assert!(applies("*.tmp", "cache.tmp/kept.txt"));
    assert!(applies("*.tmp", "win\\dir\\b.tmp"));
    assert!(!applies("*.tmp", "a.txt"));
    assert!(!applies("*.tmp", "b.tmpx/a.txt"));
    assert!(applies("src/*.rs", "src/a.rs"));
    assert!(!applies("build?", "build"));
    assert!(applies("build?", "x/build1/y"));
    assert!(applies("*", "anything"));
    // any other keyword has to occur somewhere in the path
    assert!(applies("target", "target/debug/x"));
    assert!(applies("target", "my_target_dir/x"));
    assert!(applies("a/b", "x/a/b/c"));
    assert!(!applies("target", "src/main.rs"));
    assert!(!applies("", "anything"));
    assert!(!applies("", ""));
    let keywords = vec!["*.log".to_string(), "tmp".to_string()];
    assert!(any_keyword_applies(&keywords, "x/y.log"));
    assert!(any_keyword_applies(&keywords, "tmp/y"));
    assert!(!any_keyword_applies(&keywords, "x/y.txt"));
    assert!(!any_keyword_applies(&Vec::new(), "x/y.txt"));
}

#[test]
fn selection_by_method() {
    let mut source = vec![entry("a.txt"), entry("b.tmp"), entry("c/d.tmp"), entry("e.rs")];
    source[3].vcs_ignored = true;
    let keywords = vec!["*.tmp".to_string()];
    assert_eq!(paths(&select_entries(&source, IgnoreMethod::Disabled, &keywords)).len(), 4);
    assert_eq!(
        paths(&select_entries(&source, IgnoreMethod::Custom, &keywords)),
        vec!["a.txt", "e.rs"]
    );
    assert_eq!(
        paths(&select_entries(&source, IgnoreMethod::VcsIgnore, &keywords)),
        vec!["a.txt", "b.tmp", "c/d.tmp"]
    );
    assert_eq!(paths(&select_entries(&source, IgnoreMethod::Custom, &Vec::new())).len(), 4);
    assert!(select_entries(&Vec::new(), IgnoreMethod::Custom, &keywords).is_empty());
}

#[test]
fn only_live_rules_of_the_procedure_count() {
    let mut rules = vec![rule("*.tmp", "p"), rule("*.log", "other"), rule("*.bak", "p"), rule("x", "p")];
    rules[2].is_deleted = true;
    assert_eq!(rule_keywords(&rules, &"p".to_string()), vec!["*.tmp", "x"]);
    assert_eq!(rule_keywords(&rules, &"other".to_string()), vec!["*.log"]);
    assert!(rule_keywords(&rules, &"nobody".to_string()).is_empty());
    let mut s = snapshot(IgnoreMethod::Custom, &[]);
    s.ignores = rules;
    let source = vec![entry("a.tmp"), entry("a.log"), entry("a.bak"), entry("x.rs"), entry("b.rs")];
    let plan = plan_backup(&s, &source, "art");
    assert_eq!(paths(&plan.entries), vec!["a.log", "a.bak", "b.rs"]);
}

#[test]
fn plan_names_the_artifact() {
    let source = vec![entry("a.txt")];
    let mut s = snapshot(IgnoreMethod::Disabled, &["a*"]);
    let plan = plan_backup(&s, &source, "0a1b");
    assert_eq!(plan.kind, ArtifactKind::Copy);
    assert_eq!(plan.final_path, "/backups/0a1b");
    assert_eq!(plan.staging_path, "/backups/0a1b.partial");
    assert_eq!(plan.artifact_id, "0a1b");
    assert_eq!(plan.mission_id, "m");
    assert_eq!(paths(&plan.entries), vec!["a.txt"]);
    s.procedure.is_compress = true;
    s.procedure.compress_format = CompressFormat::TarGz;
    let plan = plan_backup(&s, &source, "0a1b");
    assert_eq!(plan.kind, ArtifactKind::Archive(CompressFormat::TarGz));
    assert_eq!(plan.final_path, "/backups/0a1b.tar.gz");
    assert_eq!(plan.staging_path, "/backups/0a1b.tar.gz.partial");
    s.procedure.compress_format = CompressFormat::Uncompressed;
    assert_eq!(plan_backup(&s, &source, "x").kind, ArtifactKind::Copy);
    s.procedure.is_compress = false;
    s.procedure.compress_format = CompressFormat::Zip;
    assert_eq!(plan_backup(&s, &source, "x").kind, ArtifactKind::Copy);
}

#[test]
fn extensions() {
    assert_eq!(extension_of(ArtifactKind::Copy), "");
    assert_eq!(extension_of(ArtifactKind::Archive(CompressFormat::Uncompressed)), "");
    assert_eq!(extension_of(ArtifactKind::Archive(CompressFormat::Zip)), ".zip");
    assert_eq!(extension_of(ArtifactKind::Archive(CompressFormat::TarGz)), ".tar.gz");
    assert_eq!(extension_of(ArtifactKind::Archive(CompressFormat::TarBz2)), ".tar.bz2");
    assert_eq!(extension_of(ArtifactKind::Archive(CompressFormat::TarXz)), ".tar.xz");
    assert_eq!(extension_of(ArtifactKind::Archive(CompressFormat::SevenZip)), ".7z");
}

#[test]
fn a_run_that_went_through_is_committed() {
    let plan = plan_backup(&snapshot(IgnoreMethod::Disabled, &[]), &vec![entry("a")], "art");
    let done = complete(&plan, WriteResult::Written(4096), at(9));
    assert_eq!(done.finalize, Finalize::Commit);
    assert!(done.record.succeeded);
    assert_eq!(done.record.backup_size, 4096);
    assert_eq!(done.record.save_path, "/backups/art");
    assert_eq!(done.record.backup_id, "art");
    assert_eq!(done.record.mission_id, "m");
    assert_eq!(done.record.message, "");
    assert_eq!(done.record.create_at, at(9));
    assert!(!done.record.is_deleted);
}

#[test]
fn a_failed_run_is_discarded_and_reported() {
    let plan = plan_backup(&snapshot(IgnoreMethod::Disabled, &[]), &vec![entry("a")], "art");
    let done = complete(&plan, WriteResult::Failed("disk full".to_string()), at(9));
    assert_eq!(done.finalize, Finalize::Discard);
    assert!(!done.record.succeeded);
    assert_eq!(done.record.backup_size, 0);
    assert_eq!(done.record.save_path, "");
    assert_eq!(done.record.message, "disk full");
    assert_eq!(done.record.backup_id, "art");
}
