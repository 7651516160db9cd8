use filesorter::PathKind::{Directory, Missing, Other};
use filesorter::{
    create_dirs, check_paths, destination_dirs, file_extension, find_rule_for_content,
    find_rule_for_extension, is_hidden, pick_content_rule, plan_file, plan_with_content_rule, route_name, FilePlan,
    NameRoute, PathKind, Settings, SortError, SortPattern,
};

fn rule(extensions: &[&str], destination: &str) -> SortPattern {
    SortPattern {
        extensions: extensions.iter().map(|s| s.to_string()).collect(),
        mime_types: Vec::new(),
        destination: destination.to_string(),
    }
}

fn settings_with(rules: Vec<SortPattern>) -> Settings {
    Settings {
        sources: vec!["/src".to_string()],
        destination: "/dest".to_string(),
        use_date_pattern: false,
        date_pattern: String::new(),
        sort_patterns: rules,
    }
}

fn moved_to(plan: Result<FilePlan, SortError>) -> Option<Vec<String>> {
    match plan {
        Ok(FilePlan::MoveTo(dirs)) => Some(dirs),
        _ => None,
    }
}

fn dirs(names: &[&str]) -> Vec<String> {
    names.iter().map(|s| s.to_string()).collect()
}

#[test]
fn sorts_mixed_source_directory() {
    let settings = settings_with(vec![rule(&["pdf"], "docs"), rule(&["zip"], "archives")]);
    let pdf = plan_file(&settings, "/src/report.pdf", "report.pdf", 0);
    assert_eq!(moved_to(pdf), Some(dirs(&["docs"])));
    let zip = plan_file(&settings, "/src/archive.ZIP", "archive.ZIP", 0);
    assert_eq!(moved_to(zip), Some(dirs(&["archives"])));
    let hidden = plan_file(&settings, "/src/.hidden", ".hidden", 0);
    assert!(matches!(hidden, Ok(FilePlan::Ignore)));
    let noext = plan_file(&settings, "/src/noext", "noext", 0);
    assert!(matches!(noext, Ok(FilePlan::Stay)));
}

#[test]
fn date_folder_goes_before_rule_subdirectory() {
    let mut settings = settings_with(vec![rule(&["jpg"], "images")]);
    settings.use_date_pattern(true).date_pattern("%Y-%m-%d".to_string());
    // 2021-03-04T10:00:00Z
    let plan = plan_with_content_rule(&settings, "photo.jpg", None, 1614852000);
    assert_eq!(moved_to(plan), Some(dirs(&["2021-03-04", "images"])));
}

#[test]
fn invalid_date_pattern_fails() {
    let mut settings = settings_with(vec![rule(&["jpg"], "images")]);
    settings.use_date_pattern(true).date_pattern("%Q".to_string());
    assert_eq!(destination_dirs(&settings, 0, 0), Err(SortError::BadDatePattern));
}

#[test]
fn out_of_range_time_fails() {
    let mut settings = settings_with(vec![rule(&["jpg"], "images")]);
    settings.use_date_pattern(true).date_pattern("%Y".to_string());
    assert_eq!(destination_dirs(&settings, 0, i64::MAX), Err(SortError::BadDatePattern));
}

#[test]
fn date_pattern_ignored_when_off() {
    let mut settings = settings_with(vec![rule(&["jpg"], "images")]);
    settings.date_pattern("%Q".to_string());
    assert_eq!(destination_dirs(&settings, 0, 0), Ok(dirs(&["images"])));
}

#[test]
fn unique_extension_goes_to_its_rule() {
    let settings = settings_with(vec![
        rule(&["pdf"], "docs"),
        rule(&["png", "jpg"], "images"),
        rule(&["zip"], "archives"),
    ]);
    let plan = plan_with_content_rule(&settings, "Holiday.Photo.JPG", None, 0);
    assert_eq!(moved_to(plan), Some(dirs(&["images"])));
}

#[test]
fn first_declared_rule_wins() {
    let settings = settings_with(vec![
        rule(&["txt"], "notes"),
        rule(&["csv", "txt"], "docs"),
        rule(&["txt"], "text"),
    ]);
    assert_eq!(route_name(&settings.sort_patterns, "a.txt"), NameRoute::Rule(0));
    let plan = plan_with_content_rule(&settings, "a.txt", None, 0);
    assert_eq!(moved_to(plan), Some(dirs(&["notes"])));
    assert_eq!(route_name(&settings.sort_patterns, "b.csv"), NameRoute::Rule(1));
}

#[test]
fn unmatched_extension_stays_on_every_run() {
    let settings = settings_with(vec![rule(&["pdf"], "docs")]);
    let first = plan_file(&settings, "/src/song.flac", "song.flac", 0);
    assert!(matches!(first, Ok(FilePlan::Stay)));
    let again = plan_file(&settings, "/src/song.flac", "song.flac", 86400);
    assert!(matches!(again, Ok(FilePlan::Stay)));
}

#[test]
fn trailing_dot_has_empty_extension() {
    assert_eq!(file_extension("name."), Some(String::new()));
    let settings = settings_with(vec![rule(&["pdf"], "docs")]);
    assert_eq!(route_name(&settings.sort_patterns, "name."), NameRoute::NoRule);
}

#[test]
fn extension_edge_cases() {
    assert_eq!(file_extension("archive.tar.gz"), Some("gz".to_string()));
    assert_eq!(file_extension(".bashrc"), None);
    assert_eq!(file_extension(".config.json"), Some("json".to_string()));
    assert_eq!(file_extension("noext"), None);
    assert_eq!(file_extension(""), None);
    assert_eq!(file_extension("résumé.Pdf"), Some("Pdf".to_string()));
}

#[test]
fn hidden_names() {
    assert!(is_hidden(".hidden"));
    assert!(is_hidden(".tar.gz"));
    assert!(!is_hidden("visible.txt"));
    assert!(!is_hidden(""));
    assert!(!is_hidden("élan"));
}

#[test]
fn extension_match_is_case_insensitive() {
    let settings = settings_with(vec![rule(&["pdf"], "docs")]);
    assert_eq!(route_name(&settings.sort_patterns, "REPORT.PDF"), NameRoute::Rule(0));
    assert_eq!(route_name(&settings.sort_patterns, "report.pdf"), NameRoute::Rule(0));
}

#[test]
fn rule_lookup_is_exact() {
    let rules = vec![rule(&["pdf"], "docs"), rule(&["zip"], "archives")];
    assert_eq!(find_rule_for_extension(&rules, &"zip".to_string()), Some(1));
    assert_eq!(find_rule_for_extension(&rules, &"ZIP".to_string()), None);
    assert_eq!(find_rule_for_extension(&rules, &"zi".to_string()), None);
    assert_eq!(find_rule_for_extension(&Vec::new(), &"zip".to_string()), None);
}

#[test]
fn name_routes() {
    let rules = vec![rule(&["pdf"], "docs")];
    assert_eq!(route_name(&rules, ".hidden"), NameRoute::Hidden);
    assert_eq!(route_name(&rules, "noext"), NameRoute::ProbeContent);
    assert_eq!(route_name(&rules, "x.doc"), NameRoute::NoRule);
}

#[test]
fn content_rule_needs_content_types() {
    let rules = vec![rule(&["pdf"], "docs")];
    assert_eq!(find_rule_for_content(&rules, "/nonexistent/file"), None);
}

#[test]
fn content_rule_moves_file_without_extension() {
    let mut images = rule(&["png"], "images");
    images.mime_types.push("image/png".to_string());
    let settings = settings_with(vec![rule(&["pdf"], "docs"), images]);
    let plan = plan_with_content_rule(&settings, "picture", Some(1), 0);
    assert_eq!(moved_to(plan), Some(dirs(&["images"])));
    let plan = plan_with_content_rule(&settings, "picture", None, 0);
    assert!(matches!(plan, Ok(FilePlan::Stay)));
    // content is not consulted for a name with an extension
    let plan = plan_with_content_rule(&settings, "picture.bin", Some(1), 0);
    assert!(matches!(plan, Ok(FilePlan::Stay)));
}

#[test]
fn paths_are_checked_before_sorting() {
    assert_eq!(check_paths(&vec![], Directory), Err(SortError::NotInitialized));
    assert_eq!(check_paths(&vec![Directory, Missing], Directory), Err(SortError::SourceMissing(1)));
    assert_eq!(
        check_paths(&vec![Other, Missing], Directory),
        Err(SortError::SourceNotDirectory(0))
    );
    assert_eq!(check_paths(&vec![Directory], Other), Err(SortError::DestinationNotDirectory));
    assert_eq!(check_paths(&vec![Directory], Missing), Ok(()));
    assert_eq!(check_paths(&vec![Directory, Directory], Directory), Ok(()));
}

#[test]
fn file_in_the_way_of_a_directory_aborts() {
    assert_eq!(create_dirs(&vec![Missing, Other, Missing]), Err(SortError::NotADirectory(1)));
    assert_eq!(create_dirs(&vec![Directory, Missing]), Ok(vec![false, true]));
    assert_eq!(create_dirs(&vec![]), Ok(vec![]));
}

#[test]
fn content_picker_takes_first_match() {
    assert_eq!(pick_content_rule(&vec![false, true, true]), Some(1));
    assert_eq!(pick_content_rule(&vec![true, false]), Some(0));
    assert_eq!(pick_content_rule(&vec![false, false]), None);
    assert_eq!(pick_content_rule(&vec![]), None);
}
