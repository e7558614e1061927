use cargo_slide::watch_filter::{is_content_change, is_relevant_event, is_relevant_path, ChangeDebounce, ChangedPath, FsChange};
use std::path::Path;

/// Decomposes `path` the way the watcher sees it (no watch directory, no target file) and asks the filter.
fn relevant(path: &str) -> bool {
    let p = Path::new(path);
    let components: Vec<String> = p
        .components()
        .map(|c| c.as_os_str().to_string_lossy().into_owned())
        .collect();
    let file_name = p.file_name().and_then(|f| f.to_str());
    let extension = p.extension().and_then(|e| e.to_str());
    is_relevant_path(&components, file_name, extension, false, None)
}

#[test]
fn test_relevant_path_filtering() {
    assert!(relevant("slides.typ"));
    assert!(relevant("template.typ"));
    assert!(relevant("data/chart.csv"));
    assert!(relevant("images/logo.png"));
    assert!(relevant("config.toml"));

    // Hidden files
    assert!(!relevant(".git/index"));
    assert!(!relevant(".build_tmp/cache.typ"));

    // Editor temp files
    assert!(!relevant("slides.typ~"));
    assert!(!relevant("slides.typ.swp"));
    assert!(!relevant(".#slides.typ"));
    assert!(!relevant("#slides.typ#"));
    assert!(!relevant("temp.tmp"));
    assert!(!relevant("slides.typ___jb_tmp___"));
    assert!(!relevant("4913"));

    // Compiler cache files
    assert!(!relevant("assets/benchmarks.csv.cache.csv"));
    assert!(!relevant("assets/telemetry.db.cache.csv"));
    assert!(!relevant("assets/metrics.json.cache.csv"));
    assert!(!relevant("chart_export.csv"));

    // Target directory and node_modules
    assert!(!relevant("target/debug/build.typ"));
    assert!(!relevant("node_modules/pkg/index.typ"));

    // Exported PDF and slide SVGs
    assert!(!relevant("slides.pdf"));
    assert!(!relevant("slide-1.svg"));
}

#[test]
fn target_file_and_extension_case() {
    let comps = vec!["notes".to_string()];
    // The slide file itself is relevant whatever its extension.
    assert!(is_relevant_path(&comps, Some("notes"), None, true, None));
    // So is a file with the slide file's name.
    assert!(is_relevant_path(&comps, Some("deck.md"), Some("md"), false, Some("deck.md")));
    assert!(!is_relevant_path(&comps, Some("deck.md"), Some("md"), false, None));
    // Extensions are compared without regard to ASCII case.
    assert!(is_relevant_path(&comps, Some("LOGO.PNG"), Some("PNG"), false, None));
    assert!(!is_relevant_path(&comps, Some("OUT.PDF"), Some("PDF"), false, None));
    // No file name: not relevant.
    assert!(!is_relevant_path(&comps, None, None, true, None));
}

#[test]
fn content_changes_only() {
    assert!(is_content_change(FsChange::DataModified));
    assert!(is_content_change(FsChange::Renamed));
    assert!(is_content_change(FsChange::ClosedAfterWrite));
    assert!(is_content_change(FsChange::Unspecified));
    assert!(!is_content_change(FsChange::MetadataChanged));
    assert!(!is_content_change(FsChange::Accessed));
    assert!(!is_content_change(FsChange::OtherModification));
    assert!(!is_content_change(FsChange::Other));
}

#[test]
fn changes_settle_after_the_debounce_time() {
    let mut d = ChangeDebounce::new();
    d.record(FsChange::MetadataChanged, true, Some("slides.typ".to_string()), 10);
    assert_eq!(d.settle(1000, 150, "target.typ"), None);
    d.record(FsChange::DataModified, true, Some("slides.typ".to_string()), 100);
    assert_eq!(d.settle(200, 150, "target.typ"), None);
    assert_eq!(d.settle(250, 150, "target.typ"), Some("slides.typ".to_string()));
    assert_eq!(d.settle(900, 150, "target.typ"), None);
    // An event without paths reports the target file.
    d.record(FsChange::Created, true, None, 300);
    assert_eq!(d.settle(450, 150, "target.typ"), Some("target.typ".to_string()));
    // Irrelevant paths are ignored.
    d.record(FsChange::Removed, false, Some("x.tmp".to_string()), 500);
    assert_eq!(d.settle(2000, 150, "target.typ"), None);
    // A later change restarts the wait.
    d.record(FsChange::DataModified, true, Some("a.typ".to_string()), 600);
    d.record(FsChange::DataModified, true, Some("b.typ".to_string()), 700);
    assert_eq!(d.settle(760, 150, "target.typ"), None);
    assert_eq!(d.settle(850, 150, "target.typ"), Some("b.typ".to_string()));
}

/// Describes `path` for the event filter, with `target` as the slide file.
fn changed(path: &str, target: &str) -> ChangedPath {
    let p = Path::new(path);
    ChangedPath {
        components: p.components().map(|c| c.as_os_str().to_string_lossy().into_owned()).collect(),
        file_name: p.file_name().and_then(|f| f.to_str()).map(|s| s.to_string()),
        extension: p.extension().and_then(|e| e.to_str()).map(|s| s.to_string()),
        is_target: path == target,
    }
}

#[test]
fn test_relevant_event_filtering() {
    let target = "slides.typ";
    let on_slides = vec![changed("slides.typ", target)];
    // Data modification -> relevant
    assert!(is_relevant_event(FsChange::DataModified, &on_slides, Some(target)));
    // Rename -> relevant (atomic save)
    assert!(is_relevant_event(FsChange::Renamed, &on_slides, Some(target)));
    // Metadata change (e.g. atime update during read) -> not relevant
    assert!(!is_relevant_event(FsChange::MetadataChanged, &on_slides, Some(target)));
    // Pure read access -> not relevant
    assert!(!is_relevant_event(FsChange::Accessed, &on_slides, Some(target)));
    // Event for a cache file -> not relevant
    let cache = vec![changed("assets/benchmarks.csv.cache.csv", target)];
    assert!(!is_relevant_event(FsChange::DataModified, &cache, Some(target)));
}

#[test]
fn events_with_several_paths() {
    let target = "slides.typ";
    let mixed = vec![changed(".git/index", target), changed("theme.typ", target)];
    assert!(is_relevant_event(FsChange::Created, &mixed, Some(target)));
    assert!(!is_relevant_event(FsChange::Created, &Vec::new(), Some(target)));
    // The slide file's name counts even where its extension would not.
    let renamed = vec![changed("backup/slides.typ", "elsewhere/slides.typ")];
    assert!(is_relevant_event(FsChange::Removed, &renamed, Some("slides.typ")));
    let odd = vec![changed("notes.txt", target)];
    assert!(!is_relevant_event(FsChange::DataModified, &odd, Some(target)));
}
