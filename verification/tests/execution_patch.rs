use canon_agent::capability::execution::patch::{
    apply_patch_summary, categorize_patch_paths, collect_apply_patch_changed_files,
    collect_valid_changed_files, is_workspace_safe_path, parse_apply_patch_request,
    validate_workspace_relative_path, AffectedPaths, ApplyPatchArgs,
};

#[test]
fn categorize_add_update_delete() {
    let patch = "\
*** Begin Patch
*** Add File: src/new.rs
+fn new() {}
*** Update File: src/existing.rs
@@ fn existing
-old
+new
*** Delete File: src/old.rs
*** End Patch";

    let affected = categorize_patch_paths(patch).expect("valid patch");
    assert_eq!(affected.added, vec!["src/new.rs"]);
    assert_eq!(affected.modified, vec!["src/existing.rs"]);
    assert_eq!(affected.deleted, vec!["src/old.rs"]);
    assert_eq!(affected.total(), 3);
}

#[test]
fn move_to_records_destination_as_modified() {
    let patch = "\
*** Begin Patch
*** Update File: src/old_name.rs
*** Move to: src/new_name.rs
@@ rename
-old
+new
*** End Patch";

    let affected = categorize_patch_paths(patch).expect("valid patch");
    assert!(affected.modified.contains(&"src/new_name.rs".to_string()));
}

#[test]
fn rejects_missing_begin_end_markers() {
    let err = categorize_patch_paths("*** Add File: src/foo.rs\n+fn foo() {}\n")
        .expect_err("must fail without markers");
    assert!(err.contains("begin and end markers"), "{err}");
}

#[test]
fn rejects_absolute_path() {
    let patch = "\
*** Begin Patch
*** Add File: /etc/passwd
+evil
*** End Patch";
    let err = categorize_patch_paths(patch).expect_err("must reject absolute path");
    assert!(err.contains("escapes workspace root"), "{err}");
}

#[test]
fn rejects_parent_dir_traversal() {
    let patch = "\
*** Begin Patch
*** Update File: ../../outside.rs
@@ ctx
-old
+new
*** End Patch";
    let err = categorize_patch_paths(patch).expect_err("must reject ../ path");
    assert!(err.contains("escapes workspace root"), "{err}");
}

#[test]
fn workspace_safe_path_accepts_relative_paths() {
    assert!(is_workspace_safe_path("src/foo.rs"));
    assert!(is_workspace_safe_path("a/b/c.toml"));
    assert!(!is_workspace_safe_path("/absolute"));
    assert!(!is_workspace_safe_path("../escape"));
}

#[test]
fn workspace_safe_path_edge_cases() {
    assert!(is_workspace_safe_path(""));
    assert!(is_workspace_safe_path("a/...b/..c"));
    assert!(is_workspace_safe_path("./a"));
    assert!(!is_workspace_safe_path("a/.."));
    assert!(!is_workspace_safe_path("a/../b"));
    assert!(!is_workspace_safe_path(".."));
}

#[test]
fn categorize_sorts_and_dedups_paths() {
    let patch = "*** Begin Patch\r\n*** Update File: b.rs\r\n*** Update File: a.rs \r\n*** Update File: b.rs\n*** End Patch\n";
    let affected = categorize_patch_paths(patch).expect("valid patch");
    assert_eq!(affected.modified, vec!["a.rs", "b.rs"]);
    assert!(affected.added.is_empty());
    assert!(!affected.is_empty());
    assert_eq!(AffectedPaths::default().total(), 0);
}

#[test]
fn categorize_reports_first_escaping_path_and_empty_patch() {
    let patch = "*** Begin Patch\n*** Add File: ../x\n*** Add File: /y\n*** End Patch";
    assert_eq!(categorize_patch_paths(patch), Err("../x escapes workspace root".to_string()));
    assert_eq!(
        categorize_patch_paths("*** Begin Patch\n*** End Patch\n"),
        Err("no file patches found".to_string())
    );
}

#[test]
fn changed_files_merge_all_headers() {
    let patch = "*** Begin Patch\n*** Delete File: z.rs\n*** Add File: a.rs\n*** Update File: m.rs\n*** Move to: a.rs\n*** End Patch";
    assert_eq!(
        collect_apply_patch_changed_files(patch),
        Ok(vec!["a.rs".to_string(), "m.rs".to_string(), "z.rs".to_string()])
    );
    let unsafe_patch = "*** Begin Patch\n*** Add File: z/../../q\n*** Add File: /b\n*** End Patch";
    assert_eq!(
        collect_valid_changed_files(unsafe_patch),
        Err("/b escapes workspace root".to_string())
    );
    assert_eq!(validate_workspace_relative_path("ok/path"), Ok(()));
}

fn args(patch: Option<&str>) -> ApplyPatchArgs {
    ApplyPatchArgs {
        patch: patch.map(|p| p.to_string()),
        max_bytes: None,
        strip: None,
        mode: None,
        cwd: None,
    }
}

#[test]
fn apply_patch_request_defaults_and_errors() {
    let ok = parse_apply_patch_request(&args(Some("  *** Begin Patch\n*** End Patch \n"))).unwrap();
    assert_eq!(ok.patch_text, "*** Begin Patch\n*** End Patch");
    assert_eq!(ok.mode, "check");
    assert!(!ok.do_apply);
    assert_eq!(ok.cwd, ".");

    assert_eq!(
        parse_apply_patch_request(&args(None)).unwrap_err(),
        "missing 'patch' field"
    );
    assert_eq!(parse_apply_patch_request(&args(Some("  "))).unwrap_err(), "patch is empty");

    let mut big = args(Some("héllo"));
    big.max_bytes = Some(5);
    assert_eq!(
        parse_apply_patch_request(&big).unwrap_err(),
        "patch is 6 bytes, larger than maxBytes=5"
    );

    let mut strip = args(Some("x"));
    strip.strip = Some(1);
    assert_eq!(
        parse_apply_patch_request(&strip).unwrap_err(),
        "strip is not supported by the apply_patch binary"
    );

    let mut mode = args(Some("x"));
    mode.mode = Some("force".to_string());
    assert_eq!(
        parse_apply_patch_request(&mode).unwrap_err(),
        "invalid mode \"force\"; must be 'check' or 'apply'"
    );
    mode.mode = Some("apply".to_string());
    assert!(parse_apply_patch_request(&mode).unwrap().do_apply);
}

#[test]
fn apply_patch_summary_wording() {
    assert_eq!(apply_patch_summary(true, 2, ""), "applied across 2 file(s)");
    assert_eq!(apply_patch_summary(false, 1, ""), "ok (check) across 1 file(s)");
    assert_eq!(apply_patch_summary(true, 1, "Done!"), "Done!");
    assert_eq!(apply_patch_summary(false, 1, "Done!"), "ok (check): Done!");
}
