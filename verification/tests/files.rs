use gh_file_curler::file::{copy_bytes, is_not_found, join_path};
use gh_file_curler::{wrapped_first, Files, GhfcFile, PlannedWrite, WalkError};

fn file(name: &str, content: &[u8]) -> GhfcFile {
    GhfcFile { name: name.to_string(), content: content.to_vec() }
}

#[test]
fn wrapped_first_gives_bytes_of_first_file() {
    let files = Files(vec![file("a", b"alpha"), file("b", b"beta")]);
    let result: Result<Files, String> = Ok(files);
    assert_eq!(wrapped_first(result), Some(b"alpha".to_vec()));
}

#[test]
fn wrapped_first_gives_none_for_missing_file() {
    let result: Result<Files, String> = Ok(Files(vec![file("a", b"404: Not Found")]));
    assert_eq!(wrapped_first(result), None);
}

#[test]
fn wrapped_first_looks_at_first_file_only() {
    let result: Result<Files, String> =
        Ok(Files(vec![file("a", b"ok"), file("b", b"404: Not Found")]));
    assert_eq!(wrapped_first(result), Some(b"ok".to_vec()));
}

#[test]
fn wrapped_first_needs_exact_marker() {
    for content in [
        &b"404: Not Found\n"[..],
        &b"404: Not Foun"[..],
        &b"404: not found"[..],
        &b" 404: Not Found"[..],
        &b""[..],
        &b"404: Not FounD"[..],
        &b"504: Not Found"[..],
    ] {
        let result: Result<Files, String> = Ok(Files(vec![file("a", content)]));
        assert_eq!(wrapped_first(result), Some(content.to_vec()));
    }
}

#[test]
fn wrapped_first_gives_none_for_failure() {
    let failed: Result<Files, String> = Err("multiple requests failed".to_string());
    assert_eq!(wrapped_first(failed), None);
    let failed: Result<Files, WalkError> =
        Err(WalkError::RetryExhausted { url: "u".to_string(), attempts: 4 });
    assert_eq!(wrapped_first(failed), None);
}

#[test]
fn not_found_marker_is_recognised() {
    assert!(is_not_found(&b"404: Not Found".to_vec()));
    assert!(!is_not_found(&b"404: Not Found ".to_vec()));
    assert!(!is_not_found(&Vec::new()));
}

#[test]
fn join_path_uses_one_separator_and_no_normalisation() {
    assert_eq!(join_path("docs", "a.md"), "docs/a.md");
    assert_eq!(join_path("", "a.md"), "/a.md");
    assert_eq!(join_path("docs/", "a.md"), "docs//a.md");
    assert_eq!(join_path("docs", ""), "docs/");
    assert_eq!(join_path("a/b", "c/d"), "a/b/c/d");
}

#[test]
fn copy_bytes_copies() {
    let bytes = vec![0u8, 255, 7, 7];
    assert_eq!(copy_bytes(&bytes), bytes);
    assert_eq!(copy_bytes(&Vec::new()), Vec::<u8>::new());
}

#[test]
fn file_write_goes_below_destination() {
    let planned = file("src/util/io.rs", b"io").write_to("/tmp/out");
    assert_eq!(
        planned,
        PlannedWrite { path: "/tmp/out/src/util/io.rs".to_string(), content: b"io".to_vec() }
    );
}

#[test]
fn files_write_plans_one_write_per_file_in_order() {
    let files = Files(vec![file("a.md", b"alpha"), file("d/b.md", b"beta"), file("a.md", b"again")]);
    assert_eq!(
        files.write_to("out"),
        vec![
            PlannedWrite { path: "out/a.md".to_string(), content: b"alpha".to_vec() },
            PlannedWrite { path: "out/d/b.md".to_string(), content: b"beta".to_vec() },
            PlannedWrite { path: "out/a.md".to_string(), content: b"again".to_vec() },
        ]
    );
}

#[test]
fn no_files_plan_no_writes() {
    assert_eq!(Files(Vec::new()).write_to("out"), Vec::new());
}

#[test]
fn files_can_be_cloned() {
    let files = Files(vec![file("a.md", b"alpha")]);
    let copy = files.clone();
    assert_eq!(copy.0[0].name, files.0[0].name);
    assert_eq!(copy.0[0].content, files.0[0].content);
}
