//! Snapshots of tables whose commits are kept by a catalog.
use delta_schema::error::Error;
use delta_schema::table_url::{checked_with_trailing_slash, with_trailing_slash};
use delta_schema::unity_catalog::{
    checked_snapshot_plan, commits_request, snapshot_plan, sort_commits, Commit, CommitsResponse,
};
use url::Url;

fn commit(version: i64, file_name: &str, file_size: i64) -> Commit {
    Commit {
        version,
        timestamp: 0,
        file_name: file_name.to_string(),
        file_size,
        file_modification_timestamp: 11,
    }
}

fn response(latest_table_version: i64, commits: Vec<Commit>) -> CommitsResponse {
    CommitsResponse {
        commits: Some(commits),
        latest_table_version,
    }
}

#[test]
fn load_snapshot_at_errors_when_version_exceeds_catalog() {
    // Version 5 is asked for, but the catalog only reports version 3
    let plan = snapshot_plan("memory:///", response(3, vec![]), Some(5)).unwrap();
    let err = plan.ensure_loadable().unwrap_err();
    assert!(err
        .text()
        .contains("Time-travel version 5 exceeds max_catalog_version 3"));
}

#[test]
fn load_snapshot_errors_on_non_contiguous_commits() {
    let commits = vec![
        commit(
            1,
            "00000000000000000001.3a0d65cd-4056-49b8-937b-95f9e3ee90e5.json",
            100,
        ),
        // gap: version 2 missing
        commit(
            3,
            "00000000000000000003.3a0d65cd-4056-49b8-937b-95f9e3ee90e5.json",
            100,
        ),
    ];
    let plan = snapshot_plan("memory:///", response(3, commits), None).unwrap();
    let err = plan.ensure_loadable().unwrap_err();
    assert!(err.text().contains("log_tail must be sorted and contiguous"));
}

// ---------------------------------------------------------------------------------------------
// Further cases
// ---------------------------------------------------------------------------------------------

#[test]
fn requests_start_at_the_first_version() {
    let request = commits_request("id", "s3://b/t", Some(7));
    assert_eq!(request.table_id, "id");
    assert_eq!(request.table_uri, "s3://b/t");
    assert_eq!(request.start_version, Some(0));
    assert_eq!(request.end_version, Some(7));
    assert_eq!(commits_request("id", "u", None).end_version, None);
    assert_eq!(commits_request("id", "u", Some(u64::MAX)).end_version, None);
    assert_eq!(
        commits_request("id", "u", Some(i64::MAX as u64)).end_version,
        Some(i64::MAX)
    );
}

#[test]
fn commits_are_put_in_order() {
    let plan = snapshot_plan(
        "s3://bucket/table",
        response(4, vec![commit(4, "d", 1), commit(2, "b", 2), commit(3, "c", 3)]),
        None,
    )
    .unwrap();
    assert_eq!(plan.table_url.as_str(), "s3://bucket/table/");
    assert_eq!(plan.max_catalog_version, 4);
    assert_eq!(plan.at_version, None);
    let names: Vec<_> = plan.log_tail.iter().map(|c| c.file_name.clone()).collect();
    assert_eq!(names, vec!["b", "c", "d"]);
    assert_eq!(plan.log_tail[0].size, 2);
    assert_eq!(plan.log_tail[0].last_modified, 11);
    assert!(plan.ensure_loadable().is_ok());
}

#[test]
fn commits_of_one_version_keep_their_order() {
    let sorted = sort_commits(vec![
        commit(2, "x", 0),
        commit(1, "a", 0),
        commit(2, "y", 0),
        commit(1, "b", 0),
    ]);
    let names: Vec<_> = sorted.iter().map(|c| c.file_name.clone()).collect();
    assert_eq!(names, vec!["a", "b", "x", "y"]);
}

fn error_of(uri: &str, r: CommitsResponse) -> String {
    match snapshot_plan(uri, r, None) {
        Err(Error::Generic(text)) => text,
        _ => panic!("expected an error"),
    }
}

#[test]
fn bad_answers_are_refused() {
    let out_of_range = "out of range integral type conversion attempted";
    assert_eq!(error_of("s3://b/t/", response(-1, vec![])), out_of_range);
    assert_eq!(
        error_of("s3://b/t/", response(1, vec![commit(1, "a", -1)])),
        out_of_range
    );
    assert_eq!(
        error_of("no url", response(1, vec![])),
        "relative URL without a base"
    );
    assert_eq!(
        error_of("mailto:a@b", response(1, vec![])),
        "Cannot modify URL path segments"
    );
    // the version of the answer is looked at first
    assert_eq!(error_of("no url", response(-1, vec![])), out_of_range);
    let none = CommitsResponse {
        commits: None,
        latest_table_version: 0,
    };
    let plan = checked_snapshot_plan("s3://b/t/", none, Some(0)).unwrap().unwrap();
    assert!(plan.log_tail.is_empty());
    assert_eq!(plan.at_version, Some(0));
    assert!(plan.ensure_loadable().is_ok());
}

#[test]
fn trailing_slashes() {
    let u = with_trailing_slash(Url::parse("https://h/a/b?q=1").unwrap()).unwrap();
    assert_eq!(u.as_str(), "https://h/a/b/?q=1");
    let u = with_trailing_slash(Url::parse("https://h/a/b/").unwrap()).unwrap();
    assert_eq!(u.as_str(), "https://h/a/b/");
    let u = checked_with_trailing_slash(Url::parse("custom://h").unwrap());
    assert_eq!(u.unwrap().unwrap().path(), "/");
}
