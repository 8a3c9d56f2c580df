use course_dl::download::{
    file_name_for_url, plan_downloads, DownloadFailure, DownloadFailureKind, DownloadPlanError,
    DownloadProgress, PipelineOutcome,
};
use course_dl::resolve::{AssetUrl, ResolveError, ResolveErrorKind};

fn asset(u: &str) -> AssetUrl {
    AssetUrl::from_text(u.to_string()).unwrap()
}

#[test]
fn file_name_is_the_decoded_download_parameter() {
    let r = file_name_for_url("https://cdn.example.com/a.pdf?k=v&download=My%20Doc.pdf&x=1");
    assert_eq!(r.unwrap(), "My Doc.pdf");
}

#[test]
fn file_name_decodes_plus_as_space() {
    let r = file_name_for_url("https://x/a?download=lecture+notes.pdf");
    assert_eq!(r.unwrap(), "lecture notes.pdf");
}

#[test]
fn url_without_download_parameter_fails() {
    let r = file_name_for_url("https://x/a.pdf?other=1");
    assert_eq!(r.unwrap_err(), DownloadPlanError::NoDownloadParam);
}

#[test]
fn url_without_query_fails() {
    let r = file_name_for_url("https://x/a.pdf");
    assert_eq!(r.unwrap_err(), DownloadPlanError::NoDownloadParam);
}

#[test]
fn empty_download_value_fails() {
    let r = file_name_for_url("https://x/a?download=");
    assert_eq!(r.unwrap_err(), DownloadPlanError::EmptyName);
}

#[test]
fn download_key_must_match_exactly() {
    let r = file_name_for_url("https://x/a?downloads=b.pdf");
    assert_eq!(r.unwrap_err(), DownloadPlanError::NoDownloadParam);
}

#[test]
fn question_mark_inside_fragment_is_no_query() {
    let r = file_name_for_url("https://x/a#frag?download=b.pdf");
    assert_eq!(r.unwrap_err(), DownloadPlanError::NoDownloadParam);
}

#[test]
fn plans_two_files_and_one_failure() {
    let urls = vec![
        asset("https://x/a?download=a.pdf"),
        asset("https://x/b"),
        asset("https://x/c?download=c.pdf"),
    ];
    let plan = plan_downloads(&urls);
    assert_eq!(
        plan,
        vec![
            Ok("a.pdf".to_string()),
            Err(DownloadPlanError::NoDownloadParam),
            Ok("c.pdf".to_string()),
        ]
    );
}

#[test]
fn later_duplicate_name_fails_that_task_only() {
    let urls = vec![
        asset("https://x/a?download=same.pdf"),
        asset("https://y/b?download=same.pdf"),
    ];
    let plan = plan_downloads(&urls);
    assert_eq!(plan[0], Ok("same.pdf".to_string()));
    assert_eq!(plan[1], Err(DownloadPlanError::DuplicateName));
}

#[test]
fn progress_completes_only_when_all_bytes_arrived() {
    let mut p = DownloadProgress::new(Some(10));
    assert!(!p.is_complete());
    p.record_chunk(4);
    p.record_chunk(6);
    assert_eq!(p.received(), 10);
    p.mark_complete();
    assert!(p.is_complete());
}

#[test]
fn progress_without_declared_length() {
    let mut p = DownloadProgress::new(None);
    p.record_chunk(123);
    p.mark_complete();
    assert!(p.is_complete());
}

#[test]
fn outcome_collects_every_failure() {
    let mut o = PipelineOutcome::new();
    assert!(!o.is_failure());
    o.record_resolve_failures(vec![ResolveError {
        pair_index: 3,
        kind: ResolveErrorKind::Transport,
    }]);
    o.record_download_failure(DownloadFailure {
        task_index: 1,
        kind: DownloadFailureKind::Plan(DownloadPlanError::NoDownloadParam),
    });
    o.record_download_failure(DownloadFailure { task_index: 0, kind: DownloadFailureKind::Write });
    assert!(o.is_failure());
    let (rf, df) = o.into_failures();
    assert_eq!(rf.len(), 1);
    assert_eq!(df.len(), 2);
    assert_eq!(df[0].task_index, 1);
}

#[test]
fn outcome_with_nothing_recorded_is_success() {
    let o = PipelineOutcome::new();
    assert!(!o.is_failure());
    let (rf, df) = o.into_failures();
    assert!(rf.is_empty());
    assert!(df.is_empty());
}
