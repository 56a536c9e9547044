use papers::assets::{asset_disposition, asset_filename, filename_hint, last_path_segment};
use papers::body::{append_chunk, read_body_with_limit};
use papers::document::{check_output_filename, logs_filename, object_key, tar_name, tex_filename};
use papers::errors::{error_text, RenderError};
use papers::fetch::{FollowStep, RedirectFollower, REDIRECT_LIMIT};
use papers::escape::{escape_leaves, latex_escape};
use papers::routes::{healthz_body, route, route_status, Route};

fn contains(hay: &[u8], needle: &[u8]) -> bool {
    if needle.is_empty() {
        return true;
    }
    hay.windows(needle.len()).any(|w| w == needle)
}

#[test]
fn test_healthz_route() {
    let r = route(b"GET", b"/healthz");
    assert!(matches!(r, Route::Healthz));
    assert_eq!(route_status(&r), 200);
    assert!(healthz_body().is_empty());
}

#[test]
fn test_unknown_route() {
    let r = route(b"GET", b"/dead-end");
    assert!(matches!(r, Route::NotFound));
    assert_eq!(route_status(&r), 404);
}

#[test]
fn test_job_routes() {
    assert!(matches!(route(b"POST", b"/render"), Route::Render));
    assert!(matches!(route(b"POST", b"/preview"), Route::Preview));
    assert!(matches!(route(b"GET", b"/render"), Route::NotFound));
}

#[test]
fn test_output_filename_validation() {
    assert!(check_output_filename(b"out.pdf"));
    assert!(check_output_filename(b"report-1.pdf"));
    assert!(!check_output_filename(b""));
    assert!(!check_output_filename(b".pdf"));
    assert!(!check_output_filename(b"out.txt"));
    assert!(!check_output_filename(b"a/b.pdf"));
    assert!(!check_output_filename(b"a\\b.pdf"));
}

#[test]
fn test_tex_filename() {
    assert_eq!(tex_filename(b"out.pdf"), b"out.tex".to_vec());
    assert_eq!(tex_filename(b"my.pdf.pdf"), b"my.pdf.tex".to_vec());
}

#[test]
fn test_object_keys() {
    assert_eq!(object_key(b"job42", b"out.pdf"), b"job42/out.pdf".to_vec());
    assert_eq!(object_key(b"job42", &tar_name()), b"job42/workspace.tar".to_vec());
    assert_eq!(logs_filename(), b"logs.txt".to_vec());
}

#[test]
fn test_body_limit_exact_and_over() {
    // exactly at the limit succeeds
    let chunks = vec![vec![7u8; 6], vec![8u8; 4]];
    let ok = read_body_with_limit(&chunks, 10).unwrap();
    assert_eq!(ok.len(), 10);
    // one byte above the limit fails
    let chunks = vec![vec![7u8; 6], vec![8u8; 5]];
    assert!(read_body_with_limit(&chunks, 10).is_err());
}

#[test]
fn test_body_concatenation_order() {
    let chunks = vec![b"ab".to_vec(), b"cd".to_vec(), b"e".to_vec()];
    assert_eq!(read_body_with_limit(&chunks, 100).unwrap(), b"abcde".to_vec());
}

#[test]
fn test_buffer_holds_at_most_limit_plus_one_chunk() {
    let mut buf = vec![1u8, 2u8];
    let ok = append_chunk(&mut buf, &[3, 4, 5, 6, 7], 3);
    assert!(!ok);
    assert_eq!(buf.len(), 7);
    assert!(buf.len() <= 3 + 5);
}

#[test]
fn test_redirect_follow() {
    let mut f = RedirectFollower::new();
    match f.next(307, Some(b"https://h/next".to_vec())) {
        FollowStep::Follow(l) => assert_eq!(l, b"https://h/next".to_vec()),
        _ => panic!("a 307 with a Location must be followed"),
    }
    assert!(matches!(f.next(200, None), FollowStep::Deliver));
}

#[test]
fn test_redirect_without_location_fails() {
    let mut f = RedirectFollower::new();
    assert!(matches!(f.next(308, None), FollowStep::FailInvalid));
}

#[test]
fn test_redirect_loop_detected() {
    let mut f = RedirectFollower::new();
    for _ in 0..REDIRECT_LIMIT {
        assert!(matches!(f.next(308, Some(b"https://h/a".to_vec())), FollowStep::Follow(_)));
    }
    assert!(matches!(f.next(308, Some(b"https://h/a".to_vec())), FollowStep::FailLoop));
}

#[test]
fn test_other_statuses_delivered_as_is() {
    let mut f = RedirectFollower::new();
    assert!(matches!(f.next(301, Some(b"https://h/a".to_vec())), FollowStep::Deliver));
    assert!(matches!(f.next(404, None), FollowStep::Deliver));
}

#[test]
fn test_filename_hint_quoted() {
    let r = filename_hint(b"attachment; filename=\"report.pdf\"");
    assert_eq!(r, Some(b"report.pdf".to_vec()));
}

#[test]
fn test_filename_hint_unquoted_and_case() {
    assert_eq!(filename_hint(b"Attachment; FILENAME=logo.png"), Some(b"logo.png".to_vec()));
    assert_eq!(filename_hint(b"attachment; size=3; filename=a.txt"), Some(b"a.txt".to_vec()));
}

#[test]
fn test_filename_hint_absent() {
    assert_eq!(filename_hint(b"inline; filename=\"x\""), None);
    assert_eq!(filename_hint(b"attachment"), None);
    assert_eq!(filename_hint(b"attachment; size=3"), None);
}

#[test]
fn test_filename_hint_must_decode_as_utf8() {
    // undecodable parameter bytes yield no hint; the asset falls back to
    // its URL segment
    assert_eq!(filename_hint(b"attachment; filename=\xff"), None);
    assert_eq!(filename_hint(b"attachment; filename=\"a\xff\xfe\""), None);
    let r = asset_filename(None, b"https://h/a/b.png");
    assert_eq!(r, Some(b"b.png".to_vec()));
}

#[test]
fn test_latex_escape_rules() {
    assert_eq!(latex_escape(b"a&b"), b"a\\&b".to_vec());
    assert_eq!(latex_escape(b"100%"), b"100\\%".to_vec());
    assert_eq!(latex_escape(b"$#_{}"), b"\\$\\#\\_\\{\\}".to_vec());
    assert_eq!(latex_escape(b"a\\b"), b"a\\textbackslash{}b".to_vec());
    assert_eq!(latex_escape(b"x~y^z"), b"x\\textasciitilde{}y\\textasciicircum{}z".to_vec());
    assert_eq!(latex_escape(b"plain text"), b"plain text".to_vec());
}

#[test]
fn test_escape_leaves_one_by_one() {
    let leaves = vec!["a&b".to_string(), "plain".to_string(), "x_y".to_string()];
    let escaped = escape_leaves(&leaves);
    assert_eq!(escaped.len(), 3);
    assert_eq!(escaped[0], b"a\\&b".to_vec());
    assert_eq!(escaped[1], b"plain".to_vec());
    assert_eq!(escaped[2], b"x\\_y".to_vec());
}

#[test]
fn test_last_path_segment() {
    assert_eq!(last_path_segment(b"https://h/a/b.png"), Some(b"b.png".to_vec()));
    assert_eq!(last_path_segment(b"https://h/a/b.png?x=1"), Some(b"b.png".to_vec()));
    assert_eq!(last_path_segment(b"https://h/a/b.png#frag"), Some(b"b.png".to_vec()));
    assert_eq!(last_path_segment(b"https://h/a/"), None);
    assert_eq!(last_path_segment(b"https://h"), None);
}

#[test]
fn test_asset_without_any_filename_is_dropped() {
    // no hint, and the URL has no final path segment: fetched but not written
    let r = asset_disposition(b"https://h", None, &vec![b"bytes".to_vec()], 100).unwrap();
    assert!(r.is_none());
}

#[test]
fn test_asset_hint_wins_over_url() {
    let r = asset_filename(Some(b"hint.bin".to_vec()), b"https://h/a/b.png");
    assert_eq!(r, Some(b"hint.bin".to_vec()));
    let r = asset_filename(None, b"https://h/a/b.png");
    assert_eq!(r, Some(b"b.png".to_vec()));
}

#[test]
fn test_oversized_asset_rejected() {
    let r = asset_disposition(
        b"https://h/a/big.bin",
        None,
        &vec![vec![0u8; 11]],
        10,
    );
    assert!(matches!(r, Err(RenderError::BodyTooLarge)));
    // exactly at the limit is accepted
    let r = asset_disposition(b"https://h/a/big.bin", None, &vec![vec![0u8; 10]], 10).unwrap();
    let (name, bytes) = r.unwrap();
    assert_eq!(name, b"big.bin".to_vec());
    assert_eq!(bytes.len(), 10);
}

#[test]
fn test_error_texts() {
    assert_eq!(
        error_text(&RenderError::BodyTooLarge),
        b"body exceeds the asset size limit".to_vec()
    );
    assert_eq!(error_text(&RenderError::InvalidSpec), b"invalid document spec".to_vec());
    let t = error_text(&RenderError::TypesetFailed(b"! Undefined control sequence.".to_vec()));
    assert!(contains(&t, b"! Undefined control sequence."));
    let t = error_text(&RenderError::FetchFailed(b"connection refused".to_vec()));
    assert!(contains(&t, b"connection refused"));
}
