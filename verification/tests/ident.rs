use lemmy_client::lemmy_api_common::lemmy_db_schema::newtypes::{CommentReportId, PostReportId};
use lemmy_know::ident::{extract_comment_report_id, extract_post_report_id};

#[test]
fn post_id() {
    let id = PostReportId::default();
    let n = extract_post_report_id(id);
    assert_eq!(0, n);
}

#[test]
fn comment_id() {
    let id = CommentReportId::default();
    let n = extract_comment_report_id(id);
    assert_eq!(0, n);
}

#[test]
fn post_id_extraction_is_deterministic() {
    let id = PostReportId::default();
    let first = extract_post_report_id(id);
    let second = extract_post_report_id(id);
    let third = extract_post_report_id(id);
    assert_eq!(first, second);
    assert_eq!(second, third);
}

#[test]
fn comment_id_extraction_is_deterministic() {
    let id = CommentReportId::default();
    let first = extract_comment_report_id(id);
    let second = extract_comment_report_id(id);
    assert_eq!(first, second);
}

#[test]
fn nonzero_id_roundtrip() {
    let id: PostReportId = serde_json::from_str("12345").expect("valid id json");
    assert_eq!(12345, extract_post_report_id(id));
    let neg: CommentReportId = serde_json::from_str("-7").expect("valid id json");
    assert_eq!(-7, extract_comment_report_id(neg));
    let max: PostReportId = serde_json::from_str("2147483647").expect("valid id json");
    assert_eq!(2147483647, extract_post_report_id(max));
}
