//! Extraction of the integer key hidden inside the remote API's report
//! identifier newtypes. The upstream types conceal their integer, so the
//! engine serializes an identifier to its canonical textual form and parses
//! that text back with the verified decimal parser. The conversion is
//! deterministic: it always yields the integer the newtype wraps.

use vstd::prelude::*;
use crate::digits::{int_digits, lemma_int_digits_injective, parse_i32};
use lemmy_client::lemmy_api_common::lemmy_db_schema::newtypes::{CommentReportId, PostReportId};

verus! {

#[verifier::external_type_specification]
#[verifier::external_body]
pub struct ExPostReportId(PostReportId);

#[verifier::external_type_specification]
#[verifier::external_body]
pub struct ExCommentReportId(CommentReportId);

/// The 32-bit integer a post report identifier wraps.
pub uninterp spec fn post_report_id_int(id: PostReportId) -> int;

/// The canonical textual form of a report identifier wrapping `k`: the
/// decimal digits of `k`, which fits a 32-bit signed integer.
pub open spec fn is_id_json(s: Seq<char>, k: int) -> bool {
    s == int_digits(k) && -2147483648 <= k <= 2147483647
}

/// The 32-bit integer a comment report identifier wraps.
pub uninterp spec fn comment_report_id_int(id: CommentReportId) -> int;

/// Relies on serde_json::to_string together with PostReportId's derived
/// Serialize impl: the identifier is a newtype over an i32 and serializes
/// as the bare decimal integer, a function of the wrapped value alone.
/// Serializing an integer cannot fail.
#[verifier::external_body]
fn post_report_id_json(id: &PostReportId) -> (r: String)
    ensures
        is_id_json(r@, post_report_id_int(*id)),
{
    serde_json::to_string(id).expect("serializing an integer identifier cannot fail")
}

/// Relies on serde_json::to_string together with CommentReportId's derived
/// Serialize impl: the identifier is a newtype over an i32 and serializes
/// as the bare decimal integer, a function of the wrapped value alone.
/// Serializing an integer cannot fail.
#[verifier::external_body]
fn comment_report_id_json(id: &CommentReportId) -> (r: String)
    ensures
        is_id_json(r@, comment_report_id_int(*id)),
{
    serde_json::to_string(id).expect("serializing an integer identifier cannot fail")
}

/// The integer key of a post report identifier.
pub fn extract_post_report_id(id: PostReportId) -> (r: i32)
    ensures
        r as int == post_report_id_int(id),
{
    let json = post_report_id_json(&id);
    let parsed = parse_i32(json.as_str());
    proof {
        let k = post_report_id_int(id);
        if parsed is None {
            assert(json@ != int_digits((k as i32) as int));
            assert((k as i32) as int == k);
            assert(false);
        } else {
            lemma_int_digits_injective(parsed->Some_0 as int, k);
        }
    }
    parsed.unwrap()
}

/// The integer key of a comment report identifier.
pub fn extract_comment_report_id(id: CommentReportId) -> (r: i32)
    ensures
        r as int == comment_report_id_int(id),
{
    let json = comment_report_id_json(&id);
    let parsed = parse_i32(json.as_str());
    proof {
        let k = comment_report_id_int(id);
        if parsed is None {
            assert(json@ != int_digits((k as i32) as int));
            assert((k as i32) as int == k);
            assert(false);
        } else {
            lemma_int_digits_injective(parsed->Some_0 as int, k);
        }
    }
    parsed.unwrap()
}

} // verus!
