//! Rendering of the strings the notifiers and the storage layer need:
//! instance addresses, report and post addresses, console lines, the fields
//! of a chat embed, and the database connection address. Every result is
//! pinned down as a concatenation of its parts.

use vstd::prelude::*;
use vstd::string::*;
use crate::config::EnvVariables;
use crate::digits::{i32_to_string, int_digits, nat_digits, u32_to_string};
use crate::domain::{CommentReport, PostReport};

verus! {

/// The address of an instance's reports page.
pub fn reports_page_url(domain: &str) -> (r: String)
    ensures
        r@ == "https://"@ + domain@ + "/reports"@,
{
    let mut s: String = "https://".to_owned();
    s.append(domain);
    s.append("/reports");
    proof {
        assert(s@ =~= "https://"@ + domain@ + "/reports"@);
    }
    s
}

/// The address of one post on an instance.
pub fn post_url(domain: &str, post_id: i32) -> (r: String)
    ensures
        r@ == "https://"@ + domain@ + "/post/"@ + int_digits(post_id as int),
{
    let mut s: String = "https://".to_owned();
    s.append(domain);
    s.append("/post/");
    let id = i32_to_string(post_id);
    s.append(id.as_str());
    proof {
        assert(s@ =~= "https://"@ + domain@ + "/post/"@ + int_digits(post_id as int));
    }
    s
}

/// The address of one comment under its post on an instance.
pub fn comment_url(domain: &str, post_id: i32, comment_id: i32) -> (r: String)
    ensures
        r@ == "https://"@ + domain@ + "/post/"@ + int_digits(post_id as int) + "/"@ + int_digits(
            comment_id as int,
        ),
{
    let mut s = post_url(domain, post_id);
    s.append("/");
    let id = i32_to_string(comment_id);
    s.append(id.as_str());
    proof {
        assert(s@ =~= "https://"@ + domain@ + "/post/"@ + int_digits(post_id as int) + "/"@
            + int_digits(comment_id as int));
    }
    s
}

/// The connection address of the relational database.
pub fn postgres_url(env: &EnvVariables) -> (r: String)
    ensures
        r@ == "postgres://"@ + env.db_user@ + ":"@ + env.db_password@ + "@"@ + env.db_host@ + ":"@
            + nat_digits(env.db_port as nat) + "/"@ + env.db_name@,
{
    let mut s: String = "postgres://".to_owned();
    s.append(env.db_user.as_str());
    s.append(":");
    s.append(env.db_password.as_str());
    s.append("@");
    s.append(env.db_host.as_str());
    s.append(":");
    let port = u32_to_string(env.db_port as u32);
    s.append(port.as_str());
    s.append("/");
    s.append(env.db_name.as_str());
    proof {
        assert(s@ =~= "postgres://"@ + env.db_user@ + ":"@ + env.db_password@ + "@"@ + env.db_host@
            + ":"@ + nat_digits(env.db_port as nat) + "/"@ + env.db_name@);
    }
    s
}

/// The console line announcing one new post report.
pub fn console_post_line(domain: &str, report: &PostReport) -> (r: String)
    ensures
        r@ == "New post report from "@ + domain@ + ": report "@ + int_digits(
            report.report_id as int,
        ) + " on post "@ + int_digits(report.post_id as int) + ": "@ + report.reason@,
{
    let mut s: String = "New post report from ".to_owned();
    s.append(domain);
    s.append(": report ");
    let rid = i32_to_string(report.report_id);
    s.append(rid.as_str());
    s.append(" on post ");
    let pid = i32_to_string(report.post_id);
    s.append(pid.as_str());
    s.append(": ");
    s.append(report.reason.as_str());
    proof {
        assert(s@ =~= "New post report from "@ + domain@ + ": report "@ + int_digits(
            report.report_id as int,
        ) + " on post "@ + int_digits(report.post_id as int) + ": "@ + report.reason@);
    }
    s
}

/// The console line announcing one new comment report.
pub fn console_comment_line(domain: &str, report: &CommentReport) -> (r: String)
    ensures
        r@ == "New comment report from "@ + domain@ + ": report "@ + int_digits(
            report.report_id as int,
        ) + " on comment "@ + int_digits(report.comment_id as int) + ": "@ + report.reason@,
{
    let mut s: String = "New comment report from ".to_owned();
    s.append(domain);
    s.append(": report ");
    let rid = i32_to_string(report.report_id);
    s.append(rid.as_str());
    s.append(" on comment ");
    let cid = i32_to_string(report.comment_id);
    s.append(cid.as_str());
    s.append(": ");
    s.append(report.reason.as_str());
    proof {
        assert(s@ =~= "New comment report from "@ + domain@ + ": report "@ + int_digits(
            report.report_id as int,
        ) + " on comment "@ + int_digits(report.comment_id as int) + ": "@ + report.reason@);
    }
    s
}

/// The strings a chat embed for one post report carries.
pub struct PostEmbed {
    pub title: String,
    pub description: String,
    pub post_url: String,
    pub reason: String,
    pub author: String,
    pub view_url: String,
}

/// Builds the embed for one post report: the post's title and body (or
/// "Empty" when the post has none), its address, the report reason, the
/// post author, and the instance's reports page.
pub fn post_embed(domain: &str, report: &PostReport) -> (r: PostEmbed)
    ensures
        r.title@ == report.title@,
        r.description@ == match report.body {
            Some(b) => b@,
            None => "Empty"@,
        },
        r.post_url@ == "https://"@ + domain@ + "/post/"@ + int_digits(report.post_id as int),
        r.reason@ == report.reason@,
        r.author@ == report.author@,
        r.view_url@ == "https://"@ + domain@ + "/reports"@,
{
    let description = match &report.body {
        Some(b) => b.clone(),
        None => "Empty".to_owned(),
    };
    PostEmbed {
        title: report.title.clone(),
        description,
        post_url: post_url(domain, report.post_id),
        reason: report.reason.clone(),
        author: report.author.clone(),
        view_url: reports_page_url(domain),
    }
}

/// The strings a chat embed for one comment report carries.
pub struct CommentEmbed {
    pub description: String,
    pub comment_url: String,
    pub reason: String,
    pub author: String,
    pub view_url: String,
}

/// Builds the embed for one comment report: the comment's content, its
/// address under the post, the report reason, the comment author, and the
/// instance's reports page.
pub fn comment_embed(domain: &str, report: &CommentReport) -> (r: CommentEmbed)
    ensures
        r.description@ == report.content@,
        r.comment_url@ == "https://"@ + domain@ + "/post/"@ + int_digits(report.post_id as int)
            + "/"@ + int_digits(report.comment_id as int),
        r.reason@ == report.reason@,
        r.author@ == report.author@,
        r.view_url@ == "https://"@ + domain@ + "/reports"@,
{
    CommentEmbed {
        description: report.content.clone(),
        comment_url: comment_url(domain, report.post_id, report.comment_id),
        reason: report.reason.clone(),
        author: report.author.clone(),
        view_url: reports_page_url(domain),
    }
}

} // verus!
