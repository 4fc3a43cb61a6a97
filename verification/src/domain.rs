//! The data the engine works on: login credentials for remote instances and
//! the two kinds of moderation report, each modelled in specifications by a
//! mathematical record over character sequences and unbounded integers.

use vstd::prelude::*;

verus! {

/// A login for one remote instance; primary key (domain, username).
pub struct Credential {
    pub domain: String,
    pub username: String,
    pub password: String,
}

/// Mathematical model of a credential.
#[verifier::ext_equal]
pub struct CredentialModel {
    pub domain: Seq<char>,
    pub username: Seq<char>,
    pub password: Seq<char>,
}

impl View for Credential {
    type V = CredentialModel;

    open spec fn view(&self) -> CredentialModel {
        CredentialModel {
            domain: self.domain@,
            username: self.username@,
            password: self.password@,
        }
    }
}

impl Clone for Credential {
    fn clone(&self) -> (res: Self)
        ensures
            res == *self,
    {
        Credential {
            domain: self.domain.clone(),
            username: self.username.clone(),
            password: self.password.clone(),
        }
    }
}

/// The models of a list of credentials, in order.
pub open spec fn creds_seq(v: Seq<Credential>) -> Seq<CredentialModel> {
    v.map_values(|c: Credential| c@)
}

/// A report filed against a post, as the engine reads it: the report
/// identifier, the fields the notifiers render, and the resolved flag.
pub struct PostReport {
    pub report_id: i32,
    pub post_id: i32,
    pub title: String,
    pub body: Option<String>,
    pub reason: String,
    pub author: String,
    pub resolved: bool,
}

/// Mathematical model of a post report.
#[verifier::ext_equal]
pub struct PostReportModel {
    pub report_id: int,
    pub post_id: int,
    pub title: Seq<char>,
    pub body: Option<Seq<char>>,
    pub reason: Seq<char>,
    pub author: Seq<char>,
    pub resolved: bool,
}

impl View for PostReport {
    type V = PostReportModel;

    open spec fn view(&self) -> PostReportModel {
        PostReportModel {
            report_id: self.report_id as int,
            post_id: self.post_id as int,
            title: self.title@,
            body: match self.body {
                Some(b) => Some(b@),
                None => None,
            },
            reason: self.reason@,
            author: self.author@,
            resolved: self.resolved,
        }
    }
}

impl Clone for PostReport {
    fn clone(&self) -> (res: Self)
        ensures
            res == *self,
    {
        PostReport {
            report_id: self.report_id,
            post_id: self.post_id,
            title: self.title.clone(),
            body: match &self.body {
                Some(b) => Some(b.clone()),
                None => None,
            },
            reason: self.reason.clone(),
            author: self.author.clone(),
            resolved: self.resolved,
        }
    }
}

/// A report filed against a comment.
pub struct CommentReport {
    pub report_id: i32,
    pub post_id: i32,
    pub comment_id: i32,
    pub content: String,
    pub reason: String,
    pub author: String,
    pub resolved: bool,
}

/// Mathematical model of a comment report.
#[verifier::ext_equal]
pub struct CommentReportModel {
    pub report_id: int,
    pub post_id: int,
    pub comment_id: int,
    pub content: Seq<char>,
    pub reason: Seq<char>,
    pub author: Seq<char>,
    pub resolved: bool,
}

impl View for CommentReport {
    type V = CommentReportModel;

    open spec fn view(&self) -> CommentReportModel {
        CommentReportModel {
            report_id: self.report_id as int,
            post_id: self.post_id as int,
            comment_id: self.comment_id as int,
            content: self.content@,
            reason: self.reason@,
            author: self.author@,
            resolved: self.resolved,
        }
    }
}

impl Clone for CommentReport {
    fn clone(&self) -> (res: Self)
        ensures
            res == *self,
    {
        CommentReport {
            report_id: self.report_id,
            post_id: self.post_id,
            comment_id: self.comment_id,
            content: self.content.clone(),
            reason: self.reason.clone(),
            author: self.author.clone(),
            resolved: self.resolved,
        }
    }
}

/// The models of a list of post reports, in order.
pub open spec fn posts_seq(v: Seq<PostReport>) -> Seq<PostReportModel> {
    v.map_values(|p: PostReport| p@)
}

/// The models of a list of comment reports, in order.
pub open spec fn comments_seq(v: Seq<CommentReport>) -> Seq<CommentReportModel> {
    v.map_values(|c: CommentReport| c@)
}

/// A failure reported by the remote side of one fetch.
pub struct FetchError {
    pub message: String,
}

impl View for FetchError {
    type V = Seq<char>;

    open spec fn view(&self) -> Seq<char> {
        self.message@
    }
}

impl Clone for FetchError {
    fn clone(&self) -> (res: Self)
        ensures
            res == *self,
    {
        FetchError { message: self.message.clone() }
    }
}

} // verus!
