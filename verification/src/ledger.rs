//! The ledger of already-seen reports: the persistence boundary's
//! mathematical core. Rows are keyed (domain, report id) per report kind;
//! insertion is idempotent ("or ignore", never overwrite, never error), and
//! the known-id lookup filters candidate ids by id alone, domain-agnostic,
//! as the persisted store does.

use vstd::prelude::*;
use crate::domain::{
    comments_seq, posts_seq, CommentReport, CommentReportModel, PostReport, PostReportModel,
};

verus! {

/// One persisted post-report row.
pub struct StoredPostReport {
    pub domain: String,
    pub report: PostReport,
}

/// One persisted comment-report row.
pub struct StoredCommentReport {
    pub domain: String,
    pub report: CommentReport,
}

/// Mathematical model of the ledger: the rows of both tables, in insertion
/// order, each a (domain, report) pair keyed by (domain, report id).
#[verifier::ext_equal]
pub struct LedgerModel {
    pub posts: Seq<(Seq<char>, PostReportModel)>,
    pub comments: Seq<(Seq<char>, CommentReportModel)>,
}

impl LedgerModel {
    /// The ledger with nothing recorded.
    pub open spec fn empty() -> LedgerModel {
        LedgerModel { posts: Seq::empty(), comments: Seq::empty() }
    }

    /// The (domain, id) keys of the recorded post reports.
    pub open spec fn post_keys(self) -> Set<(Seq<char>, int)> {
        self.posts.map_values(|r: (Seq<char>, PostReportModel)| (r.0, r.1.report_id)).to_set()
    }

    /// The ids of the recorded post reports, over all domains.
    pub open spec fn post_ids(self) -> Set<int> {
        self.posts.map_values(|r: (Seq<char>, PostReportModel)| r.1.report_id).to_set()
    }

    /// The (domain, id) keys of the recorded comment reports.
    pub open spec fn comment_keys(self) -> Set<(Seq<char>, int)> {
        self.comments.map_values(|r: (Seq<char>, CommentReportModel)| (r.0, r.1.report_id)).to_set()
    }

    /// The ids of the recorded comment reports, over all domains.
    pub open spec fn comment_ids(self) -> Set<int> {
        self.comments.map_values(|r: (Seq<char>, CommentReportModel)| r.1.report_id).to_set()
    }

    /// Records one post report unless its key is already present.
    pub open spec fn insert_post(self, domain: Seq<char>, r: PostReportModel) -> LedgerModel {
        if self.post_keys().contains((domain, r.report_id)) {
            self
        } else {
            LedgerModel { posts: self.posts.push((domain, r)), comments: self.comments }
        }
    }

    /// Records a batch of post reports in order, each unless already present.
    pub open spec fn insert_posts(self, domain: Seq<char>, rs: Seq<PostReportModel>) -> LedgerModel
        decreases rs.len(),
    {
        if rs.len() == 0 {
            self
        } else {
            self.insert_posts(domain, rs.drop_last()).insert_post(domain, rs.last())
        }
    }

    /// Records one comment report unless its key is already present.
    pub open spec fn insert_comment(self, domain: Seq<char>, r: CommentReportModel) -> LedgerModel {
        if self.comment_keys().contains((domain, r.report_id)) {
            self
        } else {
            LedgerModel { posts: self.posts, comments: self.comments.push((domain, r)) }
        }
    }

    /// Records a batch of comment reports in order, each unless already present.
    pub open spec fn insert_comments(
        self,
        domain: Seq<char>,
        rs: Seq<CommentReportModel>,
    ) -> LedgerModel
        decreases rs.len(),
    {
        if rs.len() == 0 {
            self
        } else {
            self.insert_comments(domain, rs.drop_last()).insert_comment(domain, rs.last())
        }
    }

    /// Each (domain, id) key appears at most once per table.
    pub open spec fn wf(self) -> bool {
        &&& forall|i: int, j: int|
            0 <= i < j < self.posts.len() ==> !(#[trigger] self.posts[i].0 == #[trigger] self.posts[j].0
                && self.posts[i].1.report_id == self.posts[j].1.report_id)
        &&& forall|i: int, j: int|
            0 <= i < j < self.comments.len() ==> !(#[trigger] self.comments[i].0
                == #[trigger] self.comments[j].0
                && self.comments[i].1.report_id == self.comments[j].1.report_id)
    }
}

/// The (domain, id) keys of one incoming post batch.
pub open spec fn post_batch_keys(domain: Seq<char>, rs: Seq<PostReportModel>) -> Set<(Seq<char>, int)> {
    rs.map_values(|r: PostReportModel| (domain, r.report_id)).to_set()
}

/// The (domain, id) keys of one incoming comment batch.
pub open spec fn comment_batch_keys(
    domain: Seq<char>,
    rs: Seq<CommentReportModel>,
) -> Set<(Seq<char>, int)> {
    rs.map_values(|r: CommentReportModel| (domain, r.report_id)).to_set()
}

/// The candidate ids already known to the ledger as post reports.
pub open spec fn known_post_filter(m: LedgerModel, ids: Seq<i32>) -> Seq<i32> {
    ids.filter(|id: i32| m.post_ids().contains(id as int))
}

/// The candidate ids already known to the ledger as comment reports.
pub open spec fn known_comment_filter(m: LedgerModel, ids: Seq<i32>) -> Seq<i32> {
    ids.filter(|id: i32| m.comment_ids().contains(id as int))
}

/// The in-memory ledger of already-seen reports.
pub struct ReportLedger {
    posts: Vec<StoredPostReport>,
    comments: Vec<StoredCommentReport>,
}

impl View for ReportLedger {
    type V = LedgerModel;

    closed spec fn view(&self) -> LedgerModel {
        LedgerModel {
            posts: self.posts@.map_values(|s: StoredPostReport| (s.domain@, s.report@)),
            comments: self.comments@.map_values(|s: StoredCommentReport| (s.domain@, s.report@)),
        }
    }
}

impl ReportLedger {
    /// An empty ledger.
    pub fn new() -> (r: ReportLedger)
        ensures
            r@ == LedgerModel::empty(),
            r@.wf(),
    {
        let r = ReportLedger { posts: Vec::new(), comments: Vec::new() };
        proof {
            assert(r@ =~= LedgerModel::empty());
        }
        r
    }

    /// Whether some domain has recorded a post report with this id.
    pub fn has_post_id(&self, id: i32) -> (b: bool)
        ensures
            b == self@.post_ids().contains(id as int),
    {
        let n = self.posts.len();
        let mut i: usize = 0;
        while i < n
            invariant
                n == self.posts@.len(),
                0 <= i <= n,
                forall|j: int| 0 <= j < i ==> #[trigger] self.posts@[j].report.report_id != id,
            decreases n - i,
        {
            if self.posts[i].report.report_id == id {
                proof {
                    let ids = self.posts@.map_values(
                        |s: StoredPostReport| (s.domain@, s.report@),
                    ).map_values(|r: (Seq<char>, PostReportModel)| r.1.report_id);
                    assert(ids[i as int] == id as int);
                }
                return true;
            }
            i = i + 1;
        }
        proof {
            let ids = self.posts@.map_values(|s: StoredPostReport| (s.domain@, s.report@)).map_values(
                |r: (Seq<char>, PostReportModel)| r.1.report_id,
            );
            assert(forall|j: int| 0 <= j < ids.len() ==> #[trigger] ids[j] != id as int);
            assert(!ids.contains(id as int));
        }
        false
    }

    /// Whether some domain has recorded a comment report with this id.
    pub fn has_comment_id(&self, id: i32) -> (b: bool)
        ensures
            b == self@.comment_ids().contains(id as int),
    {
        let n = self.comments.len();
        let mut i: usize = 0;
        while i < n
            invariant
                n == self.comments@.len(),
                0 <= i <= n,
                forall|j: int| 0 <= j < i ==> #[trigger] self.comments@[j].report.report_id != id,
            decreases n - i,
        {
            if self.comments[i].report.report_id == id {
                proof {
                    let ids = self.comments@.map_values(
                        |s: StoredCommentReport| (s.domain@, s.report@),
                    ).map_values(|r: (Seq<char>, CommentReportModel)| r.1.report_id);
                    assert(ids[i as int] == id as int);
                }
                return true;
            }
            i = i + 1;
        }
        proof {
            let ids = self.comments@.map_values(
                |s: StoredCommentReport| (s.domain@, s.report@),
            ).map_values(|r: (Seq<char>, CommentReportModel)| r.1.report_id);
            assert(forall|j: int| 0 <= j < ids.len() ==> #[trigger] ids[j] != id as int);
            assert(!ids.contains(id as int));
        }
        false
    }

    /// The subset of candidate ids already recorded as post reports, in
    /// candidate order; the lookup is by id alone, over all domains.
    pub fn known_post_ids(&self, candidates: &Vec<i32>) -> (r: Vec<i32>)
        ensures
            r@ == known_post_filter(self@, candidates@),
    {
        let mut out: Vec<i32> = Vec::new();
        let n = candidates.len();
        let mut i: usize = 0;
        while i < n
            invariant
                n == candidates@.len(),
                0 <= i <= n,
                out@ == known_post_filter(self@, candidates@.subrange(0, i as int)),
            decreases n - i,
        {
            let id = candidates[i];
            proof {
                lemma_filter_step::<i32>(
                    candidates@,
                    i as int,
                    |c: i32| self@.post_ids().contains(c as int),
                );
            }
            if self.has_post_id(id) {
                out.push(id);
            }
            i = i + 1;
        }
        proof {
            assert(candidates@.subrange(0, n as int) =~= candidates@);
        }
        out
    }

    /// The subset of candidate ids already recorded as comment reports, in
    /// candidate order; the lookup is by id alone, over all domains.
    pub fn known_comment_ids(&self, candidates: &Vec<i32>) -> (r: Vec<i32>)
        ensures
            r@ == known_comment_filter(self@, candidates@),
    {
        let mut out: Vec<i32> = Vec::new();
        let n = candidates.len();
        let mut i: usize = 0;
        while i < n
            invariant
                n == candidates@.len(),
                0 <= i <= n,
                out@ == known_comment_filter(self@, candidates@.subrange(0, i as int)),
            decreases n - i,
        {
            let id = candidates[i];
            proof {
                lemma_filter_step::<i32>(
                    candidates@,
                    i as int,
                    |c: i32| self@.comment_ids().contains(c as int),
                );
            }
            if self.has_comment_id(id) {
                out.push(id);
            }
            i = i + 1;
        }
        proof {
            assert(candidates@.subrange(0, n as int) =~= candidates@);
        }
        out
    }

    /// The number of recorded post-report rows.
    pub fn post_count(&self) -> (r: usize)
        ensures
            r == self@.posts.len(),
    {
        self.posts.len()
    }

    /// The number of recorded comment-report rows.
    pub fn comment_count(&self) -> (r: usize)
        ensures
            r == self@.comments.len(),
    {
        self.comments.len()
    }

    /// Whether a post report with this (domain, id) key is recorded.
    pub fn contains_post_key(&self, domain: &String, id: i32) -> (b: bool)
        ensures
            b == self@.post_keys().contains((domain@, id as int)),
    {
        let n = self.posts.len();
        let mut i: usize = 0;
        while i < n
            invariant
                n == self.posts@.len(),
                0 <= i <= n,
                forall|j: int|
                    0 <= j < i ==> !(#[trigger] self.posts@[j].domain@ == domain@
                        && self.posts@[j].report.report_id == id),
            decreases n - i,
        {
            if self.posts[i].report.report_id == id && self.posts[i].domain == *domain {
                proof {
                    let keys = self.posts@.map_values(
                        |s: StoredPostReport| (s.domain@, s.report@),
                    ).map_values(|r: (Seq<char>, PostReportModel)| (r.0, r.1.report_id));
                    assert(keys[i as int] == (domain@, id as int));
                }
                return true;
            }
            i = i + 1;
        }
        proof {
            let keys = self.posts@.map_values(|s: StoredPostReport| (s.domain@, s.report@)).map_values(
                |r: (Seq<char>, PostReportModel)| (r.0, r.1.report_id),
            );
            assert(forall|j: int| 0 <= j < keys.len() ==> #[trigger] keys[j] != (domain@, id as int));
            assert(!keys.contains((domain@, id as int)));
        }
        false
    }

    /// Whether a comment report with this (domain, id) key is recorded.
    pub fn contains_comment_key(&self, domain: &String, id: i32) -> (b: bool)
        ensures
            b == self@.comment_keys().contains((domain@, id as int)),
    {
        let n = self.comments.len();
        let mut i: usize = 0;
        while i < n
            invariant
                n == self.comments@.len(),
                0 <= i <= n,
                forall|j: int|
                    0 <= j < i ==> !(#[trigger] self.comments@[j].domain@ == domain@
                        && self.comments@[j].report.report_id == id),
            decreases n - i,
        {
            if self.comments[i].report.report_id == id && self.comments[i].domain == *domain {
                proof {
                    let keys = self.comments@.map_values(
                        |s: StoredCommentReport| (s.domain@, s.report@),
                    ).map_values(|r: (Seq<char>, CommentReportModel)| (r.0, r.1.report_id));
                    assert(keys[i as int] == (domain@, id as int));
                }
                return true;
            }
            i = i + 1;
        }
        proof {
            let keys = self.comments@.map_values(
                |s: StoredCommentReport| (s.domain@, s.report@),
            ).map_values(|r: (Seq<char>, CommentReportModel)| (r.0, r.1.report_id));
            assert(forall|j: int| 0 <= j < keys.len() ==> #[trigger] keys[j] != (domain@, id as int));
            assert(!keys.contains((domain@, id as int)));
        }
        false
    }

    /// Idempotently records a batch of post reports for one domain: a report
    /// whose (domain, id) key is already present is silently absorbed, never
    /// overwritten; the rest are appended in batch order.
    pub fn insert_post_reports(&mut self, domain: &str, reports: &Vec<PostReport>)
        requires
            old(self)@.wf(),
        ensures
            final(self)@ == old(self)@.insert_posts(domain@, posts_seq(reports@)),
            final(self)@.wf(),
    {
        let d: String = domain.to_owned();
        let n = reports.len();
        let mut i: usize = 0;
        while i < n
            invariant
                n == reports@.len(),
                0 <= i <= n,
                d@ == domain@,
                self@ == old(self)@.insert_posts(domain@, posts_seq(reports@.subrange(0, i as int))),
                self@.wf(),
                self@.comments == old(self)@.comments,
            decreases n - i,
        {
            proof {
                let pfx = posts_seq(reports@.subrange(0, i as int));
                let nxt = posts_seq(reports@.subrange(0, i as int + 1));
                assert(nxt.drop_last() =~= pfx);
                assert(nxt.last() == reports@[i as int]@);
            }
            if !self.contains_post_key(&d, reports[i].report_id) {
                let row = StoredPostReport { domain: d.clone(), report: reports[i].clone() };
                let ghost before = self@;
                self.posts.push(row);
                proof {
                    assert(self@.posts =~= before.posts.push((domain@, reports@[i as int]@)));
                    lemma_push_fresh_key_wf(before, domain@, reports@[i as int]@);
                }
            }
            i = i + 1;
        }
        proof {
            assert(reports@.subrange(0, n as int) =~= reports@);
        }
    }

    /// Idempotently records a batch of comment reports for one domain.
    pub fn insert_comment_reports(&mut self, domain: &str, reports: &Vec<CommentReport>)
        requires
            old(self)@.wf(),
        ensures
            final(self)@ == old(self)@.insert_comments(domain@, comments_seq(reports@)),
            final(self)@.wf(),
    {
        let d: String = domain.to_owned();
        let n = reports.len();
        let mut i: usize = 0;
        while i < n
            invariant
                n == reports@.len(),
                0 <= i <= n,
                d@ == domain@,
                self@ == old(self)@.insert_comments(
                    domain@,
                    comments_seq(reports@.subrange(0, i as int)),
                ),
                self@.wf(),
                self@.posts == old(self)@.posts,
            decreases n - i,
        {
            proof {
                let pfx = comments_seq(reports@.subrange(0, i as int));
                let nxt = comments_seq(reports@.subrange(0, i as int + 1));
                assert(nxt.drop_last() =~= pfx);
                assert(nxt.last() == reports@[i as int]@);
            }
            if !self.contains_comment_key(&d, reports[i].report_id) {
                let row = StoredCommentReport { domain: d.clone(), report: reports[i].clone() };
                let ghost before = self@;
                self.comments.push(row);
                proof {
                    assert(self@.comments =~= before.comments.push((domain@, reports@[i as int]@)));
                    lemma_push_fresh_comment_key_wf(before, domain@, reports@[i as int]@);
                }
            }
            i = i + 1;
        }
        proof {
            assert(reports@.subrange(0, n as int) =~= reports@);
        }
    }
}

/// Appending a row whose key is absent keeps the keys distinct.
proof fn lemma_push_fresh_key_wf(m: LedgerModel, domain: Seq<char>, r: PostReportModel)
    requires
        m.wf(),
        !m.post_keys().contains((domain, r.report_id)),
    ensures
        (LedgerModel { posts: m.posts.push((domain, r)), comments: m.comments }).wf(),
{
    let p = m.posts.push((domain, r));
    let keys = m.posts.map_values(|x: (Seq<char>, PostReportModel)| (x.0, x.1.report_id));
    assert forall|i: int, j: int| 0 <= i < j < p.len() implies !(#[trigger] p[i].0 == #[trigger] p[j].0
        && p[i].1.report_id == p[j].1.report_id) by {
        if j == p.len() - 1 {
            assert(keys[i] == (p[i].0, p[i].1.report_id));
            if p[i].0 == domain && p[i].1.report_id == r.report_id {
                assert(keys.contains((domain, r.report_id)));
            }
        }
    }
}

/// Appending a comment row whose key is absent keeps the keys distinct.
proof fn lemma_push_fresh_comment_key_wf(m: LedgerModel, domain: Seq<char>, r: CommentReportModel)
    requires
        m.wf(),
        !m.comment_keys().contains((domain, r.report_id)),
    ensures
        (LedgerModel { posts: m.posts, comments: m.comments.push((domain, r)) }).wf(),
{
    let p = m.comments.push((domain, r));
    let keys = m.comments.map_values(|x: (Seq<char>, CommentReportModel)| (x.0, x.1.report_id));
    assert forall|i: int, j: int| 0 <= i < j < p.len() implies !(#[trigger] p[i].0 == #[trigger] p[j].0
        && p[i].1.report_id == p[j].1.report_id) by {
        if j == p.len() - 1 {
            assert(keys[i] == (p[i].0, p[i].1.report_id));
            if p[i].0 == domain && p[i].1.report_id == r.report_id {
                assert(keys.contains((domain, r.report_id)));
            }
        }
    }
}

/// Inserting a batch of post reports adds exactly the batch's keys.
pub proof fn lemma_insert_posts_keys(m: LedgerModel, domain: Seq<char>, rs: Seq<PostReportModel>)
    ensures
        m.insert_posts(domain, rs).post_keys() == m.post_keys().union(post_batch_keys(domain, rs)),
        m.insert_posts(domain, rs).comments == m.comments,
    decreases rs.len(),
{
    if rs.len() == 0 {
        assert(rs.map_values(|r: PostReportModel| (domain, r.report_id)) =~= Seq::empty());
        assert(m.insert_posts(domain, rs).post_keys() =~= m.post_keys().union(
            post_batch_keys(domain, rs),
        ));
    } else {
        lemma_insert_posts_keys(m, domain, rs.drop_last());
        let m1 = m.insert_posts(domain, rs.drop_last());
        let m2 = m1.insert_post(domain, rs.last());
        let bk = rs.map_values(|r: PostReportModel| (domain, r.report_id));
        assert(bk.drop_last() =~= rs.drop_last().map_values(
            |r: PostReportModel| (domain, r.report_id),
        ));
        if m1.post_keys().contains((domain, rs.last().report_id)) {
            assert(m2.post_keys() =~= m.post_keys().union(post_batch_keys(domain, rs))) by {
                assert forall|k: (Seq<char>, int)| #[trigger] post_batch_keys(domain, rs).contains(k)
                    implies m2.post_keys().contains(k) by {
                    let i = choose|i: int| 0 <= i < bk.len() && bk[i] == k;
                    if i < bk.len() - 1 {
                        assert(bk.drop_last()[i] == k);
                        assert(post_batch_keys(domain, rs.drop_last()).contains(k));
                    }
                }
                assert forall|k: (Seq<char>, int)| #[trigger] post_batch_keys(
                    domain,
                    rs.drop_last(),
                ).contains(k) implies post_batch_keys(domain, rs).contains(k) by {
                    let i = choose|i: int|
                        0 <= i < bk.drop_last().len() && bk.drop_last()[i] == k;
                    assert(bk[i] == k);
                }
            }
        } else {
            let pk = m1.posts.map_values(|x: (Seq<char>, PostReportModel)| (x.0, x.1.report_id));
            assert(m2.posts.map_values(|x: (Seq<char>, PostReportModel)| (x.0, x.1.report_id))
                =~= pk.push((domain, rs.last().report_id)));
            assert(m2.post_keys() =~= m.post_keys().union(post_batch_keys(domain, rs))) by {
                assert forall|k: (Seq<char>, int)| #[trigger] m2.post_keys().contains(k) implies
                    m.post_keys().union(post_batch_keys(domain, rs)).contains(k) by {
                    let q = pk.push((domain, rs.last().report_id));
                    assert(q.contains(k));
                    let i = choose|i: int| 0 <= i < q.len() && q[i] == k;
                    if i == q.len() - 1 {
                        assert(bk[bk.len() - 1] == k);
                        assert(bk.contains(k));
                        assert(post_batch_keys(domain, rs).contains(k));
                    } else {
                        assert(pk[i] == k);
                        assert(pk.contains(k));
                        assert(m1.post_keys().contains(k));
                        if post_batch_keys(domain, rs.drop_last()).contains(k) {
                            let j = choose|j: int|
                                0 <= j < bk.drop_last().len() && bk.drop_last()[j] == k;
                            assert(bk[j] == k);
                            assert(bk.contains(k));
                            assert(post_batch_keys(domain, rs).contains(k));
                        } else {
                            assert(m.post_keys().contains(k));
                        }
                    }
                }
                assert forall|k: (Seq<char>, int)| m.post_keys().union(
                    post_batch_keys(domain, rs),
                ).contains(k) implies #[trigger] m2.post_keys().contains(k) by {
                    let q = pk.push((domain, rs.last().report_id));
                    if m.post_keys().contains(k) || post_batch_keys(domain, rs.drop_last()).contains(
                        k,
                    ) {
                        assert(m1.post_keys().contains(k));
                        assert(pk.contains(k));
                        let i = choose|i: int| 0 <= i < pk.len() && pk[i] == k;
                        assert(q[i] == k);
                    } else {
                        assert(bk.contains(k));
                        let i = choose|i: int| 0 <= i < bk.len() && bk[i] == k;
                        if i < bk.len() - 1 {
                            assert(bk.drop_last()[i] == k);
                            assert(post_batch_keys(domain, rs.drop_last()).contains(k));
                        } else {
                            assert(q[q.len() - 1] == k);
                        }
                    }
                }
            }
        }
    }
}

/// Insertion only appends: every row recorded before is still there, in
/// place, after a batch is recorded.
pub proof fn lemma_insert_posts_grows(m: LedgerModel, domain: Seq<char>, rs: Seq<PostReportModel>)
    ensures
        m.posts.is_prefix_of(m.insert_posts(domain, rs).posts),
        m.post_ids().subset_of(m.insert_posts(domain, rs).post_ids()),
    decreases rs.len(),
{
    if rs.len() == 0 {
        assert(m.posts.is_prefix_of(m.posts));
    } else {
        lemma_insert_posts_grows(m, domain, rs.drop_last());
        let m1 = m.insert_posts(domain, rs.drop_last());
        let m2 = m1.insert_post(domain, rs.last());
        assert(m1.posts.is_prefix_of(m2.posts)) by {
            if !m1.post_keys().contains((domain, rs.last().report_id)) {
                assert(m1.posts.is_prefix_of(m1.posts.push((domain, rs.last()))));
            } else {
                assert(m1.posts.is_prefix_of(m1.posts));
            }
        }
        assert(m.posts.is_prefix_of(m2.posts));
        assert forall|i: int| m.post_ids().contains(i) implies #[trigger] m2.post_ids().contains(
            i,
        ) by {
            let ids = m.posts.map_values(|r: (Seq<char>, PostReportModel)| r.1.report_id);
            let j = choose|j: int| 0 <= j < ids.len() && ids[j] == i;
            let ids2 = m2.posts.map_values(|r: (Seq<char>, PostReportModel)| r.1.report_id);
            assert(m2.posts[j] == m.posts[j]);
            assert(ids2[j] == i);
        }
    }
}

/// Insertion only appends, for the comment table.
pub proof fn lemma_insert_comments_grows(
    m: LedgerModel,
    domain: Seq<char>,
    rs: Seq<CommentReportModel>,
)
    ensures
        m.comments.is_prefix_of(m.insert_comments(domain, rs).comments),
        m.comment_ids().subset_of(m.insert_comments(domain, rs).comment_ids()),
    decreases rs.len(),
{
    if rs.len() == 0 {
        assert(m.comments.is_prefix_of(m.comments));
    } else {
        lemma_insert_comments_grows(m, domain, rs.drop_last());
        let m1 = m.insert_comments(domain, rs.drop_last());
        let m2 = m1.insert_comment(domain, rs.last());
        assert(m1.comments.is_prefix_of(m2.comments)) by {
            if !m1.comment_keys().contains((domain, rs.last().report_id)) {
                assert(m1.comments.is_prefix_of(m1.comments.push((domain, rs.last()))));
            } else {
                assert(m1.comments.is_prefix_of(m1.comments));
            }
        }
        assert(m.comments.is_prefix_of(m2.comments));
        assert forall|i: int| m.comment_ids().contains(i) implies #[trigger] m2.comment_ids().contains(
            i,
        ) by {
            let ids = m.comments.map_values(|r: (Seq<char>, CommentReportModel)| r.1.report_id);
            let j = choose|j: int| 0 <= j < ids.len() && ids[j] == i;
            let ids2 = m2.comments.map_values(|r: (Seq<char>, CommentReportModel)| r.1.report_id);
            assert(m2.comments[j] == m.comments[j]);
            assert(ids2[j] == i);
        }
    }
}

/// A recorded (domain, id) key means the id itself is recorded.
pub proof fn lemma_post_key_gives_id(m: LedgerModel, domain: Seq<char>, id: int)
    requires
        m.post_keys().contains((domain, id)),
    ensures
        m.post_ids().contains(id),
{
    let keys = m.posts.map_values(|r: (Seq<char>, PostReportModel)| (r.0, r.1.report_id));
    let j = choose|j: int| 0 <= j < keys.len() && keys[j] == (domain, id);
    let ids = m.posts.map_values(|r: (Seq<char>, PostReportModel)| r.1.report_id);
    assert(ids[j] == id);
}

/// A recorded (domain, id) comment key means the id itself is recorded.
pub proof fn lemma_comment_key_gives_id(m: LedgerModel, domain: Seq<char>, id: int)
    requires
        m.comment_keys().contains((domain, id)),
    ensures
        m.comment_ids().contains(id),
{
    let keys = m.comments.map_values(|r: (Seq<char>, CommentReportModel)| (r.0, r.1.report_id));
    let j = choose|j: int| 0 <= j < keys.len() && keys[j] == (domain, id);
    let ids = m.comments.map_values(|r: (Seq<char>, CommentReportModel)| r.1.report_id);
    assert(ids[j] == id);
}

/// Inserting a batch whose keys are all present leaves the ledger unchanged.
pub proof fn lemma_insert_posts_absorbed(m: LedgerModel, domain: Seq<char>, rs: Seq<PostReportModel>)
    requires
        post_batch_keys(domain, rs).subset_of(m.post_keys()),
    ensures
        m.insert_posts(domain, rs) == m,
    decreases rs.len(),
{
    if rs.len() > 0 {
        let bk = rs.map_values(|r: PostReportModel| (domain, r.report_id));
        assert(bk.drop_last() =~= rs.drop_last().map_values(
            |r: PostReportModel| (domain, r.report_id),
        ));
        assert forall|k: (Seq<char>, int)| #[trigger] post_batch_keys(
            domain,
            rs.drop_last(),
        ).contains(k) implies m.post_keys().contains(k) by {
            let i = choose|i: int| 0 <= i < bk.drop_last().len() && bk.drop_last()[i] == k;
            assert(bk[i] == k);
        }
        lemma_insert_posts_absorbed(m, domain, rs.drop_last());
        assert(bk[bk.len() - 1] == (domain, rs.last().report_id));
        assert(m.post_keys().contains((domain, rs.last().report_id)));
    }
}

/// Idempotent persistence: recording the same post batch twice is the same
/// as recording it once; the second insertion never errors and changes
/// nothing.
pub proof fn lemma_insert_posts_idempotent(
    m: LedgerModel,
    domain: Seq<char>,
    rs: Seq<PostReportModel>,
)
    ensures
        m.insert_posts(domain, rs).insert_posts(domain, rs) == m.insert_posts(domain, rs),
{
    let m1 = m.insert_posts(domain, rs);
    lemma_insert_posts_keys(m, domain, rs);
    lemma_insert_posts_absorbed(m1, domain, rs);
}

/// Dedup correctness: for any candidate id sequence, the known-id lookup
/// returns exactly those candidates recorded as post reports — the
/// intersection, as sets, of the candidates with the stored ids.
pub proof fn lemma_known_post_ids_intersection(m: LedgerModel, ids: Seq<i32>)
    ensures
        forall|id: i32|
            #[trigger] known_post_filter(m, ids).contains(id) <==> ids.contains(id)
                && m.post_ids().contains(id as int),
{
    let pred = |id: i32| m.post_ids().contains(id as int);
    assert forall|id: i32| #[trigger] known_post_filter(m, ids).contains(id) implies ids.contains(id)
        && m.post_ids().contains(id as int) by {
        let i = choose|i: int|
            0 <= i < known_post_filter(m, ids).len() && known_post_filter(m, ids)[i] == id;
        ids.lemma_filter_pred(pred, i);
        ids.lemma_filter_contains_rev(pred, id);
    }
    assert forall|id: i32| ids.contains(id) && m.post_ids().contains(id as int) implies
        #[trigger] known_post_filter(m, ids).contains(id) by {
        let i = choose|i: int| 0 <= i < ids.len() && ids[i] == id;
        ids.lemma_filter_contains(pred, i);
    }
}

/// Dedup correctness for comment reports: the known-id lookup returns
/// exactly the intersection of the candidates with the stored ids.
pub proof fn lemma_known_comment_ids_intersection(m: LedgerModel, ids: Seq<i32>)
    ensures
        forall|id: i32|
            #[trigger] known_comment_filter(m, ids).contains(id) <==> ids.contains(id)
                && m.comment_ids().contains(id as int),
{
    let pred = |id: i32| m.comment_ids().contains(id as int);
    assert forall|id: i32| #[trigger] known_comment_filter(m, ids).contains(id) implies ids.contains(
        id,
    ) && m.comment_ids().contains(id as int) by {
        let i = choose|i: int|
            0 <= i < known_comment_filter(m, ids).len() && known_comment_filter(m, ids)[i] == id;
        ids.lemma_filter_pred(pred, i);
        ids.lemma_filter_contains_rev(pred, id);
    }
    assert forall|id: i32| ids.contains(id) && m.comment_ids().contains(id as int) implies
        #[trigger] known_comment_filter(m, ids).contains(id) by {
        let i = choose|i: int| 0 <= i < ids.len() && ids[i] == id;
        ids.lemma_filter_contains(pred, i);
    }
}

/// Inserting a batch of comment reports adds exactly the batch's keys.
pub proof fn lemma_insert_comments_keys(
    m: LedgerModel,
    domain: Seq<char>,
    rs: Seq<CommentReportModel>,
)
    ensures
        m.insert_comments(domain, rs).comment_keys() == m.comment_keys().union(
            comment_batch_keys(domain, rs),
        ),
        m.insert_comments(domain, rs).posts == m.posts,
    decreases rs.len(),
{
    if rs.len() == 0 {
        assert(rs.map_values(|r: CommentReportModel| (domain, r.report_id)) =~= Seq::empty());
        assert(m.insert_comments(domain, rs).comment_keys() =~= m.comment_keys().union(
            comment_batch_keys(domain, rs),
        ));
    } else {
        lemma_insert_comments_keys(m, domain, rs.drop_last());
        let m1 = m.insert_comments(domain, rs.drop_last());
        let m2 = m1.insert_comment(domain, rs.last());
        let bk = rs.map_values(|r: CommentReportModel| (domain, r.report_id));
        assert(bk.drop_last() =~= rs.drop_last().map_values(
            |r: CommentReportModel| (domain, r.report_id),
        ));
        if m1.comment_keys().contains((domain, rs.last().report_id)) {
            assert(m2.comment_keys() =~= m.comment_keys().union(comment_batch_keys(domain, rs))) by {
                assert forall|k: (Seq<char>, int)| #[trigger] comment_batch_keys(
                    domain,
                    rs,
                ).contains(k) implies m2.comment_keys().contains(k) by {
                    let i = choose|i: int| 0 <= i < bk.len() && bk[i] == k;
                    if i < bk.len() - 1 {
                        assert(bk.drop_last()[i] == k);
                        assert(comment_batch_keys(domain, rs.drop_last()).contains(k));
                    }
                }
                assert forall|k: (Seq<char>, int)| #[trigger] comment_batch_keys(
                    domain,
                    rs.drop_last(),
                ).contains(k) implies comment_batch_keys(domain, rs).contains(k) by {
                    let i = choose|i: int|
                        0 <= i < bk.drop_last().len() && bk.drop_last()[i] == k;
                    assert(bk[i] == k);
                }
            }
        } else {
            let pk = m1.comments.map_values(
                |x: (Seq<char>, CommentReportModel)| (x.0, x.1.report_id),
            );
            assert(m2.comments.map_values(|x: (Seq<char>, CommentReportModel)| (x.0, x.1.report_id))
                =~= pk.push((domain, rs.last().report_id)));
            assert(m2.comment_keys() =~= m.comment_keys().union(comment_batch_keys(domain, rs))) by {
                assert forall|k: (Seq<char>, int)| #[trigger] m2.comment_keys().contains(k) implies
                    m.comment_keys().union(comment_batch_keys(domain, rs)).contains(k) by {
                    let q = pk.push((domain, rs.last().report_id));
                    assert(q.contains(k));
                    let i = choose|i: int| 0 <= i < q.len() && q[i] == k;
                    if i == q.len() - 1 {
                        assert(bk[bk.len() - 1] == k);
                        assert(bk.contains(k));
                        assert(comment_batch_keys(domain, rs).contains(k));
                    } else {
                        assert(pk[i] == k);
                        assert(pk.contains(k));
                        assert(m1.comment_keys().contains(k));
                        if comment_batch_keys(domain, rs.drop_last()).contains(k) {
                            let j = choose|j: int|
                                0 <= j < bk.drop_last().len() && bk.drop_last()[j] == k;
                            assert(bk[j] == k);
                            assert(bk.contains(k));
                            assert(comment_batch_keys(domain, rs).contains(k));
                        } else {
                            assert(m.comment_keys().contains(k));
                        }
                    }
                }
                assert forall|k: (Seq<char>, int)| m.comment_keys().union(
                    comment_batch_keys(domain, rs),
                ).contains(k) implies #[trigger] m2.comment_keys().contains(k) by {
                    let q = pk.push((domain, rs.last().report_id));
                    if m.comment_keys().contains(k) || comment_batch_keys(
                        domain,
                        rs.drop_last(),
                    ).contains(k) {
                        assert(m1.comment_keys().contains(k));
                        assert(pk.contains(k));
                        let i = choose|i: int| 0 <= i < pk.len() && pk[i] == k;
                        assert(q[i] == k);
                    } else {
                        assert(bk.contains(k));
                        let i = choose|i: int| 0 <= i < bk.len() && bk[i] == k;
                        if i < bk.len() - 1 {
                            assert(bk.drop_last()[i] == k);
                            assert(comment_batch_keys(domain, rs.drop_last()).contains(k));
                        } else {
                            assert(q[q.len() - 1] == k);
                        }
                    }
                }
            }
        }
    }
}

/// Inserting a comment batch whose keys are all present changes nothing.
pub proof fn lemma_insert_comments_absorbed(
    m: LedgerModel,
    domain: Seq<char>,
    rs: Seq<CommentReportModel>,
)
    requires
        comment_batch_keys(domain, rs).subset_of(m.comment_keys()),
    ensures
        m.insert_comments(domain, rs) == m,
    decreases rs.len(),
{
    if rs.len() > 0 {
        let bk = rs.map_values(|r: CommentReportModel| (domain, r.report_id));
        assert(bk.drop_last() =~= rs.drop_last().map_values(
            |r: CommentReportModel| (domain, r.report_id),
        ));
        assert forall|k: (Seq<char>, int)| #[trigger] comment_batch_keys(
            domain,
            rs.drop_last(),
        ).contains(k) implies m.comment_keys().contains(k) by {
            let i = choose|i: int| 0 <= i < bk.drop_last().len() && bk.drop_last()[i] == k;
            assert(bk[i] == k);
        }
        lemma_insert_comments_absorbed(m, domain, rs.drop_last());
        assert(bk[bk.len() - 1] == (domain, rs.last().report_id));
        assert(m.comment_keys().contains((domain, rs.last().report_id)));
    }
}

/// Idempotent persistence for comment reports: recording the same batch
/// twice is the same as recording it once.
pub proof fn lemma_insert_comments_idempotent(
    m: LedgerModel,
    domain: Seq<char>,
    rs: Seq<CommentReportModel>,
)
    ensures
        m.insert_comments(domain, rs).insert_comments(domain, rs) == m.insert_comments(domain, rs),
{
    let m1 = m.insert_comments(domain, rs);
    lemma_insert_comments_keys(m, domain, rs);
    lemma_insert_comments_absorbed(m1, domain, rs);
}

/// One step of filtering: extending the prefix by one candidate extends the
/// filtered prefix by that candidate exactly when the predicate holds.
pub(crate) proof fn lemma_filter_step<A>(s: Seq<A>, i: int, pred: spec_fn(A) -> bool)
    requires
        0 <= i < s.len(),
    ensures
        pred(s[i]) ==> s.subrange(0, i + 1).filter(pred) == s.subrange(0, i).filter(pred).push(s[i]),
        !pred(s[i]) ==> s.subrange(0, i + 1).filter(pred) == s.subrange(0, i).filter(pred),
{
    let q = s.subrange(0, i + 1);
    assert(q.drop_last() =~= s.subrange(0, i));
    assert(q.last() == s[i]);
    reveal_with_fuel(Seq::filter, 2);
    assert(q.filter(pred) == if pred(q.last()) {
        q.drop_last().filter(pred).push(q.last())
    } else {
        q.drop_last().filter(pred)
    });
}

} // verus!
