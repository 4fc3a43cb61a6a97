//! The per-cycle engine: candidate ids of a fetched batch, the resolved and
//! dedup filters, persisting the new reports, and the whole cycle over a
//! sequence of per-client fetch results with per-client failure isolation.

use vstd::prelude::*;
use crate::domain::{
    comments_seq, posts_seq, CommentReport, CommentReportModel, FetchError, PostReport,
    PostReportModel,
};
use crate::ledger::{
    known_comment_filter, known_post_filter, lemma_filter_step,
    lemma_known_comment_ids_intersection, lemma_known_post_ids_intersection, LedgerModel,
    ReportLedger,
};

verus! {

/// The ids of a candidate sequence, as mathematical integers.
pub open spec fn ids_set(s: Seq<i32>) -> Set<int> {
    s.map_values(|id: i32| id as int).to_set()
}

/// The post reports of a batch that are new against a set of known ids:
/// not yet resolved remotely and not recorded before.
pub open spec fn new_post_filter(rs: Seq<PostReportModel>, known: Set<int>) -> Seq<PostReportModel> {
    rs.filter(|p: PostReportModel| !p.resolved && !known.contains(p.report_id))
}

/// The comment reports of a batch that are new against a set of known ids.
pub open spec fn new_comment_filter(
    rs: Seq<CommentReportModel>,
    known: Set<int>,
) -> Seq<CommentReportModel> {
    rs.filter(|c: CommentReportModel| !c.resolved && !known.contains(c.report_id))
}

/// The report id of each post report in a batch, in batch order.
pub fn post_report_ids(reports: &Vec<PostReport>) -> (r: Vec<i32>)
    ensures
        r@.len() == reports@.len(),
        forall|i: int| 0 <= i < r@.len() ==> #[trigger] r@[i] == reports@[i].report_id,
{
    let mut out: Vec<i32> = Vec::new();
    let n = reports.len();
    let mut i: usize = 0;
    while i < n
        invariant
            n == reports@.len(),
            0 <= i <= n,
            out@.len() == i,
            forall|j: int| 0 <= j < i ==> #[trigger] out@[j] == reports@[j].report_id,
        decreases n - i,
    {
        out.push(reports[i].report_id);
        i = i + 1;
    }
    out
}

/// The report id of each comment report in a batch, in batch order.
pub fn comment_report_ids(reports: &Vec<CommentReport>) -> (r: Vec<i32>)
    ensures
        r@.len() == reports@.len(),
        forall|i: int| 0 <= i < r@.len() ==> #[trigger] r@[i] == reports@[i].report_id,
{
    let mut out: Vec<i32> = Vec::new();
    let n = reports.len();
    let mut i: usize = 0;
    while i < n
        invariant
            n == reports@.len(),
            0 <= i <= n,
            out@.len() == i,
            forall|j: int| 0 <= j < i ==> #[trigger] out@[j] == reports@[j].report_id,
        decreases n - i,
    {
        out.push(reports[i].report_id);
        i = i + 1;
    }
    out
}

/// Whether a candidate id list holds this id.
fn ids_contain(ids: &Vec<i32>, id: i32) -> (b: bool)
    ensures
        b == ids_set(ids@).contains(id as int),
{
    let n = ids.len();
    let mut i: usize = 0;
    while i < n
        invariant
            n == ids@.len(),
            0 <= i <= n,
            forall|j: int| 0 <= j < i ==> #[trigger] ids@[j] != id,
        decreases n - i,
    {
        if ids[i] == id {
            proof {
                let m = ids@.map_values(|x: i32| x as int);
                assert(m[i as int] == id as int);
            }
            return true;
        }
        i = i + 1;
    }
    proof {
        let m = ids@.map_values(|x: i32| x as int);
        assert(forall|j: int| 0 <= j < m.len() ==> #[trigger] m[j] != id as int);
        assert(!m.contains(id as int));
    }
    false
}

/// The post reports of a batch that are new against the given known ids:
/// exactly those with resolved still false and an id outside the known set,
/// in batch order. The complement of the known set within the batch is what
/// is persisted and announced.
pub fn select_new_post_reports(reports: &Vec<PostReport>, known: &Vec<i32>) -> (r: Vec<PostReport>)
    ensures
        posts_seq(r@) == new_post_filter(posts_seq(reports@), ids_set(known@)),
{
    let mut out: Vec<PostReport> = Vec::new();
    let n = reports.len();
    let mut i: usize = 0;
    while i < n
        invariant
            n == reports@.len(),
            0 <= i <= n,
            posts_seq(out@) == posts_seq(reports@).subrange(0, i as int).filter(
                |p: PostReportModel| !p.resolved && !ids_set(known@).contains(p.report_id),
            ),
        decreases n - i,
    {
        proof {
            lemma_filter_step::<PostReportModel>(
                posts_seq(reports@),
                i as int,
                |p: PostReportModel| !p.resolved && !ids_set(known@).contains(p.report_id),
            );
        }
        let keep = !reports[i].resolved && !ids_contain(known, reports[i].report_id);
        if keep {
            let ghost prev = posts_seq(out@);
            out.push(reports[i].clone());
            proof {
                assert(posts_seq(out@) =~= prev.push(reports@[i as int]@));
            }
        }
        i = i + 1;
    }
    proof {
        assert(posts_seq(reports@).subrange(0, n as int) =~= posts_seq(reports@));
    }
    out
}

/// The comment reports of a batch that are new against the given known ids.
pub fn select_new_comment_reports(reports: &Vec<CommentReport>, known: &Vec<i32>) -> (r: Vec<
    CommentReport,
>)
    ensures
        comments_seq(r@) == new_comment_filter(comments_seq(reports@), ids_set(known@)),
{
    let mut out: Vec<CommentReport> = Vec::new();
    let n = reports.len();
    let mut i: usize = 0;
    while i < n
        invariant
            n == reports@.len(),
            0 <= i <= n,
            comments_seq(out@) == comments_seq(reports@).subrange(0, i as int).filter(
                |c: CommentReportModel| !c.resolved && !ids_set(known@).contains(c.report_id),
            ),
        decreases n - i,
    {
        proof {
            lemma_filter_step::<CommentReportModel>(
                comments_seq(reports@),
                i as int,
                |c: CommentReportModel| !c.resolved && !ids_set(known@).contains(c.report_id),
            );
        }
        let keep = !reports[i].resolved && !ids_contain(known, reports[i].report_id);
        if keep {
            let ghost prev = comments_seq(out@);
            out.push(reports[i].clone());
            proof {
                assert(comments_seq(out@) =~= prev.push(reports@[i as int]@));
            }
        }
        i = i + 1;
    }
    proof {
        assert(comments_seq(reports@).subrange(0, n as int) =~= comments_seq(reports@));
    }
    out
}

/// Two filters of the same sequence agree when their predicates agree on
/// every element of the sequence.
proof fn lemma_filter_agree<A>(s: Seq<A>, p1: spec_fn(A) -> bool, p2: spec_fn(A) -> bool)
    requires
        forall|i: int| 0 <= i < s.len() ==> p1(#[trigger] s[i]) == p2(s[i]),
    ensures
        s.filter(p1) == s.filter(p2),
    decreases s.len(),
{
    reveal_with_fuel(Seq::filter, 2);
    if s.len() > 0 {
        assert(forall|i: int|
            0 <= i < s.drop_last().len() ==> #[trigger] s.drop_last()[i] == s[i]);
        lemma_filter_agree(s.drop_last(), p1, p2);
        assert(p1(s.last()) == p2(s.last()));
    }
}

/// Fetches, dedups, persists one post batch for one domain: returns exactly
/// the reports that are unresolved and unknown to the ledger, in batch
/// order, and records exactly those under the domain's key.
pub fn process_post_reports(ledger: &mut ReportLedger, domain: &str, fetched: &Vec<PostReport>) -> (r:
    Vec<PostReport>)
    requires
        old(ledger)@.wf(),
    ensures
        posts_seq(r@) == new_post_filter(posts_seq(fetched@), old(ledger)@.post_ids()),
        final(ledger)@ == old(ledger)@.insert_posts(domain@, posts_seq(r@)),
        final(ledger)@.wf(),
{
    let ids = post_report_ids(fetched);
    let known = ledger.known_post_ids(&ids);
    let new_reports = select_new_post_reports(fetched, &known);
    proof {
        lemma_known_post_ids_intersection(ledger@, ids@);
        let ps = posts_seq(fetched@);
        assert forall|i: int| 0 <= i < ps.len() implies (!#[trigger] ps[i].resolved && !ids_set(
            known@,
        ).contains(ps[i].report_id)) == (!ps[i].resolved && !ledger@.post_ids().contains(
            ps[i].report_id,
        )) by {
            let idv: i32 = fetched@[i].report_id;
            assert(ids@[i] == idv);
            assert(ids@.contains(idv));
            assert(ps[i].report_id == idv as int);
            if ledger@.post_ids().contains(idv as int) {
                assert(known_post_filter(ledger@, ids@).contains(idv));
                let j = choose|j: int| 0 <= j < known@.len() && known@[j] == idv;
                assert(known@.map_values(|x: i32| x as int)[j] == idv as int);
            } else {
                if ids_set(known@).contains(idv as int) {
                    let m = known@.map_values(|x: i32| x as int);
                    let j = choose|j: int| 0 <= j < m.len() && m[j] == idv as int;
                    assert(known@[j] == idv);
                    assert(known_post_filter(ledger@, ids@).contains(idv));
                }
            }
        }
        lemma_filter_agree(
            ps,
            |p: PostReportModel| !p.resolved && !ids_set(known@).contains(p.report_id),
            |p: PostReportModel| !p.resolved && !ledger@.post_ids().contains(p.report_id),
        );
    }
    ledger.insert_post_reports(domain, &new_reports);
    new_reports
}

/// Fetches, dedups, persists one comment batch for one domain.
pub fn process_comment_reports(
    ledger: &mut ReportLedger,
    domain: &str,
    fetched: &Vec<CommentReport>,
) -> (r: Vec<CommentReport>)
    requires
        old(ledger)@.wf(),
    ensures
        comments_seq(r@) == new_comment_filter(comments_seq(fetched@), old(ledger)@.comment_ids()),
        final(ledger)@ == old(ledger)@.insert_comments(domain@, comments_seq(r@)),
        final(ledger)@.wf(),
{
    let ids = comment_report_ids(fetched);
    let known = ledger.known_comment_ids(&ids);
    let new_reports = select_new_comment_reports(fetched, &known);
    proof {
        lemma_known_comment_ids_intersection(ledger@, ids@);
        let cs = comments_seq(fetched@);
        assert forall|i: int| 0 <= i < cs.len() implies (!#[trigger] cs[i].resolved && !ids_set(
            known@,
        ).contains(cs[i].report_id)) == (!cs[i].resolved && !ledger@.comment_ids().contains(
            cs[i].report_id,
        )) by {
            let idv: i32 = fetched@[i].report_id;
            assert(ids@[i] == idv);
            assert(ids@.contains(idv));
            assert(cs[i].report_id == idv as int);
            if ledger@.comment_ids().contains(idv as int) {
                assert(known_comment_filter(ledger@, ids@).contains(idv));
                let j = choose|j: int| 0 <= j < known@.len() && known@[j] == idv;
                assert(known@.map_values(|x: i32| x as int)[j] == idv as int);
            } else {
                if ids_set(known@).contains(idv as int) {
                    let m = known@.map_values(|x: i32| x as int);
                    let j = choose|j: int| 0 <= j < m.len() && m[j] == idv as int;
                    assert(known@[j] == idv);
                    assert(known_comment_filter(ledger@, ids@).contains(idv));
                }
            }
        }
        lemma_filter_agree(
            cs,
            |c: CommentReportModel| !c.resolved && !ids_set(known@).contains(c.report_id),
            |c: CommentReportModel| !c.resolved && !ledger@.comment_ids().contains(c.report_id),
        );
    }
    ledger.insert_comment_reports(domain, &new_reports);
    new_reports
}

/// What one cycle got from one remote instance: the domain and the result
/// of each of the two fetches, post reports first.
pub struct ClientFetch {
    pub domain: String,
    pub posts: Result<Vec<PostReport>, FetchError>,
    pub comments: Result<Vec<CommentReport>, FetchError>,
}

/// Mathematical model of one client's fetch results.
#[verifier::ext_equal]
pub struct ClientFetchModel {
    pub domain: Seq<char>,
    pub posts: Result<Seq<PostReportModel>, Seq<char>>,
    pub comments: Result<Seq<CommentReportModel>, Seq<char>>,
}

impl View for ClientFetch {
    type V = ClientFetchModel;

    open spec fn view(&self) -> ClientFetchModel {
        ClientFetchModel {
            domain: self.domain@,
            posts: match self.posts {
                Ok(ps) => Ok(posts_seq(ps@)),
                Err(e) => Err(e@),
            },
            comments: match self.comments {
                Ok(cs) => Ok(comments_seq(cs@)),
                Err(e) => Err(e@),
            },
        }
    }
}

/// What one cycle did for one client: nothing if the post fetch failed,
/// posts only if the comment fetch failed afterwards, or both batches.
pub enum ClientOutcome {
    Failed { domain: String, error: FetchError },
    PostsOnly { domain: String, new_posts: Vec<PostReport>, error: FetchError },
    Complete { domain: String, new_posts: Vec<PostReport>, new_comments: Vec<CommentReport> },
}

/// Mathematical model of one client's outcome.
#[verifier::ext_equal]
pub enum ClientOutcomeModel {
    Failed { domain: Seq<char>, error: Seq<char> },
    PostsOnly { domain: Seq<char>, new_posts: Seq<PostReportModel>, error: Seq<char> },
    Complete {
        domain: Seq<char>,
        new_posts: Seq<PostReportModel>,
        new_comments: Seq<CommentReportModel>,
    },
}

impl View for ClientOutcome {
    type V = ClientOutcomeModel;

    open spec fn view(&self) -> ClientOutcomeModel {
        match self {
            ClientOutcome::Failed { domain, error } => ClientOutcomeModel::Failed {
                domain: domain@,
                error: error@,
            },
            ClientOutcome::PostsOnly { domain, new_posts, error } => ClientOutcomeModel::PostsOnly {
                domain: domain@,
                new_posts: posts_seq(new_posts@),
                error: error@,
            },
            ClientOutcome::Complete { domain, new_posts, new_comments } => ClientOutcomeModel::Complete {
                domain: domain@,
                new_posts: posts_seq(new_posts@),
                new_comments: comments_seq(new_comments@),
            },
        }
    }
}

/// The ledger after processing one client's fetch results: a failed post
/// fetch contributes nothing; otherwise the new post reports are recorded,
/// and the new comment reports too when that fetch succeeded.
pub open spec fn client_step_ledger(m: LedgerModel, f: ClientFetchModel) -> LedgerModel {
    match f.posts {
        Err(_) => m,
        Ok(ps) => {
            let m1 = m.insert_posts(f.domain, new_post_filter(ps, m.post_ids()));
            match f.comments {
                Err(_) => m1,
                Ok(cs) => m1.insert_comments(
                    f.domain,
                    new_comment_filter(cs, m1.comment_ids()),
                ),
            }
        },
    }
}

/// The outcome reported for one client's fetch results.
pub open spec fn client_step_outcome(m: LedgerModel, f: ClientFetchModel) -> ClientOutcomeModel {
    match f.posts {
        Err(e) => ClientOutcomeModel::Failed { domain: f.domain, error: e },
        Ok(ps) => {
            let new_posts = new_post_filter(ps, m.post_ids());
            let m1 = m.insert_posts(f.domain, new_posts);
            match f.comments {
                Err(e) => ClientOutcomeModel::PostsOnly {
                    domain: f.domain,
                    new_posts: new_posts,
                    error: e,
                },
                Ok(cs) => ClientOutcomeModel::Complete {
                    domain: f.domain,
                    new_posts: new_posts,
                    new_comments: new_comment_filter(cs, m1.comment_ids()),
                },
            }
        },
    }
}

/// Processes one client's fetch results: posts fully first, then comments;
/// a failed post fetch leaves the ledger untouched, a failed comment fetch
/// keeps the post work already done.
pub fn process_client(ledger: &mut ReportLedger, fetch: ClientFetch) -> (r: ClientOutcome)
    requires
        old(ledger)@.wf(),
    ensures
        final(ledger)@ == client_step_ledger(old(ledger)@, fetch@),
        final(ledger)@.wf(),
        r@ == client_step_outcome(old(ledger)@, fetch@),
{
    let ClientFetch { domain, posts, comments } = fetch;
    match posts {
        Err(error) => ClientOutcome::Failed { domain, error },
        Ok(post_batch) => {
            let new_posts = process_post_reports(ledger, domain.as_str(), &post_batch);
            match comments {
                Err(error) => ClientOutcome::PostsOnly { domain, new_posts, error },
                Ok(comment_batch) => {
                    let new_comments = process_comment_reports(
                        ledger,
                        domain.as_str(),
                        &comment_batch,
                    );
                    ClientOutcome::Complete { domain, new_posts, new_comments }
                },
            }
        },
    }
}

/// The models of a list of fetch results, in order.
pub open spec fn fetches_seq(v: Seq<ClientFetch>) -> Seq<ClientFetchModel> {
    v.map_values(|f: ClientFetch| f@)
}

/// The models of a list of outcomes, in order.
pub open spec fn outcomes_seq(v: Seq<ClientOutcome>) -> Seq<ClientOutcomeModel> {
    v.map_values(|o: ClientOutcome| o@)
}

/// The ledger after processing every client of a cycle in order.
pub open spec fn cycle_ledger(m: LedgerModel, fs: Seq<ClientFetchModel>) -> LedgerModel
    decreases fs.len(),
{
    if fs.len() == 0 {
        m
    } else {
        cycle_ledger(client_step_ledger(m, fs[0]), fs.skip(1))
    }
}

/// The outcome of every client of a cycle, in order: one entry per client,
/// whatever any other client's fetches did.
pub open spec fn cycle_outcomes(m: LedgerModel, fs: Seq<ClientFetchModel>) -> Seq<
    ClientOutcomeModel,
>
    decreases fs.len(),
{
    if fs.len() == 0 {
        Seq::empty()
    } else {
        seq![client_step_outcome(m, fs[0])] + cycle_outcomes(client_step_ledger(m, fs[0]), fs.skip(1))
    }
}

/// Runs one full cycle over pre-fetched per-client results: clients are
/// processed sequentially in order, and every client gets an outcome —
/// one client's failure never aborts the cycle for the others.
pub fn run_cycle(ledger: &mut ReportLedger, fetches: Vec<ClientFetch>) -> (r: Vec<ClientOutcome>)
    requires
        old(ledger)@.wf(),
    ensures
        final(ledger)@ == cycle_ledger(old(ledger)@, fetches_seq(fetches@)),
        final(ledger)@.wf(),
        outcomes_seq(r@) == cycle_outcomes(old(ledger)@, fetches_seq(fetches@)),
        r@.len() == fetches@.len(),
{
    let ghost m0 = ledger@;
    let ghost all = fetches_seq(fetches@);
    let mut rest = fetches;
    let mut out: Vec<ClientOutcome> = Vec::new();
    proof {
        assert(fetches_seq(rest@) =~= all.skip(0));
        assert(outcomes_seq(out@) =~= Seq::empty());
    }
    while rest.len() > 0
        invariant
            ledger@.wf(),
            cycle_ledger(m0, all) == cycle_ledger(ledger@, fetches_seq(rest@)),
            cycle_outcomes(m0, all) == outcomes_seq(out@) + cycle_outcomes(
                ledger@,
                fetches_seq(rest@),
            ),
            out@.len() + rest@.len() == all.len(),
        decreases rest@.len(),
    {
        let ghost cur = ledger@;
        let ghost rem = fetches_seq(rest@);
        let f = rest.remove(0);
        proof {
            assert(fetches_seq(rest@) =~= rem.skip(1));
            assert(f@ == rem[0]);
        }
        let o = process_client(ledger, f);
        out.push(o);
        proof {
            assert(cycle_ledger(cur, rem) == cycle_ledger(ledger@, fetches_seq(rest@)));
            assert(cycle_outcomes(cur, rem) == seq![o@] + cycle_outcomes(
                ledger@,
                fetches_seq(rest@),
            ));
            assert(outcomes_seq(out@) =~= outcomes_seq(out@.drop_last()) + seq![o@]);
            assert(outcomes_seq(out@) + cycle_outcomes(ledger@, fetches_seq(rest@))
                =~= (outcomes_seq(out@.drop_last()) + seq![o@]) + cycle_outcomes(
                ledger@,
                fetches_seq(rest@),
            ));
            assert((outcomes_seq(out@.drop_last()) + seq![o@]) + cycle_outcomes(
                ledger@,
                fetches_seq(rest@),
            ) =~= outcomes_seq(out@.drop_last()) + (seq![o@] + cycle_outcomes(
                ledger@,
                fetches_seq(rest@),
            )));
        }
    }
    proof {
        assert(fetches_seq(rest@).len() == 0);
        assert(cycle_ledger(ledger@, fetches_seq(rest@)) == ledger@);
        assert(cycle_outcomes(ledger@, fetches_seq(rest@)) =~= Seq::empty());
        assert(outcomes_seq(out@) + Seq::<ClientOutcomeModel>::empty() =~= outcomes_seq(out@));
    }
    out
}

/// Resolved filter, first half: a post report marked resolved at fetch
/// time is never announced, whatever ids are already known.
pub proof fn lemma_resolved_post_never_announced(
    rs: Seq<PostReportModel>,
    known: Set<int>,
    p: PostReportModel,
)
    requires
        p.resolved,
    ensures
        !new_post_filter(rs, known).contains(p),
{
    let pred = |q: PostReportModel| !q.resolved && !known.contains(q.report_id);
    if new_post_filter(rs, known).contains(p) {
        let i = choose|i: int|
            0 <= i < new_post_filter(rs, known).len() && new_post_filter(rs, known)[i] == p;
        rs.lemma_filter_pred(pred, i);
    }
}

/// Resolved filter, first half, for comment reports.
pub proof fn lemma_resolved_comment_never_announced(
    rs: Seq<CommentReportModel>,
    known: Set<int>,
    c: CommentReportModel,
)
    requires
        c.resolved,
    ensures
        !new_comment_filter(rs, known).contains(c),
{
    let pred = |q: CommentReportModel| !q.resolved && !known.contains(q.report_id);
    if new_comment_filter(rs, known).contains(c) {
        let i = choose|i: int|
            0 <= i < new_comment_filter(rs, known).len() && new_comment_filter(rs, known)[i] == c;
        rs.lemma_filter_pred(pred, i);
    }
}

/// Resolved filter, second half: processing a post batch records the key of
/// a resolved report only if it was recorded before, or an unresolved
/// report of the same batch carries the same id.
pub proof fn lemma_resolved_post_never_recorded(
    m: LedgerModel,
    domain: Seq<char>,
    rs: Seq<PostReportModel>,
    p: PostReportModel,
)
    requires
        p.resolved,
    ensures
        ({
            let m1 = m.insert_posts(domain, new_post_filter(rs, m.post_ids()));
            m1.post_keys().contains((domain, p.report_id)) ==> m.post_keys().contains(
                (domain, p.report_id),
            ) || exists|j: int|
                0 <= j < rs.len() && !(#[trigger] rs[j]).resolved && rs[j].report_id == p.report_id
        }),
{
    let pred = |q: PostReportModel| !q.resolved && !m.post_ids().contains(q.report_id);
    let nw = new_post_filter(rs, m.post_ids());
    let m1 = m.insert_posts(domain, nw);
    crate::ledger::lemma_insert_posts_keys(m, domain, nw);
    if m1.post_keys().contains((domain, p.report_id)) && !m.post_keys().contains(
        (domain, p.report_id),
    ) {
        let bk = nw.map_values(|r: PostReportModel| (domain, r.report_id));
        assert(bk.contains((domain, p.report_id)));
        let i = choose|i: int| 0 <= i < bk.len() && bk[i] == (domain, p.report_id);
        rs.lemma_filter_pred(pred, i);
        rs.lemma_filter_contains_rev(pred, nw[i]);
        let j = choose|j: int| 0 <= j < rs.len() && rs[j] == nw[i];
        assert(!rs[j].resolved && rs[j].report_id == p.report_id);
    }
}

/// Resolved filter, second half, for comment reports.
pub proof fn lemma_resolved_comment_never_recorded(
    m: LedgerModel,
    domain: Seq<char>,
    rs: Seq<CommentReportModel>,
    c: CommentReportModel,
)
    requires
        c.resolved,
    ensures
        ({
            let m1 = m.insert_comments(domain, new_comment_filter(rs, m.comment_ids()));
            m1.comment_keys().contains((domain, c.report_id)) ==> m.comment_keys().contains(
                (domain, c.report_id),
            ) || exists|j: int|
                0 <= j < rs.len() && !(#[trigger] rs[j]).resolved && rs[j].report_id == c.report_id
        }),
{
    let pred = |q: CommentReportModel| !q.resolved && !m.comment_ids().contains(q.report_id);
    let nw = new_comment_filter(rs, m.comment_ids());
    let m1 = m.insert_comments(domain, nw);
    crate::ledger::lemma_insert_comments_keys(m, domain, nw);
    if m1.comment_keys().contains((domain, c.report_id)) && !m.comment_keys().contains(
        (domain, c.report_id),
    ) {
        let bk = nw.map_values(|r: CommentReportModel| (domain, r.report_id));
        assert(bk.contains((domain, c.report_id)));
        let i = choose|i: int| 0 <= i < bk.len() && bk[i] == (domain, c.report_id);
        rs.lemma_filter_pred(pred, i);
        rs.lemma_filter_contains_rev(pred, nw[i]);
        let j = choose|j: int| 0 <= j < rs.len() && rs[j] == nw[i];
        assert(!rs[j].resolved && rs[j].report_id == c.report_id);
    }
}

/// After one pass over a post batch, every unresolved report of the batch
/// is recorded.
proof fn lemma_posts_all_known_after_step(m: LedgerModel, domain: Seq<char>, ps: Seq<PostReportModel>)
    ensures
        ({
            let m1 = m.insert_posts(domain, new_post_filter(ps, m.post_ids()));
            forall|i: int|
                0 <= i < ps.len() && !(#[trigger] ps[i]).resolved ==> m1.post_ids().contains(
                    ps[i].report_id,
                )
        }),
{
    let pred = |p: PostReportModel| !p.resolved && !m.post_ids().contains(p.report_id);
    let nw = new_post_filter(ps, m.post_ids());
    let m1 = m.insert_posts(domain, nw);
    crate::ledger::lemma_insert_posts_keys(m, domain, nw);
    crate::ledger::lemma_insert_posts_grows(m, domain, nw);
    assert forall|i: int| 0 <= i < ps.len() && !(#[trigger] ps[i]).resolved implies
        m1.post_ids().contains(ps[i].report_id) by {
        if m.post_ids().contains(ps[i].report_id) {
            assert(m1.post_ids().contains(ps[i].report_id));
        } else {
            ps.lemma_filter_contains(pred, i);
            let j = choose|j: int| 0 <= j < nw.len() && nw[j] == ps[i];
            let bk = nw.map_values(|r: PostReportModel| (domain, r.report_id));
            assert(bk[j] == (domain, ps[i].report_id));
            assert(bk.contains((domain, ps[i].report_id)));
            assert(m1.post_keys().contains((domain, ps[i].report_id)));
            crate::ledger::lemma_post_key_gives_id(m1, domain, ps[i].report_id);
        }
    }
}

/// After one pass over a comment batch, every unresolved report of the
/// batch is recorded.
proof fn lemma_comments_all_known_after_step(
    m: LedgerModel,
    domain: Seq<char>,
    cs: Seq<CommentReportModel>,
)
    ensures
        ({
            let m1 = m.insert_comments(domain, new_comment_filter(cs, m.comment_ids()));
            forall|i: int|
                0 <= i < cs.len() && !(#[trigger] cs[i]).resolved ==> m1.comment_ids().contains(
                    cs[i].report_id,
                )
        }),
{
    let pred = |c: CommentReportModel| !c.resolved && !m.comment_ids().contains(c.report_id);
    let nw = new_comment_filter(cs, m.comment_ids());
    let m1 = m.insert_comments(domain, nw);
    crate::ledger::lemma_insert_comments_keys(m, domain, nw);
    crate::ledger::lemma_insert_comments_grows(m, domain, nw);
    assert forall|i: int| 0 <= i < cs.len() && !(#[trigger] cs[i]).resolved implies
        m1.comment_ids().contains(cs[i].report_id) by {
        if m.comment_ids().contains(cs[i].report_id) {
            assert(m1.comment_ids().contains(cs[i].report_id));
        } else {
            cs.lemma_filter_contains(pred, i);
            let j = choose|j: int| 0 <= j < nw.len() && nw[j] == cs[i];
            let bk = nw.map_values(|r: CommentReportModel| (domain, r.report_id));
            assert(bk[j] == (domain, cs[i].report_id));
            assert(bk.contains((domain, cs[i].report_id)));
            assert(m1.comment_keys().contains((domain, cs[i].report_id)));
            crate::ledger::lemma_comment_key_gives_id(m1, domain, cs[i].report_id);
        }
    }
}

/// When every report of a batch is resolved or already known, nothing is
/// new: the filter is empty and the insertion is a no-op.
proof fn lemma_no_new_posts(m: LedgerModel, domain: Seq<char>, ps: Seq<PostReportModel>)
    requires
        forall|i: int|
            0 <= i < ps.len() && !(#[trigger] ps[i]).resolved ==> m.post_ids().contains(
                ps[i].report_id,
            ),
    ensures
        new_post_filter(ps, m.post_ids()) == Seq::<PostReportModel>::empty(),
        m.insert_posts(domain, new_post_filter(ps, m.post_ids())) == m,
{
    let pred = |p: PostReportModel| !p.resolved && !m.post_ids().contains(p.report_id);
    assert(ps.all(|p: PostReportModel| !pred(p))) by {
        assert(forall|i: int| 0 <= i < ps.len() ==> !pred(#[trigger] ps[i]));
    }
    ps.lemma_all_neg_filter_empty(pred);
    assert(new_post_filter(ps, m.post_ids()) =~= Seq::<PostReportModel>::empty());
}

/// When every comment report of a batch is resolved or already known,
/// nothing is new.
proof fn lemma_no_new_comments(m: LedgerModel, domain: Seq<char>, cs: Seq<CommentReportModel>)
    requires
        forall|i: int|
            0 <= i < cs.len() && !(#[trigger] cs[i]).resolved ==> m.comment_ids().contains(
                cs[i].report_id,
            ),
    ensures
        new_comment_filter(cs, m.comment_ids()) == Seq::<CommentReportModel>::empty(),
        m.insert_comments(domain, new_comment_filter(cs, m.comment_ids())) == m,
{
    let pred = |c: CommentReportModel| !c.resolved && !m.comment_ids().contains(c.report_id);
    assert(cs.all(|c: CommentReportModel| !pred(c))) by {
        assert(forall|i: int| 0 <= i < cs.len() ==> !pred(#[trigger] cs[i]));
    }
    cs.lemma_all_neg_filter_empty(pred);
    assert(new_comment_filter(cs, m.comment_ids()) =~= Seq::<CommentReportModel>::empty());
}

/// Re-delivery is suppressed across cycles: after a client's fetch results
/// are processed once, processing the same results again announces nothing
/// and leaves the ledger exactly as it was — each new report is announced
/// at most once per ledger, however often the remote hands it back.
pub proof fn lemma_repeat_client_step_silent(m: LedgerModel, f: ClientFetchModel)
    requires
        f.posts is Ok,
        f.comments is Ok,
    ensures
        ({
            let m1 = client_step_ledger(m, f);
            &&& client_step_ledger(m1, f) == m1
            &&& client_step_outcome(m1, f) == (ClientOutcomeModel::Complete {
                domain: f.domain,
                new_posts: Seq::empty(),
                new_comments: Seq::empty(),
            })
        }),
{
    let ps = f.posts->Ok_0;
    let cs = f.comments->Ok_0;
    let mp = m.insert_posts(f.domain, new_post_filter(ps, m.post_ids()));
    let m1 = mp.insert_comments(f.domain, new_comment_filter(cs, mp.comment_ids()));
    assert(client_step_ledger(m, f) == m1);

    // The comment insertion leaves the post table alone, so every
    // unresolved post report of the batch is known to the final ledger.
    crate::ledger::lemma_insert_comments_keys(mp, f.domain, new_comment_filter(cs, mp.comment_ids()));
    assert(m1.posts == mp.posts);
    assert(m1.post_ids() == mp.post_ids());
    lemma_posts_all_known_after_step(m, f.domain, ps);
    lemma_no_new_posts(m1, f.domain, ps);

    // The post pass of the second round is a no-op, so the comment table it
    // sees is the final one, where every unresolved comment report is known.
    lemma_comments_all_known_after_step(mp, f.domain, cs);
    lemma_no_new_comments(m1, f.domain, cs);
}
pub proof fn lemma_cycle_outcomes_len(m: LedgerModel, fs: Seq<ClientFetchModel>)
    ensures
        cycle_outcomes(m, fs).len() == fs.len(),
    decreases fs.len(),
{
    if fs.len() > 0 {
        lemma_cycle_outcomes_len(client_step_ledger(m, fs[0]), fs.skip(1));
    }
}

/// A client whose post fetch failed contributes nothing to the ledger.
pub proof fn lemma_failed_client_no_effect(m: LedgerModel, f: ClientFetchModel)
    requires
        f.posts is Err,
    ensures
        client_step_ledger(m, f) == m,
        client_step_outcome(m, f) == (ClientOutcomeModel::Failed {
            domain: f.domain,
            error: f.posts->Err_0,
        }),
{
}

/// Client isolation: when one client's post fetch fails, the cycle is the
/// cycle without that client, except for the failed client's own outcome —
/// every other client is fetched, deduplicated and announced exactly as if
/// the failing client were absent.
pub proof fn lemma_client_isolation(m: LedgerModel, fs: Seq<ClientFetchModel>, i: int)
    requires
        0 <= i < fs.len(),
        fs[i].posts is Err,
    ensures
        cycle_ledger(m, fs) == cycle_ledger(m, fs.remove(i)),
        cycle_outcomes(m, fs) == cycle_outcomes(m, fs.remove(i)).insert(
            i,
            ClientOutcomeModel::Failed { domain: fs[i].domain, error: fs[i].posts->Err_0 },
        ),
    decreases fs.len(),
{
    if i == 0 {
        lemma_failed_client_no_effect(m, fs[0]);
        assert(fs.remove(0) =~= fs.skip(1));
        assert(cycle_outcomes(m, fs.remove(0)).insert(
            0,
            ClientOutcomeModel::Failed { domain: fs[0].domain, error: fs[0].posts->Err_0 },
        ) =~= seq![client_step_outcome(m, fs[0])] + cycle_outcomes(m, fs.skip(1)));
    } else {
        let m1 = client_step_ledger(m, fs[0]);
        let t = fs.skip(1);
        assert(t[i - 1] == fs[i]);
        lemma_client_isolation(m1, t, i - 1);
        assert(fs.remove(i)[0] == fs[0]);
        assert(fs.remove(i).skip(1) =~= t.remove(i - 1));
        assert(fs.remove(i).len() > 0);
        lemma_cycle_outcomes_len(m1, t.remove(i - 1));
        lemma_cycle_outcomes_len(m1, t);
        let o = ClientOutcomeModel::Failed { domain: fs[i].domain, error: fs[i].posts->Err_0 };
        assert(cycle_outcomes(m, fs) =~= seq![client_step_outcome(m, fs[0])] + cycle_outcomes(
            m1,
            t,
        ));
        assert(cycle_outcomes(m, fs.remove(i)) =~= seq![client_step_outcome(m, fs[0])]
            + cycle_outcomes(m1, t.remove(i - 1)));
        assert((seq![client_step_outcome(m, fs[0])] + cycle_outcomes(m1, t.remove(i - 1))).insert(
            i,
            o,
        ) =~= seq![client_step_outcome(m, fs[0])] + cycle_outcomes(m1, t.remove(i - 1)).insert(
            i - 1,
            o,
        ));
        assert(cycle_outcomes(m1, t) =~= cycle_outcomes(m1, t.remove(i - 1)).insert(i - 1, o));
    }
}

} // verus!
