//! The notifier set and the fan-out of new reports over it. Which channels
//! are active is fixed once from the configuration; a batch of new reports
//! is announced report by report in fetch order, each report to every
//! notifier in registration order, and the outcome of one delivery has no
//! bearing on the calls that follow.

use vstd::prelude::*;
use crate::config::EnvVariables;
use crate::domain::{CommentReport, PostReport};
use crate::render::{console_comment_line, console_post_line};

verus! {

/// The notification channels.
#[derive(Clone, Copy, PartialEq, Eq, Structural, Debug)]
pub enum NotifierKind {
    /// A line on standard output; always active.
    Console,
    /// A chat webhook; active exactly when a webhook address is configured.
    Webhook,
    /// A message broker topic; active exactly when broker settings are
    /// configured.
    Broker,
}

/// The notifiers a configuration activates, in the fixed registration
/// order the dispatch loop uses for every report.
pub open spec fn spec_active_notifiers(env: EnvVariables) -> Seq<NotifierKind> {
    seq![NotifierKind::Console] + (if env.discord_webhook is Some {
        seq![NotifierKind::Webhook]
    } else {
        Seq::empty()
    }) + (if env.mqtt is Some {
        seq![NotifierKind::Broker]
    } else {
        Seq::empty()
    })
}

/// Assembles the notifier set once from the configuration: the console
/// always comes first, then the chat webhook and the broker when configured.
pub fn active_notifiers(env: &EnvVariables) -> (r: Vec<NotifierKind>)
    ensures
        r@ == spec_active_notifiers(*env),
{
    let mut out: Vec<NotifierKind> = Vec::new();
    out.push(NotifierKind::Console);
    if env.discord_webhook.is_some() {
        out.push(NotifierKind::Webhook);
    }
    if env.mqtt.is_some() {
        out.push(NotifierKind::Broker);
    }
    proof {
        assert(out@ =~= spec_active_notifiers(*env));
    }
    out
}

/// The console notifier: renders one line per new report.
pub struct ConsoleNotifyReport();

impl ConsoleNotifyReport {
    /// The line announcing a new post report.
    pub fn post_line(&self, source_domain: &str, report: &PostReport) -> (r: String)
        ensures
            r@ == console_line_post_spec(source_domain@, *report),
    {
        console_post_line(source_domain, report)
    }

    /// The line announcing a new comment report.
    pub fn comment_line(&self, source_domain: &str, report: &CommentReport) -> (r: String)
        ensures
            r@ == console_line_comment_spec(source_domain@, *report),
    {
        console_comment_line(source_domain, report)
    }
}

/// The console line for a post report, as a character sequence.
pub open spec fn console_line_post_spec(domain: Seq<char>, report: PostReport) -> Seq<char> {
    "New post report from "@ + domain + ": report "@ + crate::digits::int_digits(
        report.report_id as int,
    ) + " on post "@ + crate::digits::int_digits(report.post_id as int) + ": "@ + report.reason@
}

/// The console line for a comment report, as a character sequence.
pub open spec fn console_line_comment_spec(domain: Seq<char>, report: CommentReport) -> Seq<char> {
    "New comment report from "@ + domain + ": report "@ + crate::digits::int_digits(
        report.report_id as int,
    ) + " on comment "@ + crate::digits::int_digits(report.comment_id as int) + ": "@
        + report.reason@
}

/// Where the fan-out of one batch of new reports to the notifier set
/// stands: the indices of the next (report, notifier) delivery to make.
pub struct FanoutCursor {
    pub n_reports: usize,
    pub n_notifiers: usize,
    pub report_idx: usize,
    pub notifier_idx: usize,
}

impl FanoutCursor {
    /// The cursor points at a delivery still to make, or just past the end.
    pub open spec fn wf(self) -> bool {
        &&& self.report_idx <= self.n_reports
        &&& (self.report_idx < self.n_reports ==> self.notifier_idx < self.n_notifiers)
        &&& (self.report_idx == self.n_reports ==> self.notifier_idx == 0)
    }

    /// Whether every delivery of the batch has been attempted.
    pub open spec fn done(self) -> bool {
        self.report_idx >= self.n_reports
    }

    /// The state after one delivery attempt: the next notifier for the same
    /// report, or the first notifier of the next report. No delivery
    /// outcome appears here: what comes next never depends on one.
    pub open spec fn next_state(self) -> FanoutCursor {
        if self.notifier_idx + 1 < self.n_notifiers {
            FanoutCursor {
                n_reports: self.n_reports,
                n_notifiers: self.n_notifiers,
                report_idx: self.report_idx,
                notifier_idx: (self.notifier_idx + 1) as usize,
            }
        } else {
            FanoutCursor {
                n_reports: self.n_reports,
                n_notifiers: self.n_notifiers,
                report_idx: (self.report_idx + 1) as usize,
                notifier_idx: 0,
            }
        }
    }

    /// The number of deliveries still to attempt.
    pub open spec fn remaining(self) -> int {
        (self.n_reports - self.report_idx) * self.n_notifiers - self.notifier_idx
    }

    /// A cursor at the start of a batch: the first report to the first
    /// notifier; with no notifiers or no reports there is nothing to do.
    pub fn new(n_reports: usize, n_notifiers: usize) -> (r: FanoutCursor)
        ensures
            r.wf(),
            r.n_reports == n_reports,
            r.n_notifiers == n_notifiers,
            n_notifiers > 0 ==> r.report_idx == 0 && r.notifier_idx == 0,
            n_notifiers == 0 ==> r.done(),
            r.done() <==> (n_notifiers == 0 || n_reports == 0),
            n_notifiers > 0 ==> r.remaining() == n_reports * n_notifiers,
            n_notifiers == 0 ==> r.remaining() == 0,
    {
        if n_notifiers == 0 {
            FanoutCursor { n_reports, n_notifiers, report_idx: n_reports, notifier_idx: 0 }
        } else {
            FanoutCursor { n_reports, n_notifiers, report_idx: 0, notifier_idx: 0 }
        }
    }

    /// Advances past one delivery attempt. `delivered` reports whether the
    /// notifier succeeded and deliberately has no bearing on the result:
    /// a failing notifier never keeps the remaining notifiers from seeing
    /// the same report, nor the following reports from being announced.
    pub fn advance(&mut self, delivered: bool)
        requires
            old(self).wf(),
            !old(self).done(),
        ensures
            *final(self) == old(self).next_state(),
            final(self).wf(),
    {
        if self.notifier_idx + 1 < self.n_notifiers {
            self.notifier_idx = self.notifier_idx + 1;
        } else {
            self.notifier_idx = 0;
            self.report_idx = self.report_idx + 1;
        }
    }
}

/// A batch of reports over a set of notifiers makes exactly one delivery
/// attempt per (report, notifier) pair: the fresh cursor has the full
/// product of attempts left, every step spends exactly one, and the
/// fan-out is done precisely when none are left.
pub proof fn lemma_fanout_counts(c: FanoutCursor)
    requires
        c.wf(),
    ensures
        c.done() ==> c.remaining() == 0,
        !c.done() ==> c.remaining() >= 1,
        !c.done() ==> c.next_state().remaining() == c.remaining() - 1,
{
    let nr = c.n_reports as int;
    let nn = c.n_notifiers as int;
    let ri = c.report_idx as int;
    let ni = c.notifier_idx as int;
    if c.done() {
        assert(ri == nr && ni == 0);
        assert((nr - ri) * nn == 0) by (nonlinear_arith)
            requires
                ri == nr,
        ;
    } else {
        assert(c.remaining() >= 1) by (nonlinear_arith)
            requires
                ri < nr,
                0 <= ni < nn,
                c.remaining() == (nr - ri) * nn - ni,
        ;
        if ni + 1 < nn {
            assert(c.next_state().remaining() == c.remaining() - 1);
        } else {
            assert((nr - (ri + 1)) * nn == (nr - ri) * nn - nn) by (nonlinear_arith);
            assert(c.next_state().remaining() == c.remaining() - 1);
        }
    }
}

/// Notifier isolation: one delivery's outcome never changes what the
/// fan-out does next — after notifier A handled report R, notifier B gets
/// report R and the batch goes on identically whether A succeeded or
/// failed. The step function takes no outcome at all, so the two runs agree
/// state by state.
pub proof fn lemma_notifier_isolation(c: FanoutCursor)
    requires
        c.wf(),
        !c.done(),
    ensures
        c.next_state().wf(),
        c.next_state().n_reports == c.n_reports,
        c.next_state().n_notifiers == c.n_notifiers,
        c.notifier_idx + 1 < c.n_notifiers ==> c.next_state() == (FanoutCursor {
            n_reports: c.n_reports,
            n_notifiers: c.n_notifiers,
            report_idx: c.report_idx,
            notifier_idx: (c.notifier_idx + 1) as usize,
        }),
        c.notifier_idx + 1 >= c.n_notifiers ==> c.next_state() == (FanoutCursor {
            n_reports: c.n_reports,
            n_notifiers: c.n_notifiers,
            report_idx: (c.report_idx + 1) as usize,
            notifier_idx: 0,
        }),
{
}

} // verus!
