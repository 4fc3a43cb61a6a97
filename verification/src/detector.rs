//! Change detection over the credential list. The dispatch loop reads the
//! credential set every cycle but must not re-authenticate when nothing
//! changed, since logins are rate-limited upstream. The comparison is full
//! value equality and order-sensitive: a reordered list counts as a change.

use vstd::prelude::*;
use crate::domain::{creds_seq, Credential, CredentialModel};

verus! {

/// Compares two credentials by value.
fn credential_eq(a: &Credential, b: &Credential) -> (r: bool)
    ensures
        r == (a@ == b@),
{
    let r = a.domain == b.domain && a.username == b.username && a.password == b.password;
    proof {
        if r {
            assert(a@ =~= b@);
        }
    }
    r
}

/// Compares two credential lists by value, order included.
pub fn credentials_eq(a: &Vec<Credential>, b: &Vec<Credential>) -> (r: bool)
    ensures
        r == (creds_seq(a@) == creds_seq(b@)),
{
    if a.len() != b.len() {
        proof {
            assert(creds_seq(a@).len() != creds_seq(b@).len());
        }
        return false;
    }
    let n = a.len();
    let mut i: usize = 0;
    while i < n
        invariant
            n == a@.len() == b@.len(),
            0 <= i <= n,
            forall|j: int| 0 <= j < i ==> #[trigger] a@[j]@ == b@[j]@,
        decreases n - i,
    {
        if !credential_eq(&a[i], &b[i]) {
            proof {
                assert(creds_seq(a@)[i as int] != creds_seq(b@)[i as int]);
            }
            return false;
        }
        i = i + 1;
    }
    proof {
        assert(creds_seq(a@) =~= creds_seq(b@));
    }
    true
}

fn clone_credentials(v: &Vec<Credential>) -> (res: Vec<Credential>)
    ensures
        res@ == v@,
{
    let mut out: Vec<Credential> = Vec::new();
    let mut i: usize = 0;
    while i < v.len()
        invariant
            0 <= i <= v@.len(),
            out@ == v@.subrange(0, i as int),
        decreases v@.len() - i,
    {
        out.push(v[i].clone());
        proof {
            assert(out@ =~= v@.subrange(0, i as int + 1));
        }
        i = i + 1;
    }
    proof {
        assert(out@ =~= v@);
    }
    out
}

/// Remembers the last credential list seen and reports whether a newly read
/// list differs from it.
pub struct ChangeDetector {
    last: Option<Vec<Credential>>,
}

impl ChangeDetector {
    /// The remembered snapshot, as a mathematical value; absent before the
    /// first observation.
    pub closed spec fn last_model(&self) -> Option<Seq<CredentialModel>> {
        match self.last {
            Some(v) => Some(creds_seq(v@)),
            None => None,
        }
    }

    /// A fresh detector that has seen nothing yet.
    pub fn new() -> (r: ChangeDetector)
        ensures
            r.last_model() is None,
    {
        ChangeDetector { last: None }
    }

    /// Hands the list back exactly when it differs from the last one seen
    /// (the first observation always counts as a change), remembering it in
    /// that case; an unchanged list is dropped and the state kept.
    pub fn detect(&mut self, creds: Vec<Credential>) -> (r: Option<Vec<Credential>>)
        ensures
            old(self).last_model() == Some(creds_seq(creds@)) ==> {
                &&& r is None
                &&& final(self).last_model() == old(self).last_model()
            },
            old(self).last_model() != Some(creds_seq(creds@)) ==> {
                &&& r == Some(creds)
                &&& final(self).last_model() == Some(creds_seq(creds@))
            },
    {
        let unchanged = match &self.last {
            Some(prev) => credentials_eq(prev, &creds),
            None => false,
        };
        if unchanged {
            None
        } else {
            self.last = Some(clone_credentials(&creds));
            Some(creds)
        }
    }
}

} // verus!
