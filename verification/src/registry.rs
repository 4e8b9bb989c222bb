//! The service registry: the process-wide mapping from service id to
//! lifecycle status, owned by whoever drives the supervisors.

use vstd::prelude::*;
use crate::strutil::str_eq;

verus! {

/// The lifecycle status of a service, as the registry reports it.
/// `Unmentioned` stands for an id the registry does not hold.
#[derive(PartialEq, Eq, Structural, Clone, Copy, Debug)]
pub enum SvcStatus {
    Readying,
    Running,
    Working,
    Stopped,
    Unmentioned,
}

/// The status that a sequence of registry entries gives to `id`:
/// the status of the first entry whose key is `id`, else `Unmentioned`.
pub open spec fn seq_status_of(s: Seq<(String, SvcStatus)>, id: Seq<char>) -> SvcStatus
    decreases s.len(),
{
    if s.len() == 0 {
        SvcStatus::Unmentioned
    } else if s[0].0@ == id {
        s[0].1
    } else {
        seq_status_of(s.skip(1), id)
    }
}

/// The mapping from service id to status.  Every id it does not hold
/// has status `Unmentioned`; holding an id with status `Unmentioned`
/// is ruled out by the well-formedness invariant.
pub struct Registry {
    entries: Vec<(String, SvcStatus)>,
}

impl Registry {
    /// Keys are unique and no held entry is `Unmentioned`.
    pub closed spec fn wf(self) -> bool {
        &&& forall|i: int, j: int|
            0 <= i < j < self.entries@.len() ==> self.entries@[i].0@ != self.entries@[j].0@
        &&& forall|i: int|
            0 <= i < self.entries@.len() ==> self.entries@[i].1 != SvcStatus::Unmentioned
    }

    /// The status the registry gives to `id`.
    pub closed spec fn spec_status(self, id: Seq<char>) -> SvcStatus {
        seq_status_of(self.entries@, id)
    }

    /// A registry that mentions no service.
    pub fn new() -> (r: Registry)
        ensures
            r.wf(),
            forall|id: Seq<char>| r.spec_status(id) == SvcStatus::Unmentioned,
    {
        Registry { entries: Vec::new() }
    }

    /// The status of `id`: `Unmentioned` when the registry does not hold it.
    pub fn status_of(&self, id: &str) -> (r: SvcStatus)
        ensures
            r == self.spec_status(id@),
    {
        let mut i: usize = 0;
        let n = self.entries.len();
        proof {
            assert(self.entries@.skip(0) =~= self.entries@);
        }
        while i < n
            invariant
                i <= n,
                n == self.entries@.len(),
                seq_status_of(self.entries@, id@) == seq_status_of(self.entries@.skip(i as int), id@),
            decreases n - i,
        {
            let ghost pre = self.entries@.skip(i as int);
            if str_eq(self.entries[i].0.as_str(), id) {
                assert(pre[0] == self.entries@[i as int]);
                return self.entries[i].1;
            }
            proof {
                assert(pre[0] == self.entries@[i as int]);
                assert(pre.skip(1) =~= self.entries@.skip(i as int + 1));
            }
            i += 1;
        }
        proof {
            assert(self.entries@.skip(n as int) =~= Seq::<(String, SvcStatus)>::empty());
        }
        SvcStatus::Unmentioned
    }

    /// Finds the index of `id`, if the registry holds it.
    fn index_of(&self, id: &str) -> (r: Option<usize>)
        ensures
            match r {
                Some(k) => 0 <= k < self.entries@.len() && self.entries@[k as int].0@ == id@,
                None => forall|i: int|
                    0 <= i < self.entries@.len() ==> self.entries@[i].0@ != id@,
            },
    {
        let mut i: usize = 0;
        let n = self.entries.len();
        while i < n
            invariant
                i <= n,
                n == self.entries@.len(),
                forall|j: int| 0 <= j < i ==> self.entries@[j].0@ != id@,
            decreases n - i,
        {
            if str_eq(self.entries[i].0.as_str(), id) {
                return Some(i);
            }
            i += 1;
        }
        None
    }

    /// Records `st` for `id`, replacing any earlier status.
    pub fn set(&mut self, id: &str, st: SvcStatus)
        requires
            old(self).wf(),
            st != SvcStatus::Unmentioned,
        ensures
            final(self).wf(),
            final(self).spec_status(id@) == st,
            forall|q: Seq<char>| q != id@ ==> final(self).spec_status(q) == old(self).spec_status(q),
    {
        match self.index_of(id) {
            Some(k) => {
                let ghost pre = self.entries@;
                let owned = id.to_owned();
                self.entries.set(k, (owned, st));
                proof {
                    lemma_status_update(pre, self.entries@, k as int, id@, st);
                }
            },
            None => {
                let ghost pre = self.entries@;
                let owned = id.to_owned();
                self.entries.push((owned, st));
                proof {
                    let e = self.entries@.last();
                    assert(self.entries@ =~= pre.push(e));
                    lemma_status_absent(pre, id@);
                    lemma_status_push_one(pre, e, id@);
                    assert forall|q: Seq<char>| q != id@ implies seq_status_of(pre.push(e), q)
                        == seq_status_of(pre, q) by {
                        lemma_status_push_one(pre, e, q);
                    }
                }
            },
        }
    }

    /// Forgets `id` entirely: afterwards its status is `Unmentioned`.
    pub fn remove(&mut self, id: &str)
        requires
            old(self).wf(),
        ensures
            final(self).wf(),
            final(self).spec_status(id@) == SvcStatus::Unmentioned,
            forall|q: Seq<char>| q != id@ ==> final(self).spec_status(q) == old(self).spec_status(q),
    {
        match self.index_of(id) {
            Some(k) => {
                let ghost pre = self.entries@;
                self.entries.remove(k);
                proof {
                    lemma_status_remove(pre, self.entries@, k as int, id@);
                }
            },
            None => {
                proof {
                    lemma_status_absent(self.entries@, id@);
                }
            },
        }
    }
}

/// Lookup of an absent key yields `Unmentioned`.
proof fn lemma_status_absent(s: Seq<(String, SvcStatus)>, id: Seq<char>)
    requires
        forall|i: int| 0 <= i < s.len() ==> s[i].0@ != id,
    ensures
        seq_status_of(s, id) == SvcStatus::Unmentioned,
    decreases s.len(),
{
    if s.len() > 0 {
        lemma_status_absent(s.skip(1), id);
    }
}

/// Lookup only reads the first entry of the looked-up key, so replacing
/// the unique entry of `id` moves its status and no other.
proof fn lemma_status_update(
    pre: Seq<(String, SvcStatus)>,
    post: Seq<(String, SvcStatus)>,
    k: int,
    id: Seq<char>,
    st: SvcStatus,
)
    requires
        0 <= k < pre.len(),
        post.len() == pre.len(),
        forall|i: int| 0 <= i < pre.len() && i != k ==> post[i] == pre[i],
        post[k].0@ == id,
        post[k].1 == st,
        pre[k].0@ == id,
        forall|i: int, j: int| 0 <= i < j < pre.len() ==> pre[i].0@ != pre[j].0@,
    ensures
        seq_status_of(post, id) == st,
        forall|q: Seq<char>| q != id ==> seq_status_of(post, q) == seq_status_of(pre, q),
    decreases pre.len(),
{
    if k == 0 {
        assert(seq_status_of(post, id) == post[0].1);
        assert forall|q: Seq<char>| q != id implies seq_status_of(post, q) == seq_status_of(
            pre,
            q,
        ) by {
            assert(post.skip(1) =~= pre.skip(1));
            assert(seq_status_of(post, q) == seq_status_of(post.skip(1), q));
            assert(seq_status_of(pre, q) == seq_status_of(pre.skip(1), q));
        }
    } else {
        let pre1 = pre.skip(1);
        let post1 = post.skip(1);
        assert(forall|i: int| 0 <= i < pre1.len() && i != k - 1 ==> post1[i] == pre1[i]);
        assert(forall|i: int, j: int| 0 <= i < j < pre1.len() ==> pre1[i].0@ != pre1[j].0@);
        lemma_status_update(pre1, post1, k - 1, id, st);
        assert(pre[0].0@ != id);
        assert(post[0] == pre[0]);
        assert(seq_status_of(post, id) == seq_status_of(post1, id));
        assert forall|q: Seq<char>| q != id implies seq_status_of(post, q) == seq_status_of(
            pre,
            q,
        ) by {
            if post[0].0@ == q {
            } else {
                assert(seq_status_of(post, q) == seq_status_of(post1, q));
                assert(seq_status_of(pre, q) == seq_status_of(pre1, q));
            }
        }
    }
}

/// What lookup over `s.push(e)` should give for `q`.
spec fn lookup_push_expected(
    s: Seq<(String, SvcStatus)>,
    e: (String, SvcStatus),
    q: Seq<char>,
) -> SvcStatus {
    if seq_status_of(s, q) != SvcStatus::Unmentioned {
        seq_status_of(s, q)
    } else if e.0@ == q {
        e.1
    } else {
        SvcStatus::Unmentioned
    }
}

proof fn lemma_status_push_one(s: Seq<(String, SvcStatus)>, e: (String, SvcStatus), q: Seq<char>)
    requires
        forall|i: int| 0 <= i < s.len() ==> s[i].1 != SvcStatus::Unmentioned,
    ensures
        seq_status_of(s.push(e), q) == lookup_push_expected(s, e, q),
    decreases s.len(),
{
    if s.len() == 0 {
        assert(seq_status_of(s, q) == SvcStatus::Unmentioned);
        assert(s.push(e)[0] == e);
        let empty = Seq::<(String, SvcStatus)>::empty();
        assert(s.push(e).skip(1) =~= empty);
        assert(seq_status_of(empty, q) == SvcStatus::Unmentioned);
        if e.0@ == q {
            assert(seq_status_of(s.push(e), q) == e.1);
        } else {
            assert(seq_status_of(s.push(e), q) == seq_status_of(empty, q));
        }
        assert(seq_status_of(s.push(e), q) == lookup_push_expected(s, e, q));
    } else {
        assert(s.push(e)[0] == s[0]);
        assert(s.push(e).skip(1) =~= s.skip(1).push(e));
        lemma_status_push_one(s.skip(1), e, q);
        if s[0].0@ == q {
            assert(seq_status_of(s.push(e), q) == s[0].1);
            assert(seq_status_of(s, q) == s[0].1);
        } else {
            assert(seq_status_of(s.push(e), q) == seq_status_of(s.skip(1).push(e), q));
            assert(seq_status_of(s, q) == seq_status_of(s.skip(1), q));
        }
        assert(seq_status_of(s.push(e), q) == lookup_push_expected(s, e, q));
    }
}

/// Removing the unique entry of `id` makes `id` unmentioned and leaves
/// every other key as it was.
proof fn lemma_status_remove(
    pre: Seq<(String, SvcStatus)>,
    post: Seq<(String, SvcStatus)>,
    k: int,
    id: Seq<char>,
)
    requires
        0 <= k < pre.len(),
        post =~= pre.remove(k),
        pre[k].0@ == id,
        forall|i: int, j: int| 0 <= i < j < pre.len() ==> pre[i].0@ != pre[j].0@,
    ensures
        seq_status_of(post, id) == SvcStatus::Unmentioned,
        forall|q: Seq<char>| q != id ==> seq_status_of(post, q) == seq_status_of(pre, q),
    decreases pre.len(),
{
    if k == 0 {
        assert(post =~= pre.skip(1));
        assert(forall|i: int| 0 <= i < post.len() ==> post[i].0@ != id);
        lemma_status_absent(post, id);
        assert forall|q: Seq<char>| q != id implies seq_status_of(post, q) == seq_status_of(
            pre,
            q,
        ) by {
            assert(pre[0].0@ == id);
            assert(seq_status_of(pre, q) == seq_status_of(pre.skip(1), q));
        }
    } else {
        let pre1 = pre.skip(1);
        let post1 = post.skip(1);
        assert(post1 =~= pre1.remove(k - 1));
        assert(forall|i: int, j: int| 0 <= i < j < pre1.len() ==> pre1[i].0@ != pre1[j].0@);
        lemma_status_remove(pre1, post1, k - 1, id);
        assert(post[0] == pre[0]);
        assert(pre[0].0@ != id);
        assert(seq_status_of(post, id) == seq_status_of(post1, id));
        assert forall|q: Seq<char>| q != id implies seq_status_of(post, q) == seq_status_of(
            pre,
            q,
        ) by {
            if post[0].0@ == q {
            } else {
                assert(seq_status_of(post, q) == seq_status_of(post1, q));
                assert(seq_status_of(pre, q) == seq_status_of(pre1, q));
            }
        }
    }
}

} // verus!
