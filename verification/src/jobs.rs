//! The table of running conversion jobs, keyed by job id, from which a job is
//! taken out when it is cancelled or when it ends.

use vstd::prelude::*;

use crate::text::same_text;

verus! {

/// Whether some entry has key `k`.
pub open spec fn has_job<C>(s: Seq<(Seq<char>, C)>, k: Seq<char>) -> bool {
    exists|i: int| 0 <= i < s.len() && #[trigger] s[i].0 == k
}

/// Whether no two entries share a key.
pub open spec fn keys_distinct<C>(s: Seq<(Seq<char>, C)>) -> bool {
    forall|i: int, j: int| 0 <= i < j < s.len() ==> #[trigger] s[i].0 != #[trigger] s[j].0
}

/// The entries without the one keyed `k`, in their order.
pub open spec fn without_job<C>(s: Seq<(Seq<char>, C)>, k: Seq<char>) -> Seq<(Seq<char>, C)>
    decreases s.len(),
{
    if s.len() == 0 {
        s
    } else if s.last().0 == k {
        without_job(s.drop_last(), k)
    } else {
        without_job(s.drop_last(), k).push(s.last())
    }
}

/// The value of the last entry keyed `k`, if there is one.
pub open spec fn job_value<C>(s: Seq<(Seq<char>, C)>, k: Seq<char>) -> Option<C>
    decreases s.len(),
{
    if s.len() == 0 {
        None
    } else if s.last().0 == k {
        Some(s.last().1)
    } else {
        job_value(s.drop_last(), k)
    }
}

/// The entries after `k` is set to `c`: any old entry for `k` goes, the new one
/// comes last.
pub open spec fn with_job<C>(s: Seq<(Seq<char>, C)>, k: Seq<char>, c: C) -> Seq<(Seq<char>, C)> {
    without_job(s, k).push((k, c))
}

/// Running jobs, each with the handle it is controlled through.
pub struct JobTable<C> {
    entries: Vec<(String, C)>,
}

impl<C> View for JobTable<C> {
    type V = Seq<(Seq<char>, C)>;

    closed spec fn view(&self) -> Seq<(Seq<char>, C)> {
        self.entries@.map_values(|e: (String, C)| (e.0@, e.1))
    }
}

proof fn lemma_without_absent<C>(s: Seq<(Seq<char>, C)>, k: Seq<char>)
    requires
        !has_job(s, k),
    ensures
        without_job(s, k) == s,
        job_value(s, k) is None,
    decreases s.len(),
{
    if s.len() > 0 {
        assert(!has_job(s.drop_last(), k)) by {
            if has_job(s.drop_last(), k) {
                let i = choose|i: int| 0 <= i < s.drop_last().len() && #[trigger] s.drop_last()[i].0 == k;
                assert(s[i].0 == k);
            }
        }
        assert(s.last().0 != k) by {
            if s.last().0 == k {
                assert(s[s.len() - 1].0 == k);
            }
        }
        lemma_without_absent(s.drop_last(), k);
        assert(s.drop_last().push(s.last()) =~= s);
    }
}

proof fn lemma_without_at<C>(s: Seq<(Seq<char>, C)>, k: Seq<char>, i: int)
    requires
        keys_distinct(s),
        0 <= i < s.len(),
        s[i].0 == k,
    ensures
        without_job(s, k) == s.remove(i),
        job_value(s, k) == Some(s[i].1),
    decreases s.len(),
{
    if i == s.len() - 1 {
        assert(!has_job(s.drop_last(), k)) by {
            if has_job(s.drop_last(), k) {
                let j = choose|j: int| 0 <= j < s.drop_last().len() && #[trigger] s.drop_last()[j].0 == k;
                assert(s[j].0 == s[i].0);
            }
        }
        lemma_without_absent(s.drop_last(), k);
        assert(s.remove(i) =~= s.drop_last());
    } else {
        assert(s.last().0 != k) by {
            assert(s[i].0 != s[s.len() - 1].0);
        }
        assert(keys_distinct(s.drop_last()));
        lemma_without_at(s.drop_last(), k, i);
        assert(s.drop_last().remove(i).push(s.last()) =~= s.remove(i));
    }
}

proof fn lemma_without_no_key<C>(s: Seq<(Seq<char>, C)>, k: Seq<char>)
    ensures
        !has_job(without_job(s, k), k),
        forall|e: (Seq<char>, C)| without_job(s, k).contains(e) ==> s.contains(e),
    decreases s.len(),
{
    if s.len() > 0 {
        lemma_without_no_key(s.drop_last(), k);
        let w = without_job(s.drop_last(), k);
        assert forall|e: (Seq<char>, C)| without_job(s, k).contains(e) implies s.contains(e) by {
            let j = choose|j: int| 0 <= j < without_job(s, k).len() && without_job(s, k)[j] == e;
            if s.last().0 != k && j == w.len() {
                assert(s[s.len() - 1] == e);
            } else {
                if s.last().0 == k {
                    assert(without_job(s, k) == w);
                }
                assert(w[j] == e);
                assert(w.contains(e));
                assert(s.drop_last().contains(e));
                let m = choose|m: int| 0 <= m < s.drop_last().len() && s.drop_last()[m] == e;
                assert(s[m] == e);
            }
        }
        if s.last().0 != k {
            assert(!has_job(w.push(s.last()), k)) by {
                if has_job(w.push(s.last()), k) {
                    let j = choose|j: int| 0 <= j < w.push(s.last()).len() && #[trigger] w.push(s.last())[j].0 == k;
                    if j < w.len() {
                        assert(w[j].0 == k);
                    }
                }
            }
        }
    }
}

proof fn lemma_without_distinct<C>(s: Seq<(Seq<char>, C)>, k: Seq<char>)
    requires
        keys_distinct(s),
    ensures
        keys_distinct(without_job(s, k)),
    decreases s.len(),
{
    if s.len() > 0 {
        assert(keys_distinct(s.drop_last()));
        lemma_without_distinct(s.drop_last(), k);
        lemma_without_no_key(s.drop_last(), k);
        let w = without_job(s.drop_last(), k);
        if s.last().0 != k {
            assert forall|i: int, j: int| 0 <= i < j < w.push(s.last()).len() implies #[trigger] w.push(s.last())[i].0 != #[trigger] w.push(s.last())[j].0 by {
                if j == w.len() {
                    let e = w[i];
                    assert(w.contains(e));
                    assert(s.drop_last().contains(e));
                    let m = choose|m: int| 0 <= m < s.drop_last().len() && s.drop_last()[m] == e;
                    assert(s[m].0 != s[s.len() - 1].0);
                }
            }
        }
    }
}

/// Cancelling is idempotent: once a job has been taken out, the table holds no job
/// of that id, so taking it out again finds nothing and changes nothing. The same
/// holds between a cancellation and the end of the job: whichever takes the job
/// out first is the only one that finds it.
pub proof fn lemma_cancel_idempotent<C>(s: Seq<(Seq<char>, C)>, k: Seq<char>)
    ensures
        job_value(without_job(s, k), k) is None,
        without_job(without_job(s, k), k) == without_job(s, k),
{
    lemma_without_no_key(s, k);
    lemma_without_absent(without_job(s, k), k);
}

/// Once a job is taken out, no job of that id is left in the table.
pub proof fn lemma_without_leaves_no_job<C>(s: Seq<(Seq<char>, C)>, k: Seq<char>)
    ensures
        !has_job(without_job(s, k), k),
{
    lemma_without_no_key(s, k);
}

/// Taking a job out leaves every job of another id as it was.
pub proof fn lemma_remove_keeps_others<C>(s: Seq<(Seq<char>, C)>, k: Seq<char>, other: Seq<char>)
    requires
        other != k,
    ensures
        job_value(without_job(s, k), other) == job_value(s, other),
    decreases s.len(),
{
    if s.len() > 0 {
        lemma_remove_keeps_others(s.drop_last(), k, other);
        if s.last().0 != k {
            let w = without_job(s.drop_last(), k);
            assert(w.push(s.last()).drop_last() =~= w);
        }
    }
}

/// The handle put in for a job is what taking that job out hands back, and taking
/// it out leaves the table as it was without that job.
pub proof fn lemma_insert_then_remove<C>(s: Seq<(Seq<char>, C)>, k: Seq<char>, c: C)
    ensures
        job_value(with_job(s, k, c), k) == Some(c),
        without_job(with_job(s, k, c), k) == without_job(s, k),
{
    let w = without_job(s, k);
    assert(w.push((k, c)).drop_last() =~= w);
    lemma_cancel_idempotent(s, k);
}

impl<C> JobTable<C> {
    #[verifier::type_invariant]
    spec fn ids_unique(self) -> bool {
        keys_distinct(self@)
    }

    /// An empty table.
    pub fn new() -> (r: JobTable<C>)
        ensures
            r@.len() == 0,
            keys_distinct(r@),
    {
        let r = JobTable { entries: Vec::new() };
        assert(r@ =~= Seq::<(Seq<char>, C)>::empty());
        r
    }

    /// The number of jobs in the table.
    pub fn len(&self) -> (r: usize)
        ensures
            r == self@.len(),
    {
        self.entries.len()
    }

    fn position(&self, job_id: &str) -> (r: Option<usize>)
        ensures
            match r {
                Some(i) => i < self@.len() && self@[i as int].0 == job_id@,
                None => !has_job(self@, job_id@),
            },
    {
        let mut i: usize = 0;
        while i < self.entries.len()
            invariant
                i <= self.entries.len(),
                forall|m: int| 0 <= m < i ==> self@[m].0 != job_id@,
            decreases self.entries.len() - i,
        {
            if same_text(self.entries[i].0.as_str(), job_id) {
                return Some(i);
            }
            i = i + 1;
        }
        None
    }

    /// Takes job `job_id` out of the table and hands back its handle; `None`, and
    /// the table unchanged, when no such job is in it.
    pub fn remove(&mut self, job_id: &str) -> (r: Option<C>)
        ensures
            r == job_value(old(self)@, job_id@),
            final(self)@ == without_job(old(self)@, job_id@),
            !has_job(final(self)@, job_id@),
            keys_distinct(final(self)@),
    {
        proof {
            use_type_invariant(&*self);
            lemma_without_no_key(self@, job_id@);
        }
        match self.position(job_id) {
            None => {
                proof {
                    lemma_without_absent(self@, job_id@);
                }
                None
            },
            Some(i) => {
                proof {
                    lemma_without_at(self@, job_id@, i as int);
                    lemma_without_distinct(self@, job_id@);
                }
                let mut entries: Vec<(String, C)> = Vec::new();
                std::mem::swap(&mut entries, &mut self.entries);
                let ghost before = entries@;
                let (_, c) = entries.remove(i);
                assert(entries@.map_values(|e: (String, C)| (e.0@, e.1)) =~= before.map_values(
                    |e: (String, C)| (e.0@, e.1),
                ).remove(i as int));
                self.entries = entries;
                Some(c)
            },
        }
    }

    /// Puts job `job_id` into the table with handle `child`, in place of any job
    /// of the same id.
    pub fn insert(&mut self, job_id: String, child: C)
        ensures
            final(self)@ == with_job(old(self)@, job_id@, child),
            keys_distinct(final(self)@),
    {
        let _ = self.remove(job_id.as_str());
        proof {
            use_type_invariant(&*self);
        }
        let ghost k = job_id@;
        let mut entries: Vec<(String, C)> = Vec::new();
        std::mem::swap(&mut entries, &mut self.entries);
        let ghost before = entries@;
        entries.push((job_id, child));
        assert(entries@.map_values(|e: (String, C)| (e.0@, e.1)) =~= before.map_values(
            |e: (String, C)| (e.0@, e.1),
        ).push((k, child)));
        assert(keys_distinct(entries@.map_values(|e: (String, C)| (e.0@, e.1))));
        self.entries = entries;
    }

    /// Empties the table and hands back every job with its handle.
    pub fn drain(&mut self) -> (r: Vec<(String, C)>)
        ensures
            r@.map_values(|e: (String, C)| (e.0@, e.1)) == old(self)@,
            final(self)@.len() == 0,
            keys_distinct(final(self)@),
    {
        let mut out: Vec<(String, C)> = Vec::new();
        std::mem::swap(&mut out, &mut self.entries);
        assert(self@ =~= Seq::<(Seq<char>, C)>::empty());
        out
    }
}

} // verus!
