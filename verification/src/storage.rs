//! The retrying storage layer: put/get against a backend whose transient
//! failures are retried a bounded number of times.
//!
//! The backend is modelled explicitly: a keyed store of byte objects
//! together with a script of upcoming transient faults (front first) and
//! counters of how often it was invoked.  Every raw operation consumes
//! one scripted fault if any is pending; a scripted `true` makes that
//! operation fail transiently.  The retry layer repeats a failed
//! operation up to [`ATTEMPTS`] times in all; a missing key is a
//! successful `get` of nothing and is never retried.  Writes are
//! overwrite-idempotent: putting the same bytes under the same key again
//! leaves the contents as they were.

use crate::error::Error;
use crate::strutil::str_eq;
use vstd::prelude::*;
use vstd::slice::slice_to_vec;
use vstd::string::StringExecFns;

verus! {

/// Total number of times a storage operation is attempted before the
/// failure becomes terminal: one initial try and two retries.
pub const ATTEMPTS: usize = 3;

/// Counter increment that sticks at the top instead of wrapping.
pub open spec fn sat_inc(n: u64) -> u64 {
    if n == u64::MAX {
        n
    } else {
        (n + 1) as u64
    }
}

/// `k` saturating increments in a row.
pub open spec fn sat_add(n: u64, k: int) -> u64
    recommends
        k >= 0,
    decreases k,
{
    if k <= 0 {
        n
    } else {
        sat_inc(sat_add(n, k - 1))
    }
}

/// How many scripted faults stand at the front of the script.
pub open spec fn leading_failures(s: Seq<bool>) -> int
    decreases s.len(),
{
    if s.len() == 0 || !s[0] {
        0
    } else {
        1 + leading_failures(s.drop_first())
    }
}

/// The script after `attempts` raw operations each consumed one entry.
pub open spec fn consumed_after(s: Seq<bool>, attempts: int) -> Seq<bool> {
    if attempts <= s.len() {
        s.skip(attempts)
    } else {
        Seq::empty()
    }
}

/// How many raw operations the retry layer performs on a given script:
/// one per leading fault and one more for the final success, capped at
/// the attempt budget.
pub open spec fn attempts_needed(s: Seq<bool>) -> int {
    if leading_failures(s) < ATTEMPTS as int {
        leading_failures(s) + 1
    } else {
        ATTEMPTS as int
    }
}

pub open spec fn unique_keys(s: Seq<(String, Vec<u8>)>) -> bool {
    forall|i: int, j: int| 0 <= i < j < s.len() ==> s[i].0@ != s[j].0@
}

/// The key/object map a sequence of entries denotes.
pub open spec fn entries_map(s: Seq<(String, Vec<u8>)>) -> Map<Seq<char>, Seq<u8>>
    decreases s.len(),
{
    if s.len() == 0 {
        Map::empty()
    } else {
        entries_map(s.drop_last()).insert(s.last().0@, s.last().1@)
    }
}

proof fn lemma_entries_map_domain(s: Seq<(String, Vec<u8>)>, k: Seq<char>)
    ensures
        entries_map(s).contains_key(k) <==> exists|i: int| 0 <= i < s.len() && s[i].0@ == k,
    decreases s.len(),
{
    if s.len() > 0 {
        lemma_entries_map_domain(s.drop_last(), k);
        if s.last().0@ != k && entries_map(s).contains_key(k) {
            let i = choose|i: int| 0 <= i < s.drop_last().len() && s.drop_last()[i].0@ == k;
            assert(s[i].0@ == k);
        }
        if exists|i: int| 0 <= i < s.len() && s[i].0@ == k {
            let i = choose|i: int| 0 <= i < s.len() && s[i].0@ == k;
            if i < s.len() - 1 {
                assert(s.drop_last()[i].0@ == k);
            }
        }
    }
}

proof fn lemma_entries_map_value(s: Seq<(String, Vec<u8>)>, i: int)
    requires
        unique_keys(s),
        0 <= i < s.len(),
    ensures
        entries_map(s).contains_key(s[i].0@),
        entries_map(s)[s[i].0@] == s[i].1@,
    decreases s.len(),
{
    if i == s.len() - 1 {
    } else {
        assert(unique_keys(s.drop_last()));
        assert(s.drop_last()[i] == s[i]);
        lemma_entries_map_value(s.drop_last(), i);
        assert(s[i].0@ != s.last().0@);
    }
}

proof fn lemma_entries_map_update(s: Seq<(String, Vec<u8>)>, i: int, e: (String, Vec<u8>))
    requires
        unique_keys(s),
        0 <= i < s.len(),
        e.0@ == s[i].0@,
    ensures
        entries_map(s.update(i, e)) =~= entries_map(s).insert(e.0@, e.1@),
        unique_keys(s.update(i, e)),
    decreases s.len(),
{
    let t = s.update(i, e);
    assert forall|a: int, b: int| 0 <= a < b < t.len() implies t[a].0@ != t[b].0@ by {
        assert(s[a].0@ != s[b].0@);
    }
    if i == s.len() - 1 {
        assert(t.drop_last() =~= s.drop_last());
        assert(entries_map(t) == entries_map(s.drop_last()).insert(e.0@, e.1@));
        assert(entries_map(s).insert(e.0@, e.1@) =~= entries_map(s.drop_last()).insert(
            e.0@,
            e.1@,
        ));
    } else {
        assert(unique_keys(s.drop_last()));
        assert(s.drop_last()[i] == s[i]);
        lemma_entries_map_update(s.drop_last(), i, e);
        assert(t.drop_last() =~= s.drop_last().update(i, e));
        assert(t.last() == s.last());
        assert(s[i].0@ != s.last().0@);
        assert(entries_map(t) == entries_map(s.drop_last().update(i, e)).insert(
            s.last().0@,
            s.last().1@,
        ));
    }
}

/// The storage backend with its fault script and invocation counters.
pub struct Backend {
    entries: Vec<(String, Vec<u8>)>,
    faults: Vec<bool>,
    gets: u64,
    puts: u64,
}

impl Backend {
    /// Well-formed: one entry per key.
    pub closed spec fn wf(&self) -> bool {
        unique_keys(self.entries@)
    }

    /// The stored objects by key.
    pub closed spec fn contents(&self) -> Map<Seq<char>, Seq<u8>> {
        entries_map(self.entries@)
    }

    /// The scripted transient faults still pending, front first.
    pub closed spec fn fault_script(&self) -> Seq<bool> {
        self.faults@
    }

    /// How often a raw read was invoked.
    pub closed spec fn get_count(&self) -> u64 {
        self.gets
    }

    /// How often a raw write was invoked.
    pub closed spec fn put_count(&self) -> u64 {
        self.puts
    }

    /// How often a raw read was invoked, for callers watching traffic.
    pub fn gets(&self) -> (r: u64)
        ensures
            r == self.get_count(),
    {
        self.gets
    }

    /// How often a raw write was invoked, for callers watching traffic.
    pub fn puts(&self) -> (r: u64)
        ensures
            r == self.put_count(),
    {
        self.puts
    }

    /// A fresh backend: nothing stored, no faults scripted.
    pub fn new() -> (r: Backend)
        ensures
            r.wf(),
            r.contents() == Map::<Seq<char>, Seq<u8>>::empty(),
            r.fault_script() == Seq::<bool>::empty(),
            r.get_count() == 0,
            r.put_count() == 0,
    {
        let r = Backend { entries: Vec::new(), faults: Vec::new(), gets: 0, puts: 0 };
        proof {
            assert(r.contents() =~= Map::<Seq<char>, Seq<u8>>::empty());
        }
        r
    }

    /// Scripts one more upcoming operation outcome at the back: `true`
    /// is a transient fault, `false` a success.
    pub fn script_fault(&mut self, fail: bool)
        requires
            old(self).wf(),
        ensures
            final(self).wf(),
            final(self).contents() == old(self).contents(),
            final(self).fault_script() == old(self).fault_script().push(fail),
            final(self).get_count() == old(self).get_count(),
            final(self).put_count() == old(self).put_count(),
    {
        self.faults.push(fail);
    }

    /// One raw backend write: consumes a scripted fault if one is
    /// pending, counts the invocation, and on success stores the object.
    fn raw_put(&mut self, key: &str, value: &Vec<u8>) -> (r: Result<(), ()>)
        requires
            old(self).wf(),
        ensures
            final(self).wf(),
            final(self).fault_script() == consumed_after(old(self).fault_script(), 1),
            final(self).put_count() == sat_inc(old(self).put_count()),
            final(self).get_count() == old(self).get_count(),
            r is Err <==> (old(self).fault_script().len() > 0 && old(self).fault_script()[0]),
            r is Ok ==> final(self).contents() == old(self).contents().insert(key@, value@),
            r is Err ==> final(self).contents() == old(self).contents(),
    {
        if self.puts < u64::MAX {
            self.puts = self.puts + 1;
        }
        let failed: bool;
        if self.faults.len() > 0 {
            failed = self.faults.remove(0);
            proof {
                assert(self.faults@ =~= consumed_after(old(self).faults@, 1));
            }
        } else {
            failed = false;
            proof {
                assert(self.faults@ =~= consumed_after(old(self).faults@, 1));
            }
        }
        if failed {
            return Err(());
        }
        let owned_key = key.to_owned();
        let owned_val = slice_to_vec(value.as_slice());
        let mut i: usize = 0;
        let n = self.entries.len();
        while i < n
            invariant
                i <= n,
                n == self.entries@.len(),
                unique_keys(self.entries@),
                forall|j: int| 0 <= j < i ==> self.entries@[j].0@ != key@,
                owned_key@ == key@,
                owned_val@ == value@,
                self.entries == old(self).entries,
                self.faults@ == consumed_after(old(self).faults@, 1),
                self.puts == sat_inc(old(self).puts),
                self.gets == old(self).gets,
                !(old(self).faults@.len() > 0 && old(self).faults@[0]),
            decreases n - i,
        {
            if str_eq(self.entries[i].0.as_str(), key) {
                proof {
                    lemma_entries_map_update(
                        self.entries@,
                        i as int,
                        (owned_key, owned_val),
                    );
                }
                self.entries.set(i, (owned_key, owned_val));
                return Ok(());
            }
            i += 1;
        }
        proof {
            lemma_entries_map_domain(self.entries@, key@);
            let pushed = self.entries@.push((owned_key, owned_val));
            assert forall|a: int, b: int| 0 <= a < b < pushed.len() implies pushed[a].0@
                != pushed[b].0@ by {
                if b < pushed.len() - 1 {
                    assert(pushed[a] == self.entries@[a] && pushed[b] == self.entries@[b]);
                } else {
                    assert(pushed[a] == self.entries@[a]);
                }
            }
            assert(pushed.drop_last() =~= self.entries@);
        }
        self.entries.push((owned_key, owned_val));
        Ok(())
    }

    /// One raw backend read: consumes a scripted fault if one is
    /// pending, counts the invocation, and on success returns the stored
    /// object, or nothing for an unknown key.
    fn raw_get(&mut self, key: &str) -> (r: Result<Option<Vec<u8>>, ()>)
        requires
            old(self).wf(),
        ensures
            final(self).wf(),
            final(self).contents() == old(self).contents(),
            final(self).fault_script() == consumed_after(old(self).fault_script(), 1),
            final(self).get_count() == sat_inc(old(self).get_count()),
            final(self).put_count() == old(self).put_count(),
            r is Err <==> (old(self).fault_script().len() > 0 && old(self).fault_script()[0]),
            match r {
                Ok(Some(v)) => old(self).contents().contains_key(key@) && v@ == old(
                    self,
                ).contents()[key@],
                Ok(None) => !old(self).contents().contains_key(key@),
                Err(_) => true,
            },
    {
        if self.gets < u64::MAX {
            self.gets = self.gets + 1;
        }
        let failed: bool;
        if self.faults.len() > 0 {
            failed = self.faults.remove(0);
            proof {
                assert(self.faults@ =~= consumed_after(old(self).faults@, 1));
            }
        } else {
            failed = false;
            proof {
                assert(self.faults@ =~= consumed_after(old(self).faults@, 1));
            }
        }
        if failed {
            return Err(());
        }
        let mut i: usize = 0;
        let n = self.entries.len();
        while i < n
            invariant
                i <= n,
                n == self.entries@.len(),
                unique_keys(self.entries@),
                forall|j: int| 0 <= j < i ==> self.entries@[j].0@ != key@,
                self.entries == old(self).entries,
                self.faults@ == consumed_after(old(self).faults@, 1),
                self.gets == sat_inc(old(self).gets),
                self.puts == old(self).puts,
                !(old(self).faults@.len() > 0 && old(self).faults@[0]),
            decreases n - i,
        {
            if str_eq(self.entries[i].0.as_str(), key) {
                let v = slice_to_vec(self.entries[i].1.as_slice());
                proof {
                    lemma_entries_map_value(self.entries@, i as int);
                }
                return Ok(Some(v));
            }
            i += 1;
        }
        proof {
            lemma_entries_map_domain(self.entries@, key@);
        }
        Ok(None)
    }
}

proof fn lemma_leading_failures_nonneg(s: Seq<bool>)
    ensures
        0 <= leading_failures(s) <= s.len(),
    decreases s.len(),
{
    if !(s.len() == 0 || !s[0]) {
        lemma_leading_failures_nonneg(s.drop_first());
    }
}

proof fn lemma_leading_failure_step(s: Seq<bool>, n: int)
    requires
        0 <= n,
        leading_failures(s) >= n,
    ensures
        n < s.len() && s[n] ==> leading_failures(s) >= n + 1,
        (n >= s.len() || !s[n]) ==> leading_failures(s) == n,
    decreases n,
{
    if s.len() == 0 || !s[0] {
        assert(leading_failures(s) == 0);
    } else if n == 0 {
        lemma_leading_failures_nonneg(s.drop_first());
        assert(leading_failures(s) >= 1);
    } else {
        lemma_leading_failure_step(s.drop_first(), n - 1);
        if n < s.len() && s[n] {
            assert(s.drop_first()[n - 1] == s[n]);
        }
        if n >= s.len() || !s[n] {
            assert(leading_failures(s) == 1 + leading_failures(s.drop_first()));
        }
    }
}

proof fn lemma_consumed_chain(s: Seq<bool>, n: int)
    requires
        0 <= n,
    ensures
        consumed_after(consumed_after(s, n), 1) =~= consumed_after(s, n + 1),
{
}

impl Backend {
    /// Stores `value` under `key`, retrying scripted transient faults up
    /// to the attempt budget.
    ///
    /// Within the budget the write lands and the contents gain exactly
    /// this one association — writing bytes already present under the
    /// key changes nothing.  A fault outlasting the budget is a terminal
    /// `StorageError` and the contents stay as they were.
    pub fn put(&mut self, key: &str, value: &Vec<u8>) -> (r: Result<(), Error>)
        requires
            old(self).wf(),
        ensures
            final(self).wf(),
            final(self).fault_script() == consumed_after(
                old(self).fault_script(),
                attempts_needed(old(self).fault_script()),
            ),
            final(self).put_count() == sat_add(
                old(self).put_count(),
                attempts_needed(old(self).fault_script()),
            ),
            final(self).get_count() == old(self).get_count(),
            leading_failures(old(self).fault_script()) < ATTEMPTS as int ==> r is Ok
                && final(self).contents() == old(self).contents().insert(key@, value@),
            leading_failures(old(self).fault_script()) >= ATTEMPTS as int ==> (r matches Err(e)
                && e is StorageError) && final(self).contents() == old(self).contents(),
    {
        let ghost s0 = self.fault_script();
        proof {
            lemma_leading_failures_nonneg(s0);
        }
        let mut attempt: usize = 0;
        loop
            invariant
                self.wf(),
                attempt < ATTEMPTS,
                s0 == old(self).fault_script(),
                leading_failures(s0) >= attempt,
                self.fault_script() == consumed_after(s0, attempt as int),
                self.put_count() == sat_add(old(self).put_count(), attempt as int),
                self.get_count() == old(self).get_count(),
                self.contents() == old(self).contents(),
            decreases ATTEMPTS - attempt,
        {
            let ghost before = self.fault_script();
            let r = self.raw_put(key, value);
            proof {
                lemma_consumed_chain(s0, attempt as int);
            }
            match r {
                Ok(_) => {
                    proof {
                        assert(!(before.len() > 0 && before[0]));
                        if attempt as int <= s0.len() {
                            assert(before =~= s0.skip(attempt as int));
                            if (attempt as int) < s0.len() {
                                assert(s0[attempt as int] == before[0]);
                            }
                        } else {
                            assert(before.len() == 0);
                        }
                        lemma_leading_failure_step(s0, attempt as int);
                        assert(leading_failures(s0) == attempt as int);
                    }
                    return Ok(());
                },
                Err(_) => {
                    proof {
                        assert(before.len() > 0 && before[0]);
                        assert(attempt as int <= s0.len());
                        assert(before =~= s0.skip(attempt as int));
                        assert(s0[attempt as int] == before[0]);
                        lemma_leading_failure_step(s0, attempt as int);
                        assert(leading_failures(s0) >= attempt + 1);
                    }
                    attempt += 1;
                    if attempt == ATTEMPTS {
                        return Err(Error::StorageError("storage write failed".to_owned()));
                    }
                },
            }
        }
    }

    /// Reads the object under `key`, retrying scripted transient faults
    /// up to the attempt budget.
    ///
    /// Within the budget the result is exactly what the contents hold:
    /// the stored bytes, or nothing for an unknown key — a missing key
    /// is not an error and is never retried.  A fault outlasting the
    /// budget is a terminal `StorageError`.  Reading never changes the
    /// contents.
    pub fn get(&mut self, key: &str) -> (r: Result<Option<Vec<u8>>, Error>)
        requires
            old(self).wf(),
        ensures
            final(self).wf(),
            final(self).contents() == old(self).contents(),
            final(self).fault_script() == consumed_after(
                old(self).fault_script(),
                attempts_needed(old(self).fault_script()),
            ),
            final(self).get_count() == sat_add(
                old(self).get_count(),
                attempts_needed(old(self).fault_script()),
            ),
            final(self).put_count() == old(self).put_count(),
            leading_failures(old(self).fault_script()) < ATTEMPTS as int ==> match r {
                Ok(Some(v)) => old(self).contents().contains_key(key@) && v@ == old(
                    self,
                ).contents()[key@],
                Ok(None) => !old(self).contents().contains_key(key@),
                Err(_) => false,
            },
            leading_failures(old(self).fault_script()) >= ATTEMPTS as int ==> (r matches Err(e)
                && e is StorageError),
    {
        let ghost s0 = self.fault_script();
        proof {
            lemma_leading_failures_nonneg(s0);
        }
        let mut attempt: usize = 0;
        loop
            invariant
                self.wf(),
                attempt < ATTEMPTS,
                s0 == old(self).fault_script(),
                leading_failures(s0) >= attempt,
                self.fault_script() == consumed_after(s0, attempt as int),
                self.get_count() == sat_add(old(self).get_count(), attempt as int),
                self.put_count() == old(self).put_count(),
                self.contents() == old(self).contents(),
            decreases ATTEMPTS - attempt,
        {
            let ghost before = self.fault_script();
            let r = self.raw_get(key);
            proof {
                lemma_consumed_chain(s0, attempt as int);
            }
            match r {
                Ok(v) => {
                    proof {
                        assert(!(before.len() > 0 && before[0]));
                        if attempt as int <= s0.len() {
                            assert(before =~= s0.skip(attempt as int));
                            if (attempt as int) < s0.len() {
                                assert(s0[attempt as int] == before[0]);
                            }
                        } else {
                            assert(before.len() == 0);
                        }
                        lemma_leading_failure_step(s0, attempt as int);
                        assert(leading_failures(s0) == attempt as int);
                    }
                    return Ok(v);
                },
                Err(_) => {
                    proof {
                        assert(before.len() > 0 && before[0]);
                        assert(attempt as int <= s0.len());
                        assert(before =~= s0.skip(attempt as int));
                        assert(s0[attempt as int] == before[0]);
                        lemma_leading_failure_step(s0, attempt as int);
                        assert(leading_failures(s0) >= attempt + 1);
                    }
                    attempt += 1;
                    if attempt == ATTEMPTS {
                        return Err(Error::StorageError("storage read failed".to_owned()));
                    }
                },
            }
        }
    }
}

/// Whether a failed operation is tried once more: only transient
/// (backend-class) failures are retried, and only while the attempt
/// budget lasts.  Validation failures and missing keys never reach this
/// decision.  The composition root drives a real backend with exactly
/// this rule.
pub fn should_retry(transient: bool, attempts_made: usize) -> (r: bool)
    ensures
        r == (transient && attempts_made < ATTEMPTS),
{
    transient && attempts_made < ATTEMPTS
}

/// The backoff before retry number `attempt` (counting from 1), in
/// milliseconds: 100 ms doubled each time, for the composition root to
/// sleep between attempts.
pub fn backoff_ms(attempt: usize) -> (r: u64)
    requires
        attempt <= 16,
    ensures
        r == 100u64 * (1u64 << (attempt as u64)),
{
    let a = attempt as u64;
    proof {
        assert((1u64 << a) <= 65536u64) by (bit_vector)
            requires
                a <= 16u64,
        ;
    }
    100u64 * (1u64 << a)
}

} // verus!
