//! The edge cache and the detached population task.
//!
//! The cache maps a normalized request key to a full stored response,
//! with its own lifetime policy, independent of the paste store.  It is
//! populated only by background tasks: the middleware never waits for a
//! write, it hands the task to a scheduler whose queue the composition
//! root drains after the response has left.

use crate::http::{resp_view, GResp, Response};
use crate::strutil::str_eq;
use vstd::prelude::*;
use vstd::string::StringExecFns;

verus! {

pub open spec fn cache_unique_keys(s: Seq<(String, Response)>) -> bool {
    forall|i: int, j: int| 0 <= i < j < s.len() ==> s[i].0@ != s[j].0@
}

/// The key/response map a sequence of cache entries denotes.
pub open spec fn cache_entries_map(s: Seq<(String, Response)>) -> Map<Seq<char>, GResp>
    decreases s.len(),
{
    if s.len() == 0 {
        Map::empty()
    } else {
        cache_entries_map(s.drop_last()).insert(s.last().0@, resp_view(s.last().1))
    }
}

proof fn lemma_cache_map_domain(s: Seq<(String, Response)>, k: Seq<char>)
    ensures
        cache_entries_map(s).contains_key(k) <==> exists|i: int| 0 <= i < s.len() && s[i].0@ == k,
    decreases s.len(),
{
    if s.len() > 0 {
        lemma_cache_map_domain(s.drop_last(), k);
        if s.last().0@ != k && cache_entries_map(s).contains_key(k) {
            let i = choose|i: int| 0 <= i < s.drop_last().len() && s.drop_last()[i].0@ == k;
            assert(s[i].0@ == k);
        }
        if exists|i: int| 0 <= i < s.len() && s[i].0@ == k {
            let i = choose|i: int| 0 <= i < s.len() && s[i].0@ == k;
            if i < s.len() - 1 {
                assert(s.drop_last()[i].0@ == k);
            }
        }
    }
}

proof fn lemma_cache_map_value(s: Seq<(String, Response)>, i: int)
    requires
        cache_unique_keys(s),
        0 <= i < s.len(),
    ensures
        cache_entries_map(s).contains_key(s[i].0@),
        cache_entries_map(s)[s[i].0@] == resp_view(s[i].1),
    decreases s.len(),
{
    if i == s.len() - 1 {
    } else {
        assert(cache_unique_keys(s.drop_last()));
        assert(s.drop_last()[i] == s[i]);
        lemma_cache_map_value(s.drop_last(), i);
        assert(s[i].0@ != s.last().0@);
    }
}

proof fn lemma_cache_map_update(s: Seq<(String, Response)>, i: int, e: (String, Response))
    requires
        cache_unique_keys(s),
        0 <= i < s.len(),
        e.0@ == s[i].0@,
    ensures
        cache_entries_map(s.update(i, e)) =~= cache_entries_map(s).insert(e.0@, resp_view(e.1)),
        cache_unique_keys(s.update(i, e)),
    decreases s.len(),
{
    let t = s.update(i, e);
    assert forall|a: int, b: int| 0 <= a < b < t.len() implies t[a].0@ != t[b].0@ by {
        assert(s[a].0@ != s[b].0@);
    }
    if i == s.len() - 1 {
        assert(t.drop_last() =~= s.drop_last());
        assert(cache_entries_map(s).insert(e.0@, resp_view(e.1)) =~= cache_entries_map(
            s.drop_last(),
        ).insert(e.0@, resp_view(e.1)));
    } else {
        assert(cache_unique_keys(s.drop_last()));
        assert(s.drop_last()[i] == s[i]);
        lemma_cache_map_update(s.drop_last(), i, e);
        assert(t.drop_last() =~= s.drop_last().update(i, e));
        assert(t.last() == s.last());
        assert(s[i].0@ != s.last().0@);
        assert(cache_entries_map(t) == cache_entries_map(s.drop_last().update(i, e)).insert(
            s.last().0@,
            resp_view(s.last().1),
        ));
    }
}

/// The edge cache: responses stored under normalized request keys.
pub struct EdgeCache {
    entries: Vec<(String, Response)>,
}

impl EdgeCache {
    /// Well-formed: one entry per key.
    pub closed spec fn wf(&self) -> bool {
        cache_unique_keys(self.entries@)
    }

    /// The cached responses by key.
    pub closed spec fn contents(&self) -> Map<Seq<char>, GResp> {
        cache_entries_map(self.entries@)
    }

    /// A fresh, empty cache.
    pub fn new() -> (r: EdgeCache)
        ensures
            r.wf(),
            r.contents() == Map::<Seq<char>, GResp>::empty(),
    {
        let r = EdgeCache { entries: Vec::new() };
        proof {
            assert(r.contents() =~= Map::<Seq<char>, GResp>::empty());
        }
        r
    }

    /// Looks a key up; a hit hands back an independent copy of the
    /// stored response.
    pub fn get(&self, key: &str) -> (r: Option<Response>)
        requires
            self.wf(),
        ensures
            match r {
                Some(resp) => self.contents().contains_key(key@) && resp_view(resp)
                    == self.contents()[key@],
                None => !self.contents().contains_key(key@),
            },
    {
        let n = self.entries.len();
        let mut i: usize = 0;
        while i < n
            invariant
                i <= n,
                n == self.entries@.len(),
                cache_unique_keys(self.entries@),
                forall|j: int| 0 <= j < i ==> self.entries@[j].0@ != key@,
            decreases n - i,
        {
            if str_eq(self.entries[i].0.as_str(), key) {
                proof {
                    lemma_cache_map_value(self.entries@, i as int);
                }
                return Some(self.entries[i].1.duplicate());
            }
            i += 1;
        }
        proof {
            lemma_cache_map_domain(self.entries@, key@);
        }
        None
    }

    /// Stores a response under a key, replacing what was there.
    pub fn put(&mut self, key: &str, resp: Response)
        requires
            old(self).wf(),
        ensures
            final(self).wf(),
            final(self).contents() == old(self).contents().insert(key@, resp_view(resp)),
    {
        let owned_key = key.to_owned();
        let n = self.entries.len();
        let mut i: usize = 0;
        while i < n
            invariant
                i <= n,
                n == self.entries@.len(),
                cache_unique_keys(self.entries@),
                forall|j: int| 0 <= j < i ==> self.entries@[j].0@ != key@,
                owned_key@ == key@,
                self.entries == old(self).entries,
            decreases n - i,
        {
            if str_eq(self.entries[i].0.as_str(), key) {
                proof {
                    lemma_cache_map_update(self.entries@, i as int, (owned_key, resp));
                }
                self.entries.set(i, (owned_key, resp));
                return;
            }
            i += 1;
        }
        proof {
            lemma_cache_map_domain(self.entries@, key@);
            let pushed = self.entries@.push((owned_key, resp));
            assert forall|a: int, b: int| 0 <= a < b < pushed.len() implies pushed[a].0@
                != pushed[b].0@ by {
                if b < pushed.len() - 1 {
                    assert(pushed[a] == self.entries@[a] && pushed[b] == self.entries@[b]);
                } else {
                    assert(pushed[a] == self.entries@[a]);
                }
            }
            assert(pushed.drop_last() =~= self.entries@);
        }
        self.entries.push((owned_key, resp));
    }
}

/// A cache-population task: the key and the response clone to store
/// under it.  Its failure is the scheduler's affair, never the client's.
pub struct CacheTask {
    pub key: String,
    pub response: Response,
}

/// The background scheduler: detached tasks wait here until the
/// composition root drains them, strictly after the response has been
/// returned.  The request path never awaits a task.
pub struct Scheduler {
    tasks: Vec<CacheTask>,
}

impl Scheduler {
    /// The queued tasks, front first, as key/response pairs.
    pub closed spec fn queue(&self) -> Seq<(Seq<char>, GResp)> {
        Seq::new(self.tasks@.len(), |i: int| (self.tasks@[i].key@, resp_view(self.tasks@[i].response)))
    }

    /// How many tasks wait in the queue.
    pub fn pending(&self) -> (r: usize)
        ensures
            r == self.queue().len(),
    {
        self.tasks.len()
    }

    /// A fresh scheduler with nothing queued.
    pub fn new() -> (r: Scheduler)
        ensures
            r.queue() == Seq::<(Seq<char>, GResp)>::empty(),
    {
        let r = Scheduler { tasks: Vec::new() };
        proof {
            assert(r.queue() =~= Seq::<(Seq<char>, GResp)>::empty());
        }
        r
    }

    /// Queues a task; nothing runs until the root drains the queue.
    pub fn spawn_detached(&mut self, task: CacheTask)
        ensures
            final(self).queue() == old(self).queue().push((task.key@, resp_view(task.response))),
    {
        self.tasks.push(task);
        proof {
            assert(self.queue() =~= old(self).queue().push((task.key@, resp_view(task.response))));
        }
    }

    /// Runs the queued population tasks in order, emptying the queue.
    pub fn drain(&mut self, cache: &mut EdgeCache)
        requires
            old(cache).wf(),
        ensures
            final(self).queue() == Seq::<(Seq<char>, GResp)>::empty(),
            final(cache).wf(),
            final(cache).contents() == apply_tasks(old(cache).contents(), old(self).queue()),
    {
        let ghost q0 = self.queue();
        let mut i: usize = 0;
        let n = self.tasks.len();
        while i < n
            invariant
                i <= n,
                n == self.tasks@.len(),
                self.tasks == old(self).tasks,
                q0 == self.queue(),
                q0.len() == n,
                cache.wf(),
                cache.contents() == apply_tasks(old(cache).contents(), q0.take(i as int)),
            decreases n - i,
        {
            let task = &self.tasks[i];
            cache.put(task.key.as_str(), task.response.duplicate());
            proof {
                assert(q0.take(i + 1).drop_last() =~= q0.take(i as int));
                assert(q0.take(i + 1).last() == q0[i as int]);
            }
            i += 1;
        }
        proof {
            assert(q0.take(n as int) =~= q0);
        }
        self.tasks = Vec::new();
        proof {
            assert(self.queue() =~= Seq::<(Seq<char>, GResp)>::empty());
        }
    }
}

/// The cache contents after a queue of population tasks ran in order.
pub open spec fn apply_tasks(
    m: Map<Seq<char>, GResp>,
    q: Seq<(Seq<char>, GResp)>,
) -> Map<Seq<char>, GResp>
    decreases q.len(),
{
    if q.len() == 0 {
        m
    } else {
        apply_tasks(m, q.drop_last()).insert(q.last().0, q.last().1)
    }
}

} // verus!
