//! Records of errors met by the write-ahead log: counts by kind, the recent occurrences and
//! the most frequent kinds.
use vstd::prelude::*;
use crate::seqs::{has_key, keys_distinct, lemma_value_at, pairs_map, value_of};
use crate::metrics::defaults::DEFAULT_MAX_RECENT_ERRORS;
use crate::text::{decimal, push_decimal};

verus! {

/// One error occurrence, with its context and the recovery taken.
#[derive(Debug, Clone)]
pub struct ErrorEntry {
    /// Kind of error.
    pub error_type: String,
    /// Its message.
    pub message: String,
    /// When it happened.
    pub timestamp: u64,
    /// The operation under way.
    pub operation_context: String,
    /// The recovery action taken.
    pub recovery_action: String,
}

/// Counts errors by kind and keeps the most recent occurrences.
#[derive(Debug, Clone)]
pub struct ErrorTracker {
    /// Occurrences of each kind of error, in the order the kinds were first met.
    pub error_counts: Vec<(String, u64)>,
    /// The most recent errors, oldest first.
    pub recent_errors: Vec<ErrorEntry>,
    /// How many recent errors are kept.
    pub max_recent_errors: usize,
}

/// The counts with kinds as text.
pub open spec fn counts_view(s: Seq<(String, u64)>) -> Seq<(Seq<char>, u64)> {
    s.map_values(|p: (String, u64)| (p.0@, p.1))
}

/// The counts after one more error of kind `t`: its count goes up by one, or it is added
/// with count one behind the kinds already met.
pub open spec fn counted(s: Seq<(Seq<char>, u64)>, t: Seq<char>) -> Seq<(Seq<char>, u64)> {
    if has_key(s, t) {
        let i = choose|i: int| 0 <= i < s.len() && s[i].0 == t;
        s.update(i, (t, (s[i].1 + 1) as u64))
    } else {
        s.push((t, 1u64))
    }
}

/// The errors kept when at most `max` may stay: the newest ones.
pub open spec fn kept_recent(r: Seq<ErrorEntry>, max: nat) -> Seq<ErrorEntry> {
    if r.len() > max {
        r.subrange(r.len() - max, r.len() as int)
    } else {
        r
    }
}

/// The sum of the counts.
pub open spec fn total_count(s: Seq<(Seq<char>, u64)>) -> int
    decreases s.len(),
{
    if s.len() == 0 {
        0
    } else {
        total_count(s.drop_last()) + s.last().1
    }
}

/// The summary of errors: none recorded, or the total, the number of kinds and the number
/// of recent errors kept.
pub open spec fn error_summary(total: nat, kinds: nat, recent: nat) -> Seq<char> {
    if total == 0 {
        "No errors recorded"@
    } else {
        "Total Errors: "@ + decimal(total) + ", Types: "@ + decimal(kinds) + ", Recent: "@ + decimal(recent)
    }
}

/// Where a kind with count `c` goes into `s` when it comes after all of them: behind the
/// last kind whose count is not lower than `c`.
pub open spec fn rank_pos(s: Seq<(Seq<char>, u64)>, c: u64) -> nat
    decreases s.len(),
{
    if s.len() == 0 {
        0
    } else if s.last().1 >= c {
        s.len()
    } else {
        rank_pos(s.drop_last(), c)
    }
}

/// The kinds ordered by count, most frequent first, kinds of equal count in the order
/// they were first met (a stable sort by descending count).
pub open spec fn most_frequent_first(s: Seq<(Seq<char>, u64)>) -> Seq<(Seq<char>, u64)>
    decreases s.len(),
{
    if s.len() == 0 {
        s
    } else {
        let t = most_frequent_first(s.drop_last());
        t.insert(rank_pos(t, s.last().1) as int, s.last())
    }
}

/// Whether the kinds are in order of descending count.
pub open spec fn count_ordered(s: Seq<(Seq<char>, u64)>) -> bool {
    forall|i: int, j: int| 0 <= i <= j < s.len() ==> s[i].1 >= s[j].1
}

proof fn lemma_rank_pos_bound(s: Seq<(Seq<char>, u64)>, c: u64)
    ensures
        rank_pos(s, c) <= s.len(),
    decreases s.len(),
{
    if s.len() > 0 && s.last().1 < c {
        lemma_rank_pos_bound(s.drop_last(), c);
    }
}

proof fn lemma_rank_pos_splits(s: Seq<(Seq<char>, u64)>, c: u64)
    requires
        count_ordered(s),
    ensures
        forall|i: int| 0 <= i < rank_pos(s, c) ==> s[i].1 >= c,
        forall|i: int| rank_pos(s, c) <= i < s.len() ==> s[i].1 < c,
    decreases s.len(),
{
    lemma_rank_pos_bound(s, c);
    if s.len() > 0 {
        let last = s.len() - 1;
        if s.last().1 < c {
            let r = s.drop_last();
            assert(count_ordered(r)) by {
                assert forall|i: int, j: int| 0 <= i <= j < r.len() implies r[i].1 >= r[j].1 by {
                    assert(r[i] == s[i] && r[j] == s[j]);
                }
            }
            lemma_rank_pos_splits(r, c);
            assert forall|i: int| rank_pos(s, c) <= i < s.len() implies s[i].1 < c by {
                if i < last {
                    assert(r[i] == s[i]);
                }
            }
            assert forall|i: int| 0 <= i < rank_pos(s, c) implies s[i].1 >= c by {
                assert(r[i] == s[i]);
            }
        } else {
            assert forall|i: int| 0 <= i < rank_pos(s, c) implies s[i].1 >= c by {
                assert(s[i].1 >= s[last].1);
            }
        }
    }
}

/// Ordering kinds by count keeps exactly the kinds and their counts, most frequent first.
pub proof fn lemma_most_frequent_first_orders(s: Seq<(Seq<char>, u64)>)
    ensures
        most_frequent_first(s).to_multiset() == s.to_multiset(),
        most_frequent_first(s).len() == s.len(),
        count_ordered(most_frequent_first(s)),
    decreases s.len(),
{
    broadcast use vstd::seq_lib::group_to_multiset_ensures;
    if s.len() > 0 {
        let r = s.drop_last();
        let x = s.last();
        lemma_most_frequent_first_orders(r);
        let t = most_frequent_first(r);
        lemma_rank_pos_bound(t, x.1);
        lemma_rank_pos_splits(t, x.1);
        let p = rank_pos(t, x.1) as int;
        vstd::seq_lib::to_multiset_insert(t, p, x);
        assert(r.push(x) =~= s);
        let u = t.insert(p, x);
        assert forall|i: int, j: int| 0 <= i <= j < u.len() implies u[i].1 >= u[j].1 by {
            if i < p && j > p {
                assert(u[j] == t[j - 1]);
            } else if i > p {
                assert(u[i] == t[i - 1] && u[j] == t[j - 1]);
            } else if i == p && j > p {
                assert(u[j] == t[j - 1]);
            }
        }
    }
}

proof fn lemma_total_prefix(s: Seq<(Seq<char>, u64)>, i: int)
    requires
        0 <= i <= s.len(),
    ensures
        0 <= total_count(s.subrange(0, i)) <= total_count(s),
    decreases s.len(),
{
    if i == s.len() {
        assert(s.subrange(0, i) =~= s);
        lemma_total_nonneg(s);
    } else {
        lemma_total_prefix(s.drop_last(), i);
        assert(s.drop_last().subrange(0, i) =~= s.subrange(0, i));
    }
}

proof fn lemma_total_nonneg(s: Seq<(Seq<char>, u64)>)
    ensures
        total_count(s) >= 0,
    decreases s.len(),
{
    if s.len() > 0 {
        lemma_total_nonneg(s.drop_last());
    }
}

proof fn lemma_total_update(s: Seq<(Seq<char>, u64)>, i: int, x: (Seq<char>, u64))
    requires
        0 <= i < s.len(),
    ensures
        total_count(s.update(i, x)) == total_count(s) - s[i].1 + x.1,
    decreases s.len(),
{
    let u = s.update(i, x);
    if i == s.len() - 1 {
        assert(u.drop_last() =~= s.drop_last());
    } else {
        lemma_total_update(s.drop_last(), i, x);
        assert(u.drop_last() =~= s.drop_last().update(i, x));
    }
}

/// Counting one more error raises the total of the counts by exactly one.
pub proof fn lemma_counted_adds_one(s: Seq<(Seq<char>, u64)>, t: Seq<char>)
    requires
        keys_distinct(s),
        has_key(s, t) ==> value_of(s, t) < u64::MAX,
    ensures
        total_count(counted(s, t)) == total_count(s) + 1,
        keys_distinct(counted(s, t)),
        pairs_map(counted(s, t)).contains_key(t),
{
    if has_key(s, t) {
        let i = choose|i: int| 0 <= i < s.len() && s[i].0 == t;
        lemma_value_at(s, i);
        lemma_total_update(s, i, (t, (s[i].1 + 1) as u64));
        let u = counted(s, t);
        assert(keys_distinct(u)) by {
            assert forall|a: int, b: int| 0 <= a < u.len() && 0 <= b < u.len() && a != b implies u[a].0 != u[b].0 by {
                assert(u[a].0 == s[a].0 && u[b].0 == s[b].0);
            }
        }
        assert(u[i].0 == t);
    } else {
        let u = counted(s, t);
        assert(u.drop_last() =~= s);
        assert(u[s.len() as int].0 == t);
    }
}

/// The index of the kind `t` among the counts, if it was met.
fn find_kind(s: &Vec<(String, u64)>, t: &String) -> (r: Option<usize>)
    ensures
        r matches Some(i) ==> i < s@.len() && counts_view(s@)[i as int].0 == t@,
        r is None ==> !has_key(counts_view(s@), t@),
{
    let ghost v = counts_view(s@);
    let mut i: usize = 0;
    while i < s.len()
        invariant
            0 <= i <= s@.len(),
            v == counts_view(s@),
            forall|j: int| 0 <= j < i ==> v[j].0 != t@,
        decreases s@.len() - i,
    {
        if s[i].0 == *t {
            return Some(i);
        }
        i = i + 1;
    }
    None
}

/// Where a kind with count `c` goes into the ordered kinds `sorted`.
fn rank_point(sorted: &Vec<(String, u64)>, c: u64) -> (pos: usize)
    ensures
        pos == rank_pos(counts_view(sorted@), c),
{
    let ghost v = counts_view(sorted@);
    let mut j: usize = sorted.len();
    assert(v.subrange(0, j as int) =~= v);
    while j > 0 && sorted[j - 1].1 < c
        invariant
            j <= sorted@.len(),
            v == counts_view(sorted@),
            rank_pos(v, c) == rank_pos(v.subrange(0, j as int), c),
        decreases j,
    {
        proof {
            assert(v.subrange(0, j as int).drop_last() =~= v.subrange(0, j - 1));
        }
        j = j - 1;
    }
    j
}

impl ErrorTracker {
    /// Whether the kinds counted are distinct.
    pub open spec fn wf(&self) -> bool {
        keys_distinct(counts_view(self.error_counts@))
    }

    /// The count of each kind of error met.
    pub open spec fn counts(&self) -> Map<Seq<char>, u64> {
        pairs_map(counts_view(self.error_counts@))
    }

    /// A tracker with no errors, keeping up to 1000 recent ones.
    pub fn new() -> (t: Self)
        ensures
            t.wf(),
            t.error_counts@.len() == 0,
            t.recent_errors@.len() == 0,
            t.max_recent_errors == DEFAULT_MAX_RECENT_ERRORS,
    {
        ErrorTracker { error_counts: Vec::new(), recent_errors: Vec::new(), max_recent_errors: DEFAULT_MAX_RECENT_ERRORS }
    }

    /// Records one error: its kind is counted once more, and it joins the recent errors,
    /// of which only the newest `max_recent_errors` stay.
    pub fn record_error(&mut self, error_entry: ErrorEntry)
        requires
            old(self).wf(),
            has_key(counts_view(old(self).error_counts@), error_entry.error_type@) ==>
                value_of(counts_view(old(self).error_counts@), error_entry.error_type@) < u64::MAX,
        ensures
            final(self).wf(),
            counts_view(final(self).error_counts@) == counted(counts_view(old(self).error_counts@), error_entry.error_type@),
            final(self).recent_errors@ == kept_recent(old(self).recent_errors@.push(error_entry), old(self).max_recent_errors as nat),
            final(self).max_recent_errors == old(self).max_recent_errors,
    {
        let ghost s0 = counts_view(self.error_counts@);
        let kind = error_entry.error_type.clone();
        match find_kind(&self.error_counts, &kind) {
            Some(i) => {
                let c = self.error_counts[i].1;
                proof {
                    lemma_value_at(s0, i as int);
                }
                self.error_counts.set(i, (kind, c + 1));
                proof {
                    let s1 = counts_view(self.error_counts@);
                    let j = choose|j: int| 0 <= j < s0.len() && s0[j].0 == error_entry.error_type@;
                    assert(j == i);
                    assert(s1 =~= s0.update(i as int, (error_entry.error_type@, (c + 1) as u64)));
                    assert(keys_distinct(s1)) by {
                        assert forall|a: int, b: int| 0 <= a < s1.len() && 0 <= b < s1.len() && a != b implies s1[a].0 != s1[b].0 by {
                            assert(s1[a].0 == s0[a].0 && s1[b].0 == s0[b].0);
                        }
                    }
                }
            },
            None => {
                self.error_counts.push((kind, 1));
                proof {
                    let s1 = counts_view(self.error_counts@);
                    assert(s1 =~= s0.push((error_entry.error_type@, 1u64)));
                }
            },
        }
        let ghost pushed = self.recent_errors@.push(error_entry);
        self.recent_errors.push(error_entry);
        if self.recent_errors.len() > self.max_recent_errors {
            let drop = self.recent_errors.len() - self.max_recent_errors;
            let mut kept: Vec<ErrorEntry> = Vec::new();
            let mut k: usize = drop;
            while k < self.recent_errors.len()
                invariant
                    self.recent_errors@ == pushed,
                    drop <= k <= pushed.len(),
                    kept@ == pushed.subrange(drop as int, k as int),
                decreases pushed.len() - k,
            {
                kept.push(self.recent_errors[k].clone_entry());
                k = k + 1;
            }
            self.recent_errors = kept;
        }
    }

    /// Forgets all errors; the limit on recent errors stays.
    pub fn reset(&mut self)
        ensures
            final(self).wf(),
            final(self).error_counts@.len() == 0,
            final(self).recent_errors@.len() == 0,
            final(self).max_recent_errors == old(self).max_recent_errors,
    {
        self.error_counts = Vec::new();
        self.recent_errors = Vec::new();
    }

    /// How many errors of kind `error_type` were met, if any.
    pub fn error_count(&self, error_type: &str) -> (r: Option<u64>)
        requires
            self.wf(),
        ensures
            r == (if self.counts().contains_key(error_type@) { Some(self.counts()[error_type@]) } else { None::<u64> }),
    {
        let t = error_type.to_string();
        match find_kind(&self.error_counts, &t) {
            Some(i) => {
                proof {
                    lemma_value_at(counts_view(self.error_counts@), i as int);
                }
                Some(self.error_counts[i].1)
            },
            None => None,
        }
    }

    /// The summary of errors: "No errors recorded", or the total, the number of kinds and
    /// the number of recent errors kept.
    pub fn get_summary(&self) -> (s: String)
        requires
            total_count(counts_view(self.error_counts@)) <= u64::MAX,
        ensures
            s@ == error_summary(
                total_count(counts_view(self.error_counts@)) as nat,
                self.error_counts@.len(),
                self.recent_errors@.len(),
            ),
    {
        let ghost v = counts_view(self.error_counts@);
        let mut total: u64 = 0;
        let mut i: usize = 0;
        while i < self.error_counts.len()
            invariant
                i <= self.error_counts@.len(),
                v == counts_view(self.error_counts@),
                total_count(v) <= u64::MAX,
                total == total_count(v.subrange(0, i as int)),
            decreases self.error_counts@.len() - i,
        {
            proof {
                lemma_total_prefix(v, i + 1);
                assert(v.subrange(0, i + 1).drop_last() =~= v.subrange(0, i as int));
            }
            total = total + self.error_counts[i].1;
            i = i + 1;
        }
        assert(v.subrange(0, v.len() as int) =~= v);
        if total == 0 {
            String::from_str("No errors recorded")
        } else {
            let mut s = String::from_str("Total Errors: ");
            push_decimal(&mut s, total);
            s.append(", Types: ");
            push_decimal(&mut s, self.error_counts.len() as u64);
            s.append(", Recent: ");
            push_decimal(&mut s, self.recent_errors.len() as u64);
            s
        }
    }

    /// The `limit` most frequent kinds of error with their counts, most frequent first;
    /// kinds of equal count come in the order they were first met.
    pub fn get_top_errors(&self, limit: usize) -> (top: Vec<(String, u64)>)
        ensures
            counts_view(top@) == most_frequent_first(counts_view(self.error_counts@)).subrange(
                0,
                if limit < self.error_counts@.len() { limit as int } else { self.error_counts@.len() as int },
            ),
    {
        let ghost v = counts_view(self.error_counts@);
        let mut sorted: Vec<(String, u64)> = Vec::new();
        let mut i: usize = 0;
        while i < self.error_counts.len()
            invariant
                i <= self.error_counts@.len(),
                v == counts_view(self.error_counts@),
                counts_view(sorted@) == most_frequent_first(v.subrange(0, i as int)),
            decreases self.error_counts@.len() - i,
        {
            proof {
                assert(v.subrange(0, i + 1).drop_last() =~= v.subrange(0, i as int));
            }
            let c = self.error_counts[i].1;
            let pos = rank_point(&sorted, c);
            let ghost before = counts_view(sorted@);
            proof {
                lemma_rank_pos_bound(before, c);
            }
            sorted.insert(pos, (self.error_counts[i].0.clone(), c));
            proof {
                assert(counts_view(sorted@) =~= before.insert(pos as int, v[i as int]));
            }
            i = i + 1;
        }
        proof {
            assert(v.subrange(0, v.len() as int) =~= v);
            lemma_most_frequent_first_orders(v);
        }
        let n: usize = if limit < sorted.len() { limit } else { sorted.len() };
        let ghost sv = counts_view(sorted@);
        let mut top: Vec<(String, u64)> = Vec::new();
        let mut j: usize = 0;
        while j < n
            invariant
                n <= sorted@.len(),
                j <= n,
                top@.len() == j,
                sv == counts_view(sorted@),
                counts_view(top@) == sv.subrange(0, j as int),
            decreases n - j,
        {
            let ghost before = top@;
            top.push((sorted[j].0.clone(), sorted[j].1));
            proof {
                assert(counts_view(top@) =~= sv.subrange(0, j + 1)) by {
                    assert forall|t: int| 0 <= t < j + 1 implies #[trigger] counts_view(top@)[t] == sv.subrange(0, j + 1)[t] by {
                        if t < j {
                            assert(top@[t] == before[t]);
                            assert(counts_view(before)[t] == sv.subrange(0, j as int)[t]);
                        }
                    }
                }
            }
            j = j + 1;
        }
        top
    }
}

impl ErrorEntry {
    /// A copy of the entry.
    pub fn clone_entry(&self) -> (e: Self)
        ensures
            e == *self,
    {
        ErrorEntry {
            error_type: self.error_type.clone(),
            message: self.message.clone(),
            timestamp: self.timestamp,
            operation_context: self.operation_context.clone(),
            recovery_action: self.recovery_action.clone(),
        }
    }
}

} // verus!
