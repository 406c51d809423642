//! Retention of checkpoint files: which old checkpoints to remove so that only the newest
//! stay. The caller lists the checkpoint directory and removes the files named here.
use vstd::prelude::*;
use vstd::string::StrSliceExecFns;
use crate::checkpoint::validation::CheckpointCleanup;

verus! {

/// A directory entry as the cleanup sees it: the file name and its modification time, in
/// nanoseconds from the Unix epoch (negative before it).
pub type ListedFile = (String, i128);

/// The entries of a listing, with names as text.
pub open spec fn listing_view(files: Seq<ListedFile>) -> Seq<(Seq<char>, i128)> {
    files.map_values(|f: ListedFile| (f.0@, f.1))
}

/// The texts of `names`.
pub open spec fn texts(names: Seq<String>) -> Seq<Seq<char>> {
    names.map_values(|s: String| s@)
}

/// The names of the entries.
pub open spec fn entry_names(s: Seq<(Seq<char>, i128)>) -> Seq<Seq<char>> {
    s.map_values(|f: (Seq<char>, i128)| f.0)
}

/// Whether `name` ends with `suffix`.
pub open spec fn ends_with_text(name: Seq<char>, suffix: Seq<char>) -> bool {
    name.len() >= suffix.len() && name.subrange(name.len() - suffix.len(), name.len() as int) == suffix
}

/// Whether `name` is a checkpoint file other than the current one, named `current`.
pub open spec fn is_old_checkpoint(name: Seq<char>, current: Seq<char>) -> bool {
    ends_with_text(name, ".checkpoint"@) && name != current
}

/// The entries of `files` that are old checkpoints, in listing order.
pub open spec fn old_candidates(files: Seq<(Seq<char>, i128)>, current: Seq<char>) -> Seq<(Seq<char>, i128)>
    decreases files.len(),
{
    if files.len() == 0 {
        files
    } else {
        let rest = old_candidates(files.drop_last(), current);
        if is_old_checkpoint(files.last().0, current) {
            rest.push(files.last())
        } else {
            rest
        }
    }
}

/// Where an entry with time `k` goes into `s` when it comes after all of them: behind the
/// last entry whose time is not later than `k`.
pub open spec fn insert_pos(s: Seq<(Seq<char>, i128)>, k: i128) -> nat
    decreases s.len(),
{
    if s.len() == 0 {
        0
    } else if s.last().1 <= k {
        s.len()
    } else {
        insert_pos(s.drop_last(), k)
    }
}

/// The entries ordered by modification time, oldest first, entries of equal time in
/// listing order (a stable sort by time).
pub open spec fn oldest_first(s: Seq<(Seq<char>, i128)>) -> Seq<(Seq<char>, i128)>
    decreases s.len(),
{
    if s.len() == 0 {
        s
    } else {
        let t = oldest_first(s.drop_last());
        t.insert(insert_pos(t, s.last().1) as int, s.last())
    }
}

/// How many of `n` checkpoints go when `keep` may stay.
pub open spec fn excess(n: nat, keep: nat) -> nat {
    if n > keep {
        (n - keep) as nat
    } else {
        0
    }
}

/// The names of the old checkpoints to remove from the listing `files`, the current
/// checkpoint being named `current`: the oldest ones beyond the `keep` newest, oldest first.
pub open spec fn removal_names(files: Seq<(Seq<char>, i128)>, current: Seq<char>, keep: nat) -> Seq<Seq<char>> {
    let sorted = oldest_first(old_candidates(files, current));
    entry_names(sorted.subrange(0, excess(sorted.len(), keep) as int))
}

proof fn lemma_insert_pos_bound(s: Seq<(Seq<char>, i128)>, k: i128)
    ensures
        insert_pos(s, k) <= s.len(),
    decreases s.len(),
{
    if s.len() > 0 && s.last().1 > k {
        lemma_insert_pos_bound(s.drop_last(), k);
    }
}

proof fn lemma_oldest_first_len(s: Seq<(Seq<char>, i128)>)
    ensures
        oldest_first(s).len() == s.len(),
    decreases s.len(),
{
    if s.len() > 0 {
        lemma_oldest_first_len(s.drop_last());
        lemma_insert_pos_bound(oldest_first(s.drop_last()), s.last().1);
    }
}

/// Whether the entries are in order of time, oldest first.
pub open spec fn time_ordered(s: Seq<(Seq<char>, i128)>) -> bool {
    forall|i: int, j: int| 0 <= i <= j < s.len() ==> s[i].1 <= s[j].1
}

proof fn lemma_insert_pos_splits(s: Seq<(Seq<char>, i128)>, k: i128)
    requires
        time_ordered(s),
    ensures
        forall|i: int| 0 <= i < insert_pos(s, k) ==> s[i].1 <= k,
        forall|i: int| insert_pos(s, k) <= i < s.len() ==> s[i].1 > k,
    decreases s.len(),
{
    lemma_insert_pos_bound(s, k);
    if s.len() > 0 {
        let last = s.len() - 1;
        if s.last().1 > k {
            let r = s.drop_last();
            assert(time_ordered(r)) by {
                assert forall|i: int, j: int| 0 <= i <= j < r.len() implies r[i].1 <= r[j].1 by {
                    assert(r[i] == s[i] && r[j] == s[j]);
                }
            }
            lemma_insert_pos_splits(r, k);
            assert forall|i: int| insert_pos(s, k) <= i < s.len() implies s[i].1 > k by {
                if i < last {
                    assert(r[i] == s[i]);
                }
            }
            assert forall|i: int| 0 <= i < insert_pos(s, k) implies s[i].1 <= k by {
                assert(r[i] == s[i]);
            }
        } else {
            assert forall|i: int| 0 <= i < insert_pos(s, k) implies s[i].1 <= k by {
                assert(s[i].1 <= s[last].1);
            }
        }
    }
}

/// Ordering entries oldest first keeps exactly the entries, and puts them in order of
/// time.
pub proof fn lemma_oldest_first_orders(s: Seq<(Seq<char>, i128)>)
    ensures
        oldest_first(s).to_multiset() == s.to_multiset(),
        time_ordered(oldest_first(s)),
    decreases s.len(),
{
    broadcast use vstd::seq_lib::group_to_multiset_ensures;
    if s.len() > 0 {
        let r = s.drop_last();
        let x = s.last();
        lemma_oldest_first_orders(r);
        let t = oldest_first(r);
        lemma_insert_pos_bound(t, x.1);
        lemma_insert_pos_splits(t, x.1);
        let p = insert_pos(t, x.1) as int;
        vstd::seq_lib::to_multiset_insert(t, p, x);
        assert(r.push(x) =~= s);
        let u = t.insert(p, x);
        assert forall|i: int, j: int| 0 <= i <= j < u.len() implies u[i].1 <= u[j].1 by {
            if i < p && j > p {
                assert(u[j] == t[j - 1]);
            } else if i > p {
                assert(u[i] == t[i - 1] && u[j] == t[j - 1]);
            } else if i == p && j > p {
                assert(u[j] == t[j - 1]);
            } else if i < p && j == p {
            } else if i < p && j < p {
            }
        }
    }
}

/// The name of the file that the path points to (`Path::file_name`), or the empty text
/// where it has none, by the host's path rules.
pub uninterp spec fn spec_file_name(path: Seq<char>) -> Seq<char>;

/// The final component of `path` (`Path::file_name`, as text), or the empty text where the
/// path has none.
#[verifier::external_body]
fn path_file_name(path: &str) -> (name: String)
    ensures
        name@ == spec_file_name(path@),
{
    std::path::Path::new(path).file_name().and_then(|n| n.to_str()).unwrap_or("").to_string()
}

/// Whether `name` ends with ".checkpoint".
fn has_checkpoint_suffix(name: &str) -> (b: bool)
    ensures
        b == ends_with_text(name@, ".checkpoint"@),
{
    let suffix = ".checkpoint";
    proof {
        reveal_strlit(".checkpoint");
        assert(suffix@ =~= ".checkpoint"@);
    }
    let n = name.unicode_len();
    let m = suffix.unicode_len();
    if n < m {
        return false;
    }
    let mut i: usize = 0;
    while i < m
        invariant
            suffix@ == ".checkpoint"@,
            m == suffix@.len(),
            n == name@.len(),
            m <= n,
            i <= m,
            forall|j: int| 0 <= j < i ==> name@[n - m + j] == suffix@[j],
        decreases m - i,
    {
        if name.get_char(n - m + i) != suffix.get_char(i) {
            assert(name@.subrange(n - m, n as int)[i as int] != suffix@[i as int]);
            assert(name@.subrange(n - m, n as int) != suffix@);
            assert(!ends_with_text(name@, suffix@));
            return false;
        }
        i = i + 1;
    }
    assert(name@.subrange(n - m, n as int) =~= suffix@);
    true
}

/// Where an entry with time `k` goes into the ordered entries `sorted`.
fn insertion_point(sorted: &Vec<ListedFile>, k: i128) -> (pos: usize)
    ensures
        pos == insert_pos(listing_view(sorted@), k),
{
    let ghost v = listing_view(sorted@);
    let mut j: usize = sorted.len();
    assert(v.subrange(0, j as int) =~= v);
    while j > 0 && sorted[j - 1].1 > k
        invariant
            j <= sorted@.len(),
            v == listing_view(sorted@),
            insert_pos(v, k) == insert_pos(v.subrange(0, j as int), k),
        decreases j,
    {
        proof {
            assert(v.subrange(0, j as int).drop_last() =~= v.subrange(0, j - 1));
        }
        j = j - 1;
    }
    j
}

/// The old checkpoint files to remove from the listing `files` of a checkpoint directory
/// whose current checkpoint file is named `current`, so that at most `keep` of them stay:
/// files named "*.checkpoint" other than `current`, oldest first, all but the newest
/// `keep`.
pub fn old_checkpoint_names(files: &Vec<ListedFile>, current: &String, keep: usize) -> (names: Vec<String>)
    ensures
        texts(names@) == removal_names(listing_view(files@), current@, keep as nat),
{
    let ghost fv = listing_view(files@);
    let mut sorted: Vec<ListedFile> = Vec::new();
    let mut i: usize = 0;
    while i < files.len()
        invariant
            i <= files@.len(),
            fv == listing_view(files@),
            listing_view(sorted@) == oldest_first(old_candidates(fv.subrange(0, i as int), current@)),
        decreases files@.len() - i,
    {
        proof {
            assert(fv.subrange(0, i + 1).drop_last() =~= fv.subrange(0, i as int));
        }
        let ghost cands = old_candidates(fv.subrange(0, i as int), current@);
        let ghost x = fv[i as int];
        proof {
            assert(fv.subrange(0, i + 1).last() == x);
        }
        let name = files[i].0.as_str();
        if has_checkpoint_suffix(name) && files[i].0 != *current {
            let k = files[i].1;
            let pos = insertion_point(&sorted, k);
            let ghost before = listing_view(sorted@);
            proof {
                lemma_insert_pos_bound(before, k);
            }
            sorted.insert(pos, (files[i].0.clone(), k));
            proof {
                assert(listing_view(sorted@) =~= before.insert(pos as int, (files@[i as int].0@, k)));
                assert(old_candidates(fv.subrange(0, i + 1), current@) == cands.push(x));
                assert(cands.push(x).drop_last() =~= cands);
            }
        } else {
            assert(old_candidates(fv.subrange(0, i + 1), current@) == cands);
        }
        i = i + 1;
    }
    proof {
        assert(fv.subrange(0, files@.len() as int) =~= fv);
        lemma_oldest_first_len(old_candidates(fv, current@));
    }
    let n = sorted.len();
    let count: usize = if n > keep { n - keep } else { 0 };
    let ghost sv = listing_view(sorted@);
    let mut names: Vec<String> = Vec::new();
    let mut j: usize = 0;
    while j < count
        invariant
            count <= sorted@.len(),
            j <= count,
            names@.len() == j,
            sv == listing_view(sorted@),
            texts(names@) == entry_names(sv.subrange(0, j as int)),
        decreases count - j,
    {
        let ghost before = names@;
        names.push(sorted[j].0.clone());
        proof {
            assert(sv[j as int].0 == sorted@[j as int].0@);
            assert(names@ == before.push(sorted@[j as int].0));
            assert forall|t: int| 0 <= t < j + 1 implies #[trigger] texts(names@)[t] == entry_names(sv.subrange(0, j + 1))[t] by {
                assert(texts(names@)[t] == names@[t]@);
                assert(entry_names(sv.subrange(0, j + 1))[t] == sv.subrange(0, j + 1)[t].0);
                if t < j {
                    assert(texts(before)[t] == entry_names(sv.subrange(0, j as int))[t]);
                    assert(texts(before)[t] == before[t]@);
                    assert(entry_names(sv.subrange(0, j as int))[t] == sv.subrange(0, j as int)[t].0);
                }
            }
            assert(texts(names@) =~= entry_names(sv.subrange(0, j + 1)));
        }
        j = j + 1;
    }
    names
}

impl CheckpointCleanup {
    /// The old checkpoint files to remove from the listing `files` of the checkpoint
    /// directory so that at most `max_checkpoints_to_keep` of them stay: files named
    /// "*.checkpoint" other than the current checkpoint file, oldest first, all but the
    /// newest `max_checkpoints_to_keep`.
    pub fn old_checkpoints(&self, files: &Vec<ListedFile>, max_checkpoints_to_keep: usize) -> (names: Vec<String>)
        ensures
            texts(names@) == removal_names(
                listing_view(files@),
                spec_file_name(self.config().checkpoint_path@),
                max_checkpoints_to_keep as nat,
            ),
    {
        let current = path_file_name(self.config.checkpoint_path.as_str());
        old_checkpoint_names(files, &current, max_checkpoints_to_keep)
    }
}

} // verus!
