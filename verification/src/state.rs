//! The live-file map and the merge that reconstructs it: add records
//! insert or overwrite keyed by file path, remove records are collected
//! and applied as one unconditional deletion pass at the end.
//!
//! The deletion pass is deliberately not a temporal replay: a path removed
//! in any processed file stays out of the final map even if a
//! later-versioned file adds it again. This is a known semantic
//! simplification of the format's replay rules, kept as designed.

use vstd::prelude::*;

use crate::action::{FileAdd, FileAddV, TransactionLog, TransactionLogV};

verus! {

/// One live-file table: entries keyed by file path, in insertion order.
pub type EntrySeq = Seq<(Seq<char>, FileAddV)>;

/// The element-wise deep view of a sequence.
pub open spec fn deep_of<T: DeepView>(s: Seq<T>) -> Seq<T::V> {
    s.map_values(|x: T| x.deep_view())
}

pub broadcast proof fn lemma_deep_of<T: DeepView>(s: Seq<T>)
    ensures
        (#[trigger] deep_of(s)).len() == s.len(),
        forall|i: int| 0 <= i < s.len() ==> deep_of(s)[i] == s[i].deep_view(),
{
}

/// A vector's deep view is the element-wise deep view of its elements.
pub broadcast proof fn lemma_vec_deep_view<T: DeepView>(v: Vec<T>)
    ensures
        #[trigger] v.deep_view() == deep_of(v@),
{
    assert(v.deep_view() =~= deep_of(v@)) by {
        lemma_deep_of(v@);
    }
}

/// No two entries share a key.
pub open spec fn unique_keys(s: EntrySeq) -> bool {
    forall|i: int, j: int| 0 <= i < j < s.len() ==> s[i].0 != s[j].0
}

/// Some entry has key `k`.
pub open spec fn has_entry_key(s: EntrySeq, k: Seq<char>) -> bool {
    exists|i: int| 0 <= i < s.len() && s[i].0 == k
}

/// The index of the entry with key `k` (any witness; unique under
/// [`unique_keys`]).
pub open spec fn entry_key_at(s: EntrySeq, k: Seq<char>) -> int {
    choose|i: int| 0 <= i < s.len() && s[i].0 == k
}

/// Insert or overwrite the entry for `a.path`: an existing entry keeps
/// its position, a fresh key goes to the end.
pub open spec fn insert_entry(s: EntrySeq, a: FileAddV) -> EntrySeq {
    if has_entry_key(s, a.path) {
        s.update(entry_key_at(s, a.path), (a.path, a))
    } else {
        s.push((a.path, a))
    }
}

/// Drop the entry for key `k`, if any.
pub open spec fn remove_entry(s: EntrySeq, k: Seq<char>) -> EntrySeq {
    if has_entry_key(s, k) {
        s.remove(entry_key_at(s, k))
    } else {
        s
    }
}

pub broadcast proof fn lemma_insert_entry(s: EntrySeq, a: FileAddV)
    requires
        unique_keys(s),
    ensures
        unique_keys(#[trigger] insert_entry(s, a)),
        forall|k: Seq<char>|
            has_entry_key(insert_entry(s, a), k) <==> (k == a.path || has_entry_key(s, k)),
{
    if has_entry_key(s, a.path) {
        let i = entry_key_at(s, a.path);
        let t = insert_entry(s, a);
        assert(t[i].0 == a.path);
        assert(has_entry_key(t, a.path));
        assert forall|k: Seq<char>| has_entry_key(s, k) implies has_entry_key(t, k) by {
            let w = choose|w: int| 0 <= w < s.len() && s[w].0 == k;
            if w == i {
                assert(t[i].0 == a.path);
                assert(s[w].0 == a.path);
            } else {
                assert(t[w].0 == k);
            }
        }
        assert forall|k: Seq<char>| has_entry_key(t, k) implies (k == a.path || has_entry_key(
            s,
            k,
        )) by {
            let w = choose|w: int| 0 <= w < t.len() && t[w].0 == k;
            if w != i {
                assert(s[w].0 == k);
            }
        }
    } else {
        let t = s.push((a.path, a));
        assert(t[s.len() as int].0 == a.path);
        assert(has_entry_key(t, a.path));
        assert forall|k: Seq<char>| has_entry_key(t, k) implies (k == a.path || has_entry_key(
            s,
            k,
        )) by {
            let w = choose|w: int| 0 <= w < t.len() && t[w].0 == k;
            if w < s.len() {
                assert(s[w].0 == k);
            }
        }
        assert forall|k: Seq<char>| has_entry_key(s, k) implies has_entry_key(t, k) by {
            let w = choose|w: int| 0 <= w < s.len() && s[w].0 == k;
            assert(t[w].0 == k);
        }
    }
}

pub broadcast proof fn lemma_remove_entry(s: EntrySeq, k: Seq<char>)
    requires
        unique_keys(s),
    ensures
        unique_keys(#[trigger] remove_entry(s, k)),
        forall|k2: Seq<char>|
            has_entry_key(remove_entry(s, k), k2) <==> (k2 != k && has_entry_key(s, k2)),
{
    if has_entry_key(s, k) {
        let i = entry_key_at(s, k);
        let t = s.remove(i);
        assert(t.len() == s.len() - 1);
        assert forall|j: int| 0 <= j < t.len() implies t[j] == (if j < i {
            s[j]
        } else {
            s[j + 1]
        }) by {}
        assert forall|k2: Seq<char>| has_entry_key(t, k2) implies (k2 != k && has_entry_key(
            s,
            k2,
        )) by {
            let w = choose|w: int| 0 <= w < t.len() && t[w].0 == k2;
            if w < i {
                assert(s[w].0 == k2);
                assert(k2 != k);
            } else {
                assert(s[w + 1].0 == k2);
                assert(k2 != k);
            }
        }
        assert forall|k2: Seq<char>| k2 != k && has_entry_key(s, k2) implies has_entry_key(
            t,
            k2,
        ) by {
            let w = choose|w: int| 0 <= w < s.len() && s[w].0 == k2;
            if w < i {
                assert(t[w].0 == k2);
            } else {
                assert(w > i);
                assert(t[w - 1].0 == k2);
            }
        }
    }
}

/// The add records of one file, applied first to last.
pub open spec fn apply_adds(s: EntrySeq, adds: Seq<FileAddV>) -> EntrySeq
    decreases adds.len(),
{
    if adds.len() == 0 {
        s
    } else {
        insert_entry(apply_adds(s, adds.drop_last()), adds.last())
    }
}

/// The add records of a run of files, file by file.
pub open spec fn apply_all_adds(s: EntrySeq, rs: Seq<TransactionLogV>) -> EntrySeq
    decreases rs.len(),
{
    if rs.len() == 0 {
        s
    } else {
        apply_adds(apply_all_adds(s, rs.drop_last()), rs.last().adds)
    }
}

/// Every path removed anywhere in a run of files, in file order.
pub open spec fn all_removed_paths(rs: Seq<TransactionLogV>) -> Seq<Seq<char>>
    decreases rs.len(),
{
    if rs.len() == 0 {
        Seq::empty()
    } else {
        all_removed_paths(rs.drop_last()) + rs.last().removes.map_values(
            |r: crate::action::FileRemoveV| r.path,
        )
    }
}

/// Drop the entries of every key in `keys`, first to last.
pub open spec fn remove_keys(s: EntrySeq, keys: Seq<Seq<char>>) -> EntrySeq
    decreases keys.len(),
{
    if keys.len() == 0 {
        s
    } else {
        remove_entry(remove_keys(s, keys.drop_last()), keys.last())
    }
}

/// The merge of a run of parsed log files over a baseline: all adds keyed
/// by path, then one unconditional deletion pass for every removed path.
pub open spec fn spec_merge(s: EntrySeq, rs: Seq<TransactionLogV>) -> EntrySeq {
    remove_keys(apply_all_adds(s, rs), all_removed_paths(rs))
}

pub broadcast proof fn lemma_apply_adds_wf(s: EntrySeq, adds: Seq<FileAddV>)
    requires
        unique_keys(s),
    ensures
        unique_keys(#[trigger] apply_adds(s, adds)),
    decreases adds.len(),
{
    if adds.len() > 0 {
        lemma_apply_adds_wf(s, adds.drop_last());
        lemma_insert_entry(apply_adds(s, adds.drop_last()), adds.last());
    }
}

pub broadcast proof fn lemma_apply_all_adds_wf(s: EntrySeq, rs: Seq<TransactionLogV>)
    requires
        unique_keys(s),
    ensures
        unique_keys(#[trigger] apply_all_adds(s, rs)),
    decreases rs.len(),
{
    if rs.len() > 0 {
        lemma_apply_all_adds_wf(s, rs.drop_last());
        lemma_apply_adds_wf(apply_all_adds(s, rs.drop_last()), rs.last().adds);
    }
}

pub broadcast proof fn lemma_remove_keys_wf(s: EntrySeq, keys: Seq<Seq<char>>)
    requires
        unique_keys(s),
    ensures
        unique_keys(#[trigger] remove_keys(s, keys)),
    decreases keys.len(),
{
    if keys.len() > 0 {
        lemma_remove_keys_wf(s, keys.drop_last());
        lemma_remove_entry(remove_keys(s, keys.drop_last()), keys.last());
    }
}

/// After the deletion pass, no key of `keys` has an entry.
pub proof fn lemma_remove_keys_absent(s: EntrySeq, keys: Seq<Seq<char>>, p: Seq<char>)
    requires
        unique_keys(s),
        keys.contains(p),
    ensures
        !has_entry_key(remove_keys(s, keys), p),
    decreases keys.len(),
{
    lemma_remove_keys_wf(s, keys.drop_last());
    if keys.last() == p {
        lemma_remove_entry(remove_keys(s, keys.drop_last()), p);
    } else {
        let i = choose|i: int| 0 <= i < keys.len() && keys[i] == p;
        assert(keys.drop_last()[i] == p);
        lemma_remove_keys_absent(s, keys.drop_last(), p);
        lemma_remove_entry(remove_keys(s, keys.drop_last()), keys.last());
    }
}

/// Unconditional-remove law: a path removed in any processed file is
/// absent from the merged live-file map, whatever the baseline, whatever
/// the other files hold, and even if a later file adds the path again.
pub proof fn lemma_merge_removed_path_absent(
    s: EntrySeq,
    rs: Seq<TransactionLogV>,
    i: int,
    k: int,
)
    requires
        unique_keys(s),
        0 <= i < rs.len(),
        0 <= k < rs[i].removes.len(),
    ensures
        !has_entry_key(spec_merge(s, rs), rs[i].removes[k].path),
{
    let p = rs[i].removes[k].path;
    assert(all_removed_paths(rs).contains(p)) by {
        lemma_all_removed_paths_contains(rs, i, k);
    }
    lemma_apply_all_adds_wf(s, rs);
    lemma_remove_keys_absent(apply_all_adds(s, rs), all_removed_paths(rs), p);
}

proof fn lemma_all_removed_paths_contains(rs: Seq<TransactionLogV>, i: int, k: int)
    requires
        0 <= i < rs.len(),
        0 <= k < rs[i].removes.len(),
    ensures
        all_removed_paths(rs).contains(rs[i].removes[k].path),
    decreases rs.len(),
{
    let p = rs[i].removes[k].path;
    if i == rs.len() - 1 {
        let tail = rs.last().removes.map_values(|r: crate::action::FileRemoveV| r.path);
        assert(tail[k] == p);
        assert(all_removed_paths(rs)[all_removed_paths(rs.drop_last()).len() + k] == p);
    } else {
        lemma_all_removed_paths_contains(rs.drop_last(), i, k);
        assert(rs.drop_last()[i] == rs[i]);
        let pre = all_removed_paths(rs.drop_last());
        let w = choose|w: int| 0 <= w < pre.len() && pre[w] == p;
        assert(all_removed_paths(rs)[w] == p);
    }
}

/// The current live-file set: path to most-recent add record, unique key
/// the file path.
pub struct LiveFileMap {
    entries: Vec<(String, FileAdd)>,
}

impl LiveFileMap {
    /// The entries, in insertion order.
    pub closed spec fn entry_seq(self) -> EntrySeq {
        self.entries.deep_view()
    }

    /// Key uniqueness, established by every constructor and kept by every
    /// method.
    pub open spec fn wf(self) -> bool {
        unique_keys(self.entry_seq())
    }

    pub fn new() -> (r: LiveFileMap)
        ensures
            r.wf(),
            r.entry_seq() == Seq::<(Seq<char>, FileAddV)>::empty(),
    {
        let r = LiveFileMap { entries: Vec::new() };
        proof {
            assert(r.entry_seq() =~= Seq::<(Seq<char>, FileAddV)>::empty());
        }
        r
    }

    pub fn len(&self) -> (r: usize)
        ensures
            r == self.entry_seq().len(),
    {
        self.entries.len()
    }

    /// Borrow the entries for aggregation.
    pub fn entries(&self) -> (r: &Vec<(String, FileAdd)>)
        ensures
            r.deep_view() == self.entry_seq(),
    {
        &self.entries
    }

    pub fn contains(&self, path: &String) -> (r: bool)
        ensures
            r == has_entry_key(self.entry_seq(), path@),
    {
        let n = self.entries.len();
        for i in 0..n
            invariant
                n == self.entries.len(),
                forall|j: int| 0 <= j < i ==> self.entry_seq()[j].0 != path@,
        {
            if crate::json::str_eq(self.entries[i].0.as_str(), path.as_str()) {
                assert(self.entry_seq()[i as int].0 == path@);
                return true;
            }
        }
        false
    }

    /// Insert or overwrite keyed by `add.path`.
    pub fn insert(&mut self, add: FileAdd)
        requires
            old(self).wf(),
        ensures
            final(self).wf(),
            final(self).entry_seq() == insert_entry(old(self).entry_seq(), add.deep_view()),
    {
        proof {
            lemma_insert_entry(self.entry_seq(), add.deep_view());
        }
        let ghost s0 = self.entry_seq();
        let ghost av = add.deep_view();
        let n = self.entries.len();
        let key = add.path.clone();
        for i in 0..n
            invariant
                n == self.entries.len(),
                self.entry_seq() == s0,
                key@ == av.path,
                forall|j: int| 0 <= j < i ==> s0[j].0 != av.path,
        {
            if crate::json::str_eq(self.entries[i].0.as_str(), key.as_str()) {
                assert(s0[i as int].0 == av.path);
                assert(has_entry_key(s0, av.path));
                assert(entry_key_at(s0, av.path) == i as int) by {
                    let w = entry_key_at(s0, av.path);
                    assert(0 <= w < s0.len() && s0[w].0 == av.path);
                    if w < i {
                        assert(s0[w].0 != av.path);
                    }
                    if w > i as int {
                        assert(s0[i as int].0 == s0[w].0);
                    }
                }
                self.entries.set(i, (key, add));
                proof {
                    assert(self.entry_seq() =~= s0.update(i as int, (av.path, av)));
                }
                return ;
            }
        }
        assert(!has_entry_key(s0, av.path));
        self.entries.push((key, add));
        proof {
            assert(self.entry_seq() =~= s0.push((av.path, av)));
        }
    }

    /// Drop the entry for `path`, if any.
    pub fn remove(&mut self, path: &String)
        requires
            old(self).wf(),
        ensures
            final(self).wf(),
            final(self).entry_seq() == remove_entry(old(self).entry_seq(), path@),
    {
        proof {
            lemma_remove_entry(self.entry_seq(), path@);
        }
        let ghost s0 = self.entry_seq();
        let n = self.entries.len();
        for i in 0..n
            invariant
                n == self.entries.len(),
                self.entry_seq() == s0,
                forall|j: int| 0 <= j < i ==> s0[j].0 != path@,
        {
            if crate::json::str_eq(self.entries[i].0.as_str(), path.as_str()) {
                assert(s0[i as int].0 == path@);
                assert(has_entry_key(s0, path@));
                assert(entry_key_at(s0, path@) == i as int) by {
                    let w = entry_key_at(s0, path@);
                    assert(0 <= w < s0.len() && s0[w].0 == path@);
                    if w < i {
                        assert(s0[w].0 != path@);
                    }
                    if w > i as int {
                        assert(s0[i as int].0 == s0[w].0);
                    }
                }
                self.entries.remove(i);
                proof {
                    assert(self.entry_seq() =~= s0.remove(i as int));
                }
                return ;
            }
        }
        assert(!has_entry_key(s0, path@));
    }
}

/// Merge a run of parsed log files into the live-file map: every add of
/// every file inserts or overwrites keyed by path, in file order; then
/// every path removed anywhere is deleted, unconditionally.
pub fn apply_log_records(map: &mut LiveFileMap, records: Vec<TransactionLog>)
    requires
        old(map).wf(),
    ensures
        final(map).wf(),
        final(map).entry_seq() == spec_merge(old(map).entry_seq(), records.deep_view()),
{
    broadcast use lemma_deep_of, lemma_vec_deep_view;

    let ghost s0 = map.entry_seq();
    let ghost rsv = records.deep_view();
    let mut removed: Vec<String> = Vec::new();
    proof {
        assert(rsv == deep_of(records@));
        assert(rsv.subrange(0, 0) =~= Seq::<TransactionLogV>::empty());
        assert(deep_of(removed@) =~= Seq::<Seq<char>>::empty());
        assert(all_removed_paths(rsv.subrange(0, 0)) =~= Seq::<Seq<char>>::empty());
    }
    let n = records.len();
    let mut idx: usize = 0;
    let mut rest = records;
    while idx < n
        invariant
            map.wf(),
            n == rsv.len(),
            idx <= n,
            deep_of(rest@) =~= rsv.subrange(idx as int, n as int),
            map.entry_seq() == apply_all_adds(s0, rsv.subrange(0, idx as int)),
            deep_of(removed@) == all_removed_paths(rsv.subrange(0, idx as int)),
        decreases n - idx,
    {
        let ghost prev = rest@;
        let r = rest.remove(0);
        proof {
            prev.remove_ensures(0int);
            assert(deep_of(prev)[0] == prev[0].deep_view());
            assert(r.deep_view() == rsv[idx as int]);
            assert forall|j: int| 0 <= j < rest@.len() implies deep_of(rest@)[j] == rsv.subrange(
                idx as int + 1,
                n as int,
            )[j] by {
                assert(rest@[j] == prev[j + 1]);
                assert(deep_of(prev)[j + 1] == prev[j + 1].deep_view());
            }
            assert(deep_of(rest@) =~= rsv.subrange(idx as int + 1, n as int));
        }
        let ghost sm = map.entry_seq();
        let ghost adds_v = rsv[idx as int].adds;
        let mut a_i: usize = 0;
        let n_adds = r.adds.len();
        let mut adds = r.adds;
        proof {
            assert(deep_of(adds@) =~= adds_v);
            assert(adds_v.subrange(0, 0) =~= Seq::<FileAddV>::empty());
        }
        while a_i < n_adds
            invariant
                map.wf(),
                n_adds == adds_v.len(),
                a_i <= n_adds,
                deep_of(adds@) =~= adds_v.subrange(a_i as int, n_adds as int),
                map.entry_seq() == apply_adds(sm, adds_v.subrange(0, a_i as int)),
            decreases n_adds - a_i,
        {
            let ghost prev = adds@;
            let a = adds.remove(0);
            proof {
                prev.remove_ensures(0int);
                assert(deep_of(prev)[0] == prev[0].deep_view());
                assert(a.deep_view() == adds_v[a_i as int]);
                assert forall|j: int| 0 <= j < adds@.len() implies deep_of(adds@)[j]
                    == adds_v.subrange(a_i as int + 1, n_adds as int)[j] by {
                    assert(adds@[j] == prev[j + 1]);
                    assert(deep_of(prev)[j + 1] == prev[j + 1].deep_view());
                }
                assert(deep_of(adds@) =~= adds_v.subrange(a_i as int + 1, n_adds as int));
            }
            map.insert(a);
            proof {
                let pre = adds_v.subrange(0, a_i as int);
                let post = adds_v.subrange(0, a_i as int + 1);
                assert(post.drop_last() =~= pre);
                assert(post.last() == adds_v[a_i as int]);
            }
            a_i = a_i + 1;
        }
        proof {
            assert(adds_v.subrange(0, n_adds as int) =~= adds_v);
        }
        let ghost rem_v = rsv[idx as int].removes;
        let mut r_i: usize = 0;
        let n_rems = r.removes.len();
        let mut rems = r.removes;
        proof {
            assert(deep_of(rems@) =~= rem_v);
        }
        while r_i < n_rems
            invariant
                n_rems == rem_v.len(),
                r_i <= n_rems,
                deep_of(rems@) =~= rem_v.subrange(r_i as int, n_rems as int),
                deep_of(removed@) == all_removed_paths(rsv.subrange(0, idx as int))
                    + rem_v.subrange(0, r_i as int).map_values(
                    |x: crate::action::FileRemoveV| x.path,
                ),
            decreases n_rems - r_i,
        {
            let ghost prev = rems@;
            let rm = rems.remove(0);
            proof {
                prev.remove_ensures(0int);
                assert(deep_of(prev)[0] == prev[0].deep_view());
                assert(rm.deep_view() == rem_v[r_i as int]);
                assert forall|j: int| 0 <= j < rems@.len() implies deep_of(rems@)[j]
                    == rem_v.subrange(r_i as int + 1, n_rems as int)[j] by {
                    assert(rems@[j] == prev[j + 1]);
                    assert(deep_of(prev)[j + 1] == prev[j + 1].deep_view());
                }
                assert(deep_of(rems@) =~= rem_v.subrange(r_i as int + 1, n_rems as int));
            }
            let ghost prev_removed = removed@;
            let ghost pstr = rm.path;
            removed.push(rm.path);
            proof {
                assert(removed@ == prev_removed.push(pstr));
                let goal = all_removed_paths(rsv.subrange(0, idx as int)) + rem_v.subrange(
                    0,
                    r_i as int + 1,
                ).map_values(|x: crate::action::FileRemoveV| x.path);
                assert forall|j: int| 0 <= j < removed@.len() implies deep_of(removed@)[j]
                    == goal[j] by {
                    let pre_len = all_removed_paths(rsv.subrange(0, idx as int)).len() as int;
                    if j < prev_removed.len() {
                        assert(removed@[j] == prev_removed[j]);
                        assert(deep_of(prev_removed)[j] == prev_removed[j].deep_view());
                        if j >= pre_len {
                            assert(rem_v.subrange(0, r_i as int)[j - pre_len] == rem_v[j
                                - pre_len]);
                            assert(rem_v.subrange(0, r_i as int + 1)[j - pre_len] == rem_v[j
                                - pre_len]);
                        }
                    } else {
                        assert(removed@[j] == pstr);
                        assert(pstr@ == rem_v[r_i as int].path);
                    }
                }
                assert(deep_of(removed@) =~= goal);
            }
            r_i = r_i + 1;
        }
        proof {
            let pre = rsv.subrange(0, idx as int);
            let post = rsv.subrange(0, idx as int + 1);
            assert(post.drop_last() =~= pre);
            assert(post.last() == rsv[idx as int]);
            assert(rem_v.subrange(0, n_rems as int) =~= rem_v);
        }
        idx = idx + 1;
    }
    proof {
        assert(rsv.subrange(0, n as int) =~= rsv);
    }
    let ghost s_mid = map.entry_seq();
    let ghost keys = deep_of(removed@);
    let n_keys = removed.len();
    let mut k_i: usize = 0;
    let mut keys_vec = removed;
    proof {
        assert(deep_of(keys_vec@) =~= keys);
        assert(remove_keys(s_mid, keys.subrange(0, 0)) == s_mid) by {
            assert(keys.subrange(0, 0) =~= Seq::<Seq<char>>::empty());
        }
    }
    while k_i < n_keys
        invariant
            map.wf(),
            n_keys == keys.len(),
            k_i <= n_keys,
            deep_of(keys_vec@) =~= keys.subrange(k_i as int, n_keys as int),
            map.entry_seq() == remove_keys(s_mid, keys.subrange(0, k_i as int)),
        decreases n_keys - k_i,
    {
        let ghost prev = keys_vec@;
        let k = keys_vec.remove(0);
        proof {
            prev.remove_ensures(0int);
            assert(deep_of(prev)[0] == prev[0].deep_view());
            assert(k.deep_view() == keys[k_i as int]);
            assert forall|j: int| 0 <= j < keys_vec@.len() implies deep_of(keys_vec@)[j]
                == keys.subrange(k_i as int + 1, n_keys as int)[j] by {
                assert(keys_vec@[j] == prev[j + 1]);
                assert(deep_of(prev)[j + 1] == prev[j + 1].deep_view());
            }
            assert(deep_of(keys_vec@) =~= keys.subrange(k_i as int + 1, n_keys as int));
        }
        map.remove(&k);
        proof {
            let pre = keys.subrange(0, k_i as int);
            let post = keys.subrange(0, k_i as int + 1);
            assert(post.drop_last() =~= pre);
            assert(post.last() == keys[k_i as int]);
        }
        k_i = k_i + 1;
    }
    proof {
        assert(keys.subrange(0, n_keys as int) =~= keys);
    }
}

} // verus!
