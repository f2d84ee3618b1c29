//! The log locator: walks a directory tree for directories named exactly
//! as the transaction-log marker, optionally recursively, with an
//! optional result-count budget that bounds work for paginated listings.

use vstd::prelude::*;

use crate::fsmodel::{FsDir, FsDirV};

verus! {

/// The reserved name of a transaction-log directory.
pub open spec fn log_dir_marker() -> Seq<char> {
    seq!['_', 'd', 'e', 'l', 't', 'a', '_', 'l', 'o', 'g']
}

/// Is the budget already met?
pub open spec fn budget_spent(budget: Option<int>) -> bool {
    match budget {
        Some(b) => b <= 0,
        None => false,
    }
}

/// The budget left after taking `n` results.
pub open spec fn budget_minus(budget: Option<int>, n: int) -> Option<int> {
    match budget {
        Some(b) => Some(b - n),
        None => None,
    }
}

/// Every log directory under `d` (whose own path is `path`), in
/// traversal order, within the budget. A root that is itself the marker
/// directory is the whole result, whatever the recursion flag; otherwise
/// each marker child is collected, and other children are entered only
/// when `recursive` is set.
pub open spec fn spec_locate(
    path: Seq<char>,
    d: FsDirV,
    recursive: bool,
    budget: Option<int>,
) -> Seq<(Seq<char>, FsDirV)>
    decreases d, 1int,
{
    if budget_spent(budget) {
        Seq::empty()
    } else if d.name == log_dir_marker() {
        seq![(path, d)]
    } else {
        spec_locate_children(path, d.dirs, recursive, budget)
    }
}

/// Scan a run of child directories left to right, spending the budget.
pub open spec fn spec_locate_children(
    path: Seq<char>,
    dirs: Seq<FsDirV>,
    recursive: bool,
    budget: Option<int>,
) -> Seq<(Seq<char>, FsDirV)>
    decreases dirs, 0int,
{
    if budget_spent(budget) || dirs.len() == 0 {
        Seq::empty()
    } else {
        let child_path = path + seq!['/'] + dirs[0].name;
        let head = if dirs[0].name == log_dir_marker() {
            seq![(child_path, dirs[0])]
        } else if recursive {
            spec_locate_children(child_path, dirs[0].dirs, recursive, budget)
        } else {
            Seq::empty()
        };
        head + spec_locate_children(
            path,
            dirs.drop_first(),
            recursive,
            budget_minus(budget, head.len() as int),
        )
    }
}

/// The locator never exceeds its budget.
pub proof fn lemma_locate_budget(path: Seq<char>, d: FsDirV, recursive: bool, b: int)
    ensures
        spec_locate(path, d, recursive, Some(b)).len() <= vstd::math::max(b, 0),
    decreases d, 1int,
{
    if b <= 0 {
    } else if d.name == log_dir_marker() {
    } else {
        lemma_locate_children_budget(path, d.dirs, recursive, b);
    }
}

pub proof fn lemma_locate_children_budget(
    path: Seq<char>,
    dirs: Seq<FsDirV>,
    recursive: bool,
    b: int,
)
    ensures
        spec_locate_children(path, dirs, recursive, Some(b)).len() <= vstd::math::max(b, 0),
    decreases dirs, 0int,
{
    if b <= 0 || dirs.len() == 0 {
    } else {
        let child_path = path + seq!['/'] + dirs[0].name;
        let head = if dirs[0].name == log_dir_marker() {
            seq![(child_path, dirs[0])]
        } else if recursive {
            spec_locate_children(child_path, dirs[0].dirs, recursive, Some(b))
        } else {
            Seq::<(Seq<char>, FsDirV)>::empty()
        };
        if dirs[0].name != log_dir_marker() && recursive {
            lemma_locate_children_budget(child_path, dirs[0].dirs, recursive, b);
        }
        lemma_locate_children_budget(
            path,
            dirs.drop_first(),
            recursive,
            b - head.len() as int,
        );
    }
}

/// A root that is itself the marker directory is the whole result,
/// whatever the recursion flag, as long as any budget admits one entry.
pub proof fn lemma_locate_root_marker(
    path: Seq<char>,
    d: FsDirV,
    recursive: bool,
    budget: Option<int>,
)
    requires
        d.name == log_dir_marker(),
        !budget_spent(budget),
    ensures
        spec_locate(path, d, recursive, budget) == seq![(path, d)],
{
}

/// The ghost value of an executable budget.
pub open spec fn budget_model(budget: Option<u128>) -> Option<int> {
    match budget {
        Some(b) => Some(b as int),
        None => None,
    }
}

/// The marker name as text.
fn marker_str() -> (r: &'static str)
    ensures
        r@ =~= log_dir_marker(),
{
    proof {
        reveal_strlit("_delta_log");
    }
    "_delta_log"
}

/// Join a directory path and a child name.
fn join_path(path: &str, name: &str) -> (r: String)
    ensures
        r@ == path@ + seq!['/'] + name@,
{
    let mut p = String::new();
    p.append(path);
    p.append("/");
    p.append(name);
    proof {
        reveal_strlit("/");
        assert("/"@ =~= seq!['/']);
        assert(p@ =~= path@ + seq!['/'] + name@);
    }
    p
}

/// Find every log directory under `dir`, whose own path is `path`. With
/// `recursive` unset only the root and its immediate children are
/// considered; the budget, if given, caps the number of results across
/// the whole walk.
pub fn find_log_dirs<'a>(path: &str, dir: &'a FsDir, recursive: bool, budget: Option<u128>) -> (r:
    Vec<(String, &'a FsDir)>)
    ensures
        crate::state::deep_of(r@) == spec_locate(
            path@,
            dir.deep_view(),
            recursive,
            budget_model(budget),
        ),
    decreases dir,
{
    broadcast use crate::state::lemma_deep_of, crate::state::lemma_vec_deep_view, crate::fsmodel::lemma_fs_dir_seq_model;

    let mut r: Vec<(String, &'a FsDir)> = Vec::new();
    if let Some(b) = budget {
        if b == 0 {
            proof {
                assert(crate::state::deep_of(r@) =~= spec_locate(
                    path@,
                    dir.deep_view(),
                    recursive,
                    budget_model(budget),
                ));
            }
            return r;
        }
    }
    if crate::json::str_eq(dir.name.as_str(), marker_str()) {
        let owned = path.to_owned();
        r.push((owned, dir));
        proof {
            assert(crate::state::deep_of(r@) =~= seq![(path@, dir.deep_view())]);
        }
        return r;
    }
    let ghost dv = dir.deep_view();
    let ghost dirs_v = dv.dirs;
    proof {
        assert(dirs_v =~= crate::fsmodel::fs_dir_seq_model(dir.dirs@));
        assert(crate::state::deep_of(r@) =~= Seq::<(Seq<char>, FsDirV)>::empty());
        assert(dirs_v.skip(0) =~= dirs_v);
    }
    let n = dir.dirs.len();
    let mut rem: Option<u128> = budget;
    for i in 0..n
        invariant
            n == dir.dirs.len(),
            dirs_v == crate::fsmodel::fs_dir_seq_model(dir.dirs@),
            dirs_v.len() == n,
            spec_locate_children(path@, dirs_v, recursive, budget_model(budget))
                == crate::state::deep_of(r@) + spec_locate_children(
                path@,
                dirs_v.skip(i as int),
                recursive,
                budget_model(rem),
            ),
            rem is Some <==> budget is Some,
    {
        if let Some(b) = rem {
            if b == 0 {
                proof {
                    assert(spec_locate_children(
                        path@,
                        dirs_v.skip(i as int),
                        recursive,
                        budget_model(rem),
                    ) =~= Seq::<(Seq<char>, FsDirV)>::empty());
                    assert(crate::state::deep_of(r@) + Seq::<(Seq<char>, FsDirV)>::empty()
                        =~= crate::state::deep_of(r@));
                }
                return r;
            }
        }
        let child = &dir.dirs[i];
        let ghost cv = dirs_v[i as int];
        proof {
            assert(cv == child.deep_view());
        }
        let child_path = join_path(path, child.name.as_str());
        let ghost head = if cv.name == log_dir_marker() {
            seq![(child_path@, cv)]
        } else if recursive {
            spec_locate_children(child_path@, cv.dirs, recursive, budget_model(rem))
        } else {
            Seq::<(Seq<char>, FsDirV)>::empty()
        };
        let ghost r_pre = crate::state::deep_of(r@);
        let len_before = r.len();
        if crate::json::str_eq(child.name.as_str(), marker_str()) {
            r.push((child_path, child));
            proof {
                assert(crate::state::deep_of(r@) =~= r_pre + head);
            }
        } else if recursive {
            proof {
                assert(decreases_to!(*dir => dir.dirs));
                assert(decreases_to!(dir.dirs => dir.dirs@));
                assert(decreases_to!(dir.dirs@ => dir.dirs@[i as int]));
            }
            let sub = find_log_dirs(child_path.as_str(), child, recursive, rem);
            proof {
                assert(crate::state::deep_of(sub@) == head) by {
                    assert(!budget_spent(budget_model(rem)));
                    assert(cv.name != log_dir_marker());
                    assert(spec_locate(child_path@, cv, recursive, budget_model(rem))
                        == spec_locate_children(child_path@, cv.dirs, recursive, budget_model(rem)));
                }
            }
            let ghost sub_v = crate::state::deep_of(sub@);
            let k = sub.len();
            let mut t: usize = 0;
            let mut sub_rest = sub;
            proof {
                assert(crate::state::deep_of(sub_rest@) =~= sub_v.skip(0));
                assert(crate::state::deep_of(r@) =~= r_pre + sub_v.take(0));
            }
            while t < k
                invariant
                    k == sub_v.len(),
                    t <= k,
                    crate::state::deep_of(sub_rest@) =~= sub_v.skip(t as int),
                    crate::state::deep_of(r@) =~= r_pre + sub_v.take(t as int),
                    r@.len() == len_before + t,
                decreases k - t,
            {
                let ghost prev = sub_rest@;
                let item = sub_rest.remove(0);
                proof {
                    prev.remove_ensures(0int);
                    assert(crate::state::deep_of(prev)[0] == prev[0].deep_view());
                    assert(item.deep_view() == sub_v[t as int]);
                    assert forall|j: int| 0 <= j < sub_rest@.len() implies crate::state::deep_of(
                        sub_rest@,
                    )[j] == sub_v.skip(t as int + 1)[j] by {
                        assert(sub_rest@[j] == prev[j + 1]);
                        assert(crate::state::deep_of(prev)[j + 1] == prev[j + 1].deep_view());
                    }
                    assert(crate::state::deep_of(sub_rest@) =~= sub_v.skip(t as int + 1));
                }
                let ghost r_now = crate::state::deep_of(r@);
                let ghost iv = item.deep_view();
                r.push(item);
                proof {
                    assert(crate::state::deep_of(r@) =~= r_now.push(iv));
                    assert(r_now.push(iv) =~= r_pre + sub_v.take(t as int + 1));
                }
                t = t + 1;
            }
            proof {
                assert(sub_v.take(k as int) =~= sub_v);
                assert(crate::state::deep_of(r@) =~= r_pre + head);
            }
        } else {
            proof {
                assert(crate::state::deep_of(r@) =~= r_pre + head);
            }
        }
        let added = r.len() - len_before;
        proof {
            assert(crate::state::deep_of(r@).len() == r@.len());
            assert(r_pre.len() == len_before);
            assert(added == head.len());
            if rem is Some {
                assert(head.len() <= rem->0) by {
                    if cv.name != log_dir_marker() && recursive {
                        lemma_locate_children_budget(
                            child_path@,
                            cv.dirs,
                            recursive,
                            rem->0 as int,
                        );
                    }
                }
            }
            assert(dirs_v.skip(i as int)[0] == dirs_v[i as int]);
            assert(dirs_v.skip(i as int).drop_first() =~= dirs_v.skip(i as int + 1));
            assert(spec_locate_children(path@, dirs_v.skip(i as int), recursive, budget_model(rem))
                == head + spec_locate_children(
                path@,
                dirs_v.skip(i as int + 1),
                recursive,
                budget_minus(budget_model(rem), head.len() as int),
            ));
        }
        rem = match rem {
            Some(b) => Some(b - added as u128),
            None => None,
        };
    }
    proof {
        assert(dirs_v.skip(n as int).len() == 0);
        assert(spec_locate_children(
            path@,
            dirs_v.skip(n as int),
            recursive,
            budget_model(rem),
        ) =~= Seq::<(Seq<char>, FsDirV)>::empty());
        assert(crate::state::deep_of(r@) + Seq::<(Seq<char>, FsDirV)>::empty() =~= crate::state::deep_of(r@));
    }
    r
}

} // verus!
