//! Reachability over the parent-commit graph: the commits a project's
//! branch heads reach, each exactly once, by a depth-first traversal with
//! a visited set that guarantees termination on merge commits and shared
//! history.

use vstd::prelude::*;
use vstd::set_lib::lemma_len_subset;
use crate::objects::{Commit, CommitV};
use crate::sequences::{contains_u64, sorted_insert, strictly_increasing};
use crate::table::{tlookup, Table};

verus! {

broadcast use {vstd::set::group_set_axioms, vstd::seq_lib::seq_to_set_is_finite};

/// One parent edge: `b` is a recorded parent of `a`.  An id that the
/// commit table does not record has no outgoing edges.
pub open spec fn parent_step(ctv: Seq<(u64, CommitV)>, a: u64, b: u64) -> bool {
    match tlookup::<Commit>(ctv, a) {
        Some(cv) => cv.parents.contains(b),
        None => false,
    }
}

/// A chain of parent edges.
pub open spec fn is_parent_path(ctv: Seq<(u64, CommitV)>, p: Seq<u64>) -> bool {
    forall|i: int| 0 <= i < p.len() - 1 ==> #[trigger] parent_step(ctv, p[i], p[i + 1])
}

/// A commit is reachable from a set of roots when a chain of parent edges
/// leads from some root to it.  A root itself is reachable by the
/// one-element chain, whether or not the commit table records it: a parent
/// that has no commit record is kept, not followed.
pub open spec fn reachable_from(ctv: Seq<(u64, CommitV)>, roots: Seq<u64>, c: u64) -> bool {
    exists|p: Seq<u64>|
        p.len() > 0 && roots.contains(p[0]) && p.last() == c && is_parent_path(ctv, p)
}

/// Every id that occurs as a parent somewhere in the commit table.
pub open spec fn all_parents(ctv: Seq<(u64, CommitV)>) -> Set<u64>
    decreases ctv.len(),
{
    if ctv.len() == 0 {
        Set::empty()
    } else {
        all_parents(ctv.drop_last()).union(ctv.last().1.parents.to_set())
    }
}

pub proof fn lemma_all_parents(ctv: Seq<(u64, CommitV)>)
    ensures
        all_parents(ctv).finite(),
        forall|x: u64|
            all_parents(ctv).contains(x) <==> exists|i: int|
                0 <= i < ctv.len() && #[trigger] ctv[i].1.parents.contains(x),
    decreases ctv.len(),
{
    if ctv.len() > 0 {
        lemma_all_parents(ctv.drop_last());
        assert forall|x: u64| all_parents(ctv).contains(x) implies exists|i: int|
            0 <= i < ctv.len() && #[trigger] ctv[i].1.parents.contains(x) by {
            if all_parents(ctv.drop_last()).contains(x) {
                let i = choose|i: int|
                    0 <= i < ctv.drop_last().len() && #[trigger] ctv.drop_last()[i].1.parents.contains(
                        x,
                    );
                assert(ctv[i].1.parents.contains(x));
            } else {
                assert(ctv.last().1.parents.to_set().contains(x));
                assert(ctv[ctv.len() - 1].1.parents.contains(x));
            }
        }
        assert forall|x: u64|
            (exists|i: int| 0 <= i < ctv.len() && #[trigger] ctv[i].1.parents.contains(x)) implies
        all_parents(ctv).contains(x) by {
            let i = choose|i: int| 0 <= i < ctv.len() && #[trigger] ctv[i].1.parents.contains(x);
            if i < ctv.len() - 1 {
                assert(ctv.drop_last()[i].1.parents.contains(x));
            } else {
                assert(ctv.last().1.parents.to_set().contains(x));
            }
        }
    }
}

/// A looked-up value sits at some index of the table view.
pub proof fn lemma_tlookup_index(ctv: Seq<(u64, CommitV)>, k: u64)
    requires
        tlookup::<Commit>(ctv, k) is Some,
    ensures
        exists|i: int|
            0 <= i < ctv.len() && #[trigger] ctv[i] == (k, tlookup::<Commit>(ctv, k)->0),
    decreases ctv.len(),
{
    if ctv.len() > 0 {
        if ctv[0].0 == k {
            assert(ctv[0] == (k, tlookup::<Commit>(ctv, k)->0));
        } else {
            lemma_tlookup_index(ctv.skip(1), k);
            let i = choose|i: int|
                0 <= i < ctv.skip(1).len() && #[trigger] ctv.skip(1)[i] == (
                k,
                tlookup::<Commit>(ctv.skip(1), k)->0,
                );
            assert(ctv[i + 1] == (k, tlookup::<Commit>(ctv, k)->0));
        }
    }
}

/// A set of ids that holds the roots and is closed under the parent edges
/// of its members holds everything reachable from the roots.
pub proof fn lemma_closed_covers(
    ctv: Seq<(u64, CommitV)>,
    roots: Seq<u64>,
    vis: Seq<u64>,
    p: Seq<u64>,
)
    requires
        p.len() > 0,
        roots.contains(p[0]),
        is_parent_path(ctv, p),
        forall|j: int| 0 <= j < roots.len() ==> vis.contains(#[trigger] roots[j]),
        forall|v: u64| #[trigger]
            vis.contains(v) ==> match tlookup::<Commit>(ctv, v) {
                Some(cv) => forall|x: u64| cv.parents.contains(x) ==> vis.contains(x),
                None => true,
            },
    ensures
        vis.contains(p.last()),
    decreases p.len(),
{
    if p.len() == 1 {
        let j = choose|j: int| 0 <= j < roots.len() && roots[j] == p[0];
        assert(vis.contains(p[0]));
    } else {
        let q = p.drop_last();
        assert(q[0] == p[0]);
        assert(is_parent_path(ctv, q)) by {
            assert forall|i: int| 0 <= i < q.len() - 1 implies #[trigger] parent_step(ctv, q[i], q[i + 1]) by {
                assert(q[i] == p[i] && q[i + 1] == p[i + 1]);
            }
        }
        lemma_closed_covers(ctv, roots, vis, q);
        let a = p[p.len() - 2];
        assert(q.last() == a);
        assert(vis.contains(a));
        let i = p.len() - 2;
        assert(parent_step(ctv, p[i], p[i + 1]));
        assert(p[i + 1] == p.last());
        let cv = tlookup::<Commit>(ctv, a)->0;
        assert(cv.parents.contains(p.last()));
    }
}

/// The commits reachable from the given head commits, each exactly once,
/// sorted ascending.  Merge commits and shared history do not duplicate:
/// the visited set admits each commit a single time.  A parent id that has
/// no commit record is included but not expanded.
pub fn commits_from_heads(commits: &Table<Commit>, roots: &Vec<u64>) -> (r: Vec<u64>)
    ensures
        strictly_increasing(r@),
        forall|c: u64| r@.contains(c) <==> reachable_from(commits.tview(), roots@, c),
{
    let ghost ctv = commits.tview();
    let ghost uni = roots@.to_set().union(all_parents(ctv));
    proof {
        lemma_all_parents(ctv);
        assert(roots@.to_set().finite());
        assert(uni.finite());
    }
    let mut visited: Vec<u64> = Vec::new();
    let mut stack: Vec<u64> = Vec::new();
    let nroots = roots.len();
    let mut i: usize = 0;
    while i < nroots
        invariant
            nroots == roots@.len(),
            0 <= i <= nroots,
            stack@ == roots@.take(i as int),
        decreases nroots - i,
    {
        stack.push(roots[i]);
        proof {
            assert(stack@ =~= roots@.take(i + 1));
        }
        i = i + 1;
    }
    proof {
        assert(stack@ == roots@) by {
            assert(roots@.take(nroots as int) =~= roots@);
        }
        assert(visited@.to_set() =~= Set::<u64>::empty());
        assert forall|x: u64| #[trigger] stack@.contains(x) implies uni.contains(x)
            && reachable_from(ctv, roots@, x) by {
            assert(roots@.contains(x));
            lemma_root_reachable(ctv, roots@, x);
        }
    }
    while stack.len() > 0
        invariant
            strictly_increasing(visited@),
            uni.finite(),
            uni == roots@.to_set().union(all_parents(ctv)),
            ctv == commits.tview(),
            visited@.to_set().len() == visited@.len(),
            forall|x: u64| #[trigger]
                visited@.contains(x) ==> uni.contains(x) && reachable_from(ctv, roots@, x),
            forall|x: u64| #[trigger]
                stack@.contains(x) ==> uni.contains(x) && reachable_from(ctv, roots@, x),
            forall|j: int|
                0 <= j < roots@.len() ==> visited@.contains(#[trigger] roots@[j])
                    || stack@.contains(roots@[j]),
            forall|v: u64| #[trigger]
                visited@.contains(v) ==> match tlookup::<Commit>(ctv, v) {
                    Some(cv) => forall|x: u64|
                        cv.parents.contains(x) ==> visited@.contains(x) || stack@.contains(x),
                    None => true,
                },
        decreases uni.len() - visited@.len(), stack@.len(),
    {
        let ghost old_stack = stack@;
        let ghost old_visited = visited@;
        let c = match stack.pop() {
            Some(c) => c,
            None => vstd::pervasive::unreached(),
        };
        proof {
            assert(c == old_stack.last());
            assert(old_stack.contains(c)) by {
                assert(old_stack[old_stack.len() - 1] == c);
            }
            assert forall|x: u64| old_stack.contains(x) && x != c implies #[trigger] stack@.contains(
                x,
            ) by {
                let j = choose|j: int| 0 <= j < old_stack.len() && old_stack[j] == x;
                assert(j < old_stack.len() - 1);
                assert(stack@[j] == x);
            }
            assert forall|x: u64| #[trigger] stack@.contains(x) implies old_stack.contains(x) by {
                let j = choose|j: int| 0 <= j < stack@.len() && stack@[j] == x;
                assert(old_stack[j] == x);
            }
        }
        let seen = contains_u64(&visited, c);
        if !seen {
            sorted_insert(&mut visited, c);
            proof {
                assert(visited@.to_set().len() == visited@.len());
                assert(visited@.to_set() <= uni) by {
                    assert forall|x: u64| visited@.to_set().contains(x) implies uni.contains(
                        x,
                    ) by {
                        assert(visited@.contains(x));
                        assert(old_visited.contains(x) || x == c);
                    }
                }
                lemma_len_subset(visited@.to_set(), uni);
                assert(visited@.len() <= uni.len());
            }
            let found = commits.get(c);
            match found {
                Some(cm) => {
                    let ghost cv = cm.cv();
                    proof {
                        assert(tlookup::<Commit>(ctv, c) == Some(cv));
                        lemma_tlookup_index(ctv, c);
                    }
                    let parents: &Vec<crate::ids::CommitId> = cm.parent_ids();
                    let np = parents.len();
                    let mut pi: usize = 0;
                    while pi < np
                        invariant
                            np == parents@.len(),
                            0 <= pi <= np,
                            cv.parents == parents@.map(|l: int, p: crate::ids::CommitId| p.0),
                            reachable_from(ctv, roots@, c),
                            tlookup::<Commit>(ctv, c) == Some(cv),
                            uni == roots@.to_set().union(all_parents(ctv)),
                            ctv == commits.tview(),
                            exists|ii: int| 0 <= ii < ctv.len() && #[trigger] ctv[ii] == (c, cv),
                            forall|x: u64| #[trigger]
                                stack@.contains(x) ==> uni.contains(x) && reachable_from(
                                    ctv,
                                    roots@,
                                    x,
                                ),
                            forall|l: int|
                                0 <= l < pi ==> stack@.contains(#[trigger] parents@[l].0),
                            forall|x: u64| old_stack.contains(x) && x != c ==> stack@.contains(x),
                        decreases np - pi,
                    {
                        let ghost pre = stack@;
                        let p = parents[pi];
                        proof {
                            assert(cv.parents[pi as int] == p.0);
                            assert(cv.parents.contains(p.0));
                            lemma_all_parents(ctv);
                            let ii = choose|ii: int|
                                0 <= ii < ctv.len() && #[trigger] ctv[ii] == (c, cv);
                            assert(ctv[ii].1.parents.contains(p.0));
                            assert(all_parents(ctv).contains(p.0));
                            assert(uni.contains(p.0));
                            let q = choose|q: Seq<u64>|
                                q.len() > 0 && roots@.contains(q[0]) && q.last() == c
                                    && is_parent_path(ctv, q);
                            let q2 = q.push(p.0);
                            assert(q2[0] == q[0]);
                            assert(q2.last() == p.0);
                            assert(is_parent_path(ctv, q2)) by {
                                assert forall|l: int|
                                    0 <= l < q2.len() - 1 implies #[trigger] parent_step(
                                    ctv,
                                    q2[l],
                                    q2[l + 1],
                                ) by {
                                    if l < q.len() - 1 {
                                        assert(parent_step(ctv, q[l], q[l + 1]));
                                        assert(q2[l] == q[l] && q2[l + 1] == q[l + 1]);
                                    } else {
                                        assert(q2[l] == c && q2[l + 1] == p.0);
                                    }
                                }
                            }
                            assert(reachable_from(ctv, roots@, p.0));
                        }
                        stack.push(p.0);
                        proof {
                            assert(stack@ == pre.push(p.0));
                            assert forall|x: u64| #[trigger]
                                stack@.contains(x) implies uni.contains(x) && reachable_from(
                                ctv,
                                roots@,
                                x,
                            ) by {
                                let j = choose|j: int| 0 <= j < stack@.len() && stack@[j] == x;
                                if j < pre.len() {
                                    assert(pre[j] == x);
                                    assert(pre.contains(x));
                                } else {
                                    assert(x == p.0);
                                }
                            }
                            assert forall|l: int| 0 <= l < pi + 1 implies stack@.contains(
                                #[trigger] parents@[l].0,
                            ) by {
                                if l < pi {
                                    let j = choose|j: int|
                                        0 <= j < pre.len() && pre[j] == parents@[l].0;
                                    assert(stack@[j] == parents@[l].0);
                                } else {
                                    assert(stack@[stack@.len() - 1] == p.0);
                                }
                            }
                            assert forall|x: u64|
                                old_stack.contains(x) && x != c implies #[trigger] stack@.contains(
                                x,
                            ) by {
                                let j = choose|j: int| 0 <= j < pre.len() && pre[j] == x;
                                assert(stack@[j] == x);
                            }
                        }
                        pi = pi + 1;
                    }
                    proof {
                        lemma_reestablish_closure(
                            ctv,
                            roots@,
                            old_visited,
                            visited@,
                            old_stack,
                            stack@,
                            c,
                            cv,
                            parents@.map(|l: int, p: crate::ids::CommitId| p.0),
                        );
                        assert forall|j: int| 0 <= j < roots@.len() implies visited@.contains(
                            #[trigger] roots@[j],
                        ) || stack@.contains(roots@[j]) by {
                            if old_visited.contains(roots@[j]) {
                                assert(visited@.contains(roots@[j]));
                            } else if roots@[j] == c {
                                assert(visited@.contains(c));
                            } else {
                                assert(old_stack.contains(roots@[j]));
                                assert(stack@.contains(roots@[j]));
                            }
                        }
                    }
                },
                None => {
                    proof {
                        assert forall|v: u64| #[trigger]
                            visited@.contains(v) implies match tlookup::<Commit>(ctv, v) {
                            Some(cv) => forall|x: u64|
                                cv.parents.contains(x) ==> visited@.contains(x) || stack@.contains(
                                    x,
                                ),
                            None => true,
                        } by {
                            if v != c {
                                assert(old_visited.contains(v));
                                if tlookup::<Commit>(ctv, v) is Some {
                                    let cv2 = tlookup::<Commit>(ctv, v)->0;
                                    assert forall|x: u64| cv2.parents.contains(
                                        x,
                                    ) implies visited@.contains(x) || stack@.contains(x) by {
                                        assert(old_visited.contains(x) || old_stack.contains(x));
                                        if old_visited.contains(x) {
                                            assert(visited@.contains(x));
                                        } else if x != c {
                                            assert(stack@.contains(x));
                                        } else {
                                            assert(visited@.contains(c));
                                        }
                                    }
                                }
                            }
                        }
                        assert forall|j: int| 0 <= j < roots@.len() implies visited@.contains(
                            #[trigger] roots@[j],
                        ) || stack@.contains(roots@[j]) by {
                            if old_visited.contains(roots@[j]) {
                                assert(visited@.contains(roots@[j]));
                            } else if roots@[j] == c {
                                assert(visited@.contains(c));
                            } else {
                                assert(old_stack.contains(roots@[j]));
                                assert(stack@.contains(roots@[j]));
                            }
                        }
                    }
                },
            }
        } else {
            proof {
                assert forall|v: u64| #[trigger]
                    visited@.contains(v) implies match tlookup::<Commit>(ctv, v) {
                    Some(cv) => forall|x: u64|
                        cv.parents.contains(x) ==> visited@.contains(x) || stack@.contains(x),
                    None => true,
                } by {
                    if tlookup::<Commit>(ctv, v) is Some {
                        let cv2 = tlookup::<Commit>(ctv, v)->0;
                        assert forall|x: u64| cv2.parents.contains(x) implies visited@.contains(x)
                            || stack@.contains(x) by {
                            if old_stack.contains(x) && x != c {
                                assert(stack@.contains(x));
                            }
                        }
                    }
                }
                assert forall|j: int|
                    0 <= j < roots@.len() implies visited@.contains(#[trigger] roots@[j])
                    || stack@.contains(roots@[j]) by {
                    if old_stack.contains(roots@[j]) && roots@[j] != c {
                        assert(stack@.contains(roots@[j]));
                    }
                }
            }
        }
    }
    proof {
        assert forall|c: u64| reachable_from(ctv, roots@, c) implies visited@.contains(c) by {
            let p = choose|p: Seq<u64>|
                p.len() > 0 && roots@.contains(p[0]) && p.last() == c && is_parent_path(ctv, p);
            lemma_closed_covers(ctv, roots@, visited@, p);
        }
    }
    visited
}

/// Every root is reachable by its one-element chain.
pub proof fn lemma_root_reachable(ctv: Seq<(u64, CommitV)>, roots: Seq<u64>, x: u64)
    requires
        roots.contains(x),
    ensures
        reachable_from(ctv, roots, x),
{
    let p = seq![x];
    assert(p[0] == x && p.last() == x);
    assert(is_parent_path(ctv, p));
}

/// After expanding a newly visited commit, the closure invariant holds
/// again: every visited commit's parents sit in the visited set or on the
/// stack.
proof fn lemma_reestablish_closure(
    ctv: Seq<(u64, CommitV)>,
    roots: Seq<u64>,
    old_visited: Seq<u64>,
    visited: Seq<u64>,
    old_stack: Seq<u64>,
    stack: Seq<u64>,
    c: u64,
    cv: CommitV,
    parents: Seq<u64>,
)
    requires
        tlookup::<Commit>(ctv, c) == Some(cv),
        cv.parents == parents,
        forall|y: u64| visited.contains(y) <==> (old_visited.contains(y) || y == c),
        forall|l: int| 0 <= l < parents.len() ==> stack.contains(#[trigger] parents[l]),
        forall|x: u64| old_stack.contains(x) && x != c ==> stack.contains(x),
        forall|v: u64| #[trigger]
            old_visited.contains(v) ==> match tlookup::<Commit>(ctv, v) {
                Some(cv2) => forall|x: u64|
                    cv2.parents.contains(x) ==> old_visited.contains(x) || old_stack.contains(x),
                None => true,
            },
    ensures
        forall|v: u64| #[trigger]
            visited.contains(v) ==> match tlookup::<Commit>(ctv, v) {
                Some(cv2) => forall|x: u64|
                    cv2.parents.contains(x) ==> visited.contains(x) || stack.contains(x),
                None => true,
            },
{
    assert forall|v: u64| #[trigger] visited.contains(v) implies match tlookup::<Commit>(ctv, v) {
        Some(cv2) => forall|x: u64| cv2.parents.contains(x) ==> visited.contains(x)
            || stack.contains(x),
        None => true,
    } by {
        if v == c {
            assert forall|x: u64| cv.parents.contains(x) implies visited.contains(x)
                || stack.contains(x) by {
                let l = choose|l: int| 0 <= l < parents.len() && parents[l] == x;
            }
        } else {
            assert(old_visited.contains(v));
            if tlookup::<Commit>(ctv, v) is Some {
                let cv2 = tlookup::<Commit>(ctv, v)->0;
                assert forall|x: u64| cv2.parents.contains(x) implies visited.contains(x)
                    || stack.contains(x) by {
                    assert(old_visited.contains(x) || old_stack.contains(x));
                    if old_visited.contains(x) {
                        assert(visited.contains(x));
                    } else if x == c {
                        assert(visited.contains(c));
                    } else {
                        assert(stack.contains(x));
                    }
                }
            }
        }
    }
}

} // verus!
