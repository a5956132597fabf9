//! Flat dumps of the loaded dataset: the row builders that turn relations
//! into delimited text lines.  Writing the lines to files is the caller's
//! business.

use vstd::prelude::*;
use crate::data::Database;
use crate::export::{pair_line, render_pairs};
use crate::ids::ProjectId;
use crate::table::tlookup;

verus! {

/// The project-to-commit rows of a project list: each project's reachable
/// commits, with a project repeated in the input contributing only once.
pub open spec fn pcm_rows(
    pctv: Seq<(u64, Seq<u64>)>,
    pids: Seq<u64>,
) -> Seq<(u64, u64)>
    decreases pids.len(),
{
    if pids.len() == 0 {
        Seq::empty()
    } else {
        let rest = pcm_rows(pctv, pids.drop_last());
        if pids.drop_last().contains(pids.last()) {
            rest
        } else {
            match tlookup::<Vec<u64>>(pctv, pids.last()) {
                Some(cids) => rest + cids.map(|i: int, c: u64| (pids.last(), c)),
                None => rest,
            }
        }
    }
}

/// The project-to-commit map table of the given projects, as delimited
/// lines under a header row.
pub fn dump_project_commit_map(db: &mut Database, pids: &Vec<u64>) -> (r: Vec<String>)
    requires
        old(db).wf(),
    ensures
        final(db).wf(),
        final(db).src() == old(db).src(),
        final(db).dcfg() == old(db).dcfg(),
        r@.len() == pcm_rows(
            crate::data::eff_project_commits(old(db).dcfg(), old(db).src()),
            pids@,
        ).len() + 1,
        r@[0]@ == "project_id,commit_id"@,
        forall|i: int|
            0 <= i < r@.len() - 1 ==> (#[trigger] r@[i + 1])@ == pair_line(
                pcm_rows(crate::data::eff_project_commits(old(db).dcfg(), old(db).src()), pids@)[i],
            ),
    {
    let ghost cfg = db.dcfg();
    let ghost src = db.src();
    let ghost pctv = crate::data::eff_project_commits(cfg, src);
    let mut rows: Vec<(u64, u64)> = Vec::new();
    let n = pids.len();
    let mut i: usize = 0;
    proof {
        assert(rows@ =~= pcm_rows(pctv, pids@.take(0)));
    }
    while i < n
        invariant
            old(db).wf(),
            db.wf(),
            db.src() == src,
            db.dcfg() == cfg,
            pctv == crate::data::eff_project_commits(cfg, src),
            n == pids@.len(),
            0 <= i <= n,
            rows@ == pcm_rows(pctv, pids@.take(i as int)),
        decreases n - i,
    {
        proof {
            assert(pids@.take(i + 1).drop_last() =~= pids@.take(i as int));
            assert(pids@.take(i + 1).last() == pids@[i as int]);
        }
        let seen = crate::sequences::contains_prefix(pids, i, pids[i]);
        if !seen {
            match db.project_commit_ids(ProjectId(pids[i])) {
                Some(cids) => {
                    let ghost pre = rows@;
                    let m = cids.len();
                    let mut j: usize = 0;
                    while j < m
                        invariant
                            m == cids@.len(),
                            n == pids@.len(),
                            0 <= i < n,
                            0 <= j <= m,
                            rows@ == pre + cids@.map(|l: int, c: u64| (pids@[i as int], c)).take(
                                j as int,
                            ),
                        decreases m - j,
                    {
                        rows.push((pids[i], cids[j]));
                        proof {
                            assert(rows@ =~= pre + cids@.map(
                                |l: int, c: u64| (pids@[i as int], c),
                            ).take(j + 1));
                        }
                        j = j + 1;
                    }
                    proof {
                        assert(cids@.map(|l: int, c: u64| (pids@[i as int], c)).take(m as int)
                            =~= cids@.map(|l: int, c: u64| (pids@[i as int], c)));
                        assert(rows@ =~= pcm_rows(pctv, pids@.take(i + 1)));
                    }
                },
                None => {
                    proof {
                        assert(rows@ =~= pcm_rows(pctv, pids@.take(i + 1)));
                    }
                },
            }
        } else {
            proof {
                assert(rows@ =~= pcm_rows(pctv, pids@.take(i + 1)));
            }
        }
        i = i + 1;
    }
    proof {
        assert(pids@.take(n as int) =~= pids@);
    }
    render_pairs("project_id,commit_id", &rows)
}

} // verus!
