//! Canned selection pipelines over whole project collections.

use vstd::prelude::*;
use crate::data::{eff_project_urls, meta_lookup, tkeys, DataCfg, Database};
use crate::ids::ProjectId;
use crate::source::Source;
use crate::table::twf;

verus! {

/// The metadata language of one project: absent when the project has no
/// metadata record or the record names no language.
pub open spec fn lang_of(src: Source, k: u64) -> Option<Seq<char>> {
    match meta_lookup(src.project_metadata@, k) {
        Some(m) => match m.language {
            Some(s) => Some(s@),
            None => None,
        },
        None => None,
    }
}

/// A project's ordering rank by star count: starless projects rank below
/// every starred one.
pub open spec fn rank_of(src: Source, k: u64) -> int {
    match meta_lookup(src.project_metadata@, k) {
        Some(m) => match m.star_count {
            Some(s) => s as int,
            None => -1,
        },
        None => -1,
    }
}

/// The distinct languages of a project list, in order of first appearance.
pub open spec fn langs_of(src: Source, ks: Seq<u64>) -> Seq<Option<Seq<char>>>
    decreases ks.len(),
{
    if ks.len() == 0 {
        Seq::empty()
    } else {
        let rest = langs_of(src, ks.drop_last());
        if rest.contains(lang_of(src, ks.last())) {
            rest
        } else {
            rest.push(lang_of(src, ks.last()))
        }
    }
}

/// The projects of a list that carry one language, in list order.
pub open spec fn group_of(src: Source, ks: Seq<u64>, lang: Option<Seq<char>>) -> Seq<u64>
    decreases ks.len(),
{
    if ks.len() == 0 {
        Seq::empty()
    } else {
        let rest = group_of(src, ks.drop_last(), lang);
        if lang_of(src, ks.last()) == lang {
            rest.push(ks.last())
        } else {
            rest
        }
    }
}

/// The segments of a grouped result, flattened in group order.
pub open spec fn concat_all(segs: Seq<Seq<u64>>) -> Seq<u64>
    decreases segs.len(),
{
    if segs.len() == 0 {
        Seq::empty()
    } else {
        concat_all(segs.drop_last()) + segs.last()
    }
}

/// One group's contribution: the first min(n, |group|) of its projects
/// ordered by descending star rank — every kept id is of the group, none
/// repeats, ranks never increase along the segment, and no project left
/// out ranks above a kept one.
pub open spec fn is_top_segment(src: Source, group: Seq<u64>, n: usize, seg: Seq<u64>) -> bool {
    &&& seg.len() == if group.len() < n {
        group.len() as int
    } else {
        n as int
    }
    &&& seg.no_duplicates()
    &&& (forall|i: int| 0 <= i < seg.len() ==> group.contains(#[trigger] seg[i]))
    &&& (forall|i: int, j: int|
        0 <= i <= j < seg.len() ==> rank_of(src, seg[i]) >= rank_of(src, seg[j]))
    &&& (forall|x: u64|
        group.contains(x) && !seg.contains(x) ==> (forall|i: int|
            0 <= i < seg.len() ==> rank_of(src, x) <= rank_of(src, #[trigger] seg[i])))
}

/// A group never repeats a project of a duplicate-free list, and holds
/// only that list's projects of its own language.
pub proof fn lemma_group_of_props(src: Source, ks: Seq<u64>, lang: Option<Seq<char>>)
    requires
        ks.no_duplicates(),
    ensures
        group_of(src, ks, lang).no_duplicates(),
        forall|x: u64|
            group_of(src, ks, lang).contains(x) <==> (ks.contains(x) && lang_of(src, x) == lang),
    decreases ks.len(),
{
    if ks.len() > 0 {
        let p = ks.drop_last();
        assert(p.no_duplicates()) by {
            assert(forall|l: int| 0 <= l < p.len() ==> p[l] == ks[l]);
        }
        lemma_group_of_props(src, p, lang);
        let rest = group_of(src, p, lang);
        let g = group_of(src, ks, lang);
        assert forall|x: u64| g.contains(x) implies (ks.contains(x) && lang_of(src, x)
            == lang) by {
            let w = choose|w: int| 0 <= w < g.len() && g[w] == x;
            if w < rest.len() {
                assert(rest.contains(x)) by {
                    assert(rest[w] == x);
                }
                let l = choose|l: int| 0 <= l < p.len() && p[l] == x;
                assert(ks[l] == x);
            } else {
                assert(x == ks.last());
                assert(ks[ks.len() - 1] == x);
            }
        }
        assert forall|x: u64| ks.contains(x) && lang_of(src, x) == lang implies g.contains(
            x,
        ) by {
            let l = choose|l: int| 0 <= l < ks.len() && ks[l] == x;
            if l < ks.len() - 1 {
                assert(p[l] == x);
                assert(p.contains(x));
                assert(rest.contains(x));
                let w = choose|w: int| 0 <= w < rest.len() && rest[w] == x;
                assert(g[w] == x);
            } else {
                assert(x == ks.last());
                if lang_of(src, ks.last()) == lang {
                    assert(g[g.len() - 1] == x);
                } else {
                    assert(false);
                }
            }
        }
        if lang_of(src, ks.last()) == lang {
            assert(!rest.contains(ks.last())) by {
                if rest.contains(ks.last()) {
                    assert(p.contains(ks.last()));
                    let l = choose|l: int| 0 <= l < p.len() && p[l] == ks.last();
                    assert(ks[l] == ks[ks.len() - 1]);
                }
            }
            assert forall|i: int, j: int|
                0 <= i < g.len() && 0 <= j < g.len() && i != j implies g[i] != g[j] by {
                if i < rest.len() && j < rest.len() {
                    assert(rest[i] == g[i] && rest[j] == g[j]);
                } else if i < rest.len() {
                    if g[i] == ks.last() {
                        assert(rest.contains(ks.last())) by {
                            assert(rest[i] == ks.last());
                        }
                    }
                } else if j < rest.len() {
                    if g[j] == ks.last() {
                        assert(rest.contains(ks.last())) by {
                            assert(rest[j] == ks.last());
                        }
                    }
                }
            }
        }
    }
}

/// Two duplicate-free lists with the same members have the same length.
pub proof fn lemma_same_members_same_len(a: Seq<u64>, b: Seq<u64>)
    requires
        a.no_duplicates(),
        b.no_duplicates(),
        forall|x: u64| a.contains(x) <==> b.contains(x),
    ensures
        a.len() == b.len(),
{
    broadcast use vstd::set::group_set_axioms;
    broadcast use vstd::seq_lib::seq_to_set_is_finite;

    a.unique_seq_to_set();
    b.unique_seq_to_set();
    assert(a.to_set() =~= b.to_set());
}

/// The effective project-url table has strictly increasing keys, whichever
/// way it was obtained.
pub proof fn lemma_eff_urls_keys_distinct(cfg: DataCfg, src: Source)
    requires
        src.wf(),
    ensures
        tkeys(eff_project_urls(cfg, src)).no_duplicates(),
{
    let tv = eff_project_urls(cfg, src);
    match cfg.project_urls {
        Some(w) => {
            match crate::table::spec_decode::<String>(w) {
                Some(t) => {
                    assert(exists|t2: Seq<(u64, Seq<char>)>|
                        twf::<String>(t2) && crate::table::tenc::<String>(t2) == w);
                    let t2 = choose|t2: Seq<(u64, Seq<char>)>|
                        twf::<String>(t2) && crate::table::tenc::<String>(t2) == w;
                    assert(twf::<String>(t2));
                    assert(tv == t);
                    assert(t == t2);
                    assert(forall|i: int, j: int| 0 <= i < j < tv.len() ==> tv[i].0 < tv[j].0);
                },
                None => {
                    assert(tv == crate::extract::urls_view(src));
                    assert forall|i: int, j: int| 0 <= i < j < tv.len() implies tv[i].0
                        < tv[j].0 by {
                        assert(tv[i].0 == crate::source::keys_of(src.project_urls@)[i]);
                        assert(tv[j].0 == crate::source::keys_of(src.project_urls@)[j]);
                        assert(crate::source::keys_of(src.project_urls@)[i]
                            < crate::source::keys_of(src.project_urls@)[j]);
                    }
                },
            }
        },
        None => {
            assert(tv == crate::extract::urls_view(src));
            assert forall|i: int, j: int| 0 <= i < j < tv.len() implies tv[i].0 < tv[j].0 by {
                assert(tv[i].0 == crate::source::keys_of(src.project_urls@)[i]);
                assert(tv[j].0 == crate::source::keys_of(src.project_urls@)[j]);
                assert(crate::source::keys_of(src.project_urls@)[i] < crate::source::keys_of(
                    src.project_urls@,
                )[j]);
            }
        },
    }
    assert(forall|i: int, j: int| 0 <= i < j < tv.len() ==> tv[i].0 < tv[j].0);
    assert forall|i: int, j: int|
        0 <= i < tkeys(tv).len() && 0 <= j < tkeys(tv).len() && i != j implies tkeys(tv)[i]
        != tkeys(tv)[j] by {
        assert(tkeys(tv)[i] == tv[i].0 && tkeys(tv)[j] == tv[j].0);
    }
}

/// Group every project by its metadata language, order each group by
/// descending star count with starless projects last, and keep the first
/// min(top_n, group size) of each group, group by group in order of the
/// languages' first appearance.
pub fn group_by_language_order_by_stars_top_n(db: &mut Database, top_n: usize) -> (r: Vec<u64>)
    requires
        old(db).wf(),
    ensures
        final(db).wf(),
        final(db).src() == old(db).src(),
        final(db).dcfg() == old(db).dcfg(),
        exists|segs: Seq<Seq<u64>>|
            #![trigger segs.len()]
            {
                let keys = tkeys(eff_project_urls(old(db).dcfg(), old(db).src()));
                let langs = langs_of(old(db).src(), keys);
                &&& segs.len() == langs.len()
                &&& (forall|l: int|
                    0 <= l < langs.len() ==> is_top_segment(
                        old(db).src(),
                        group_of(old(db).src(), keys, #[trigger] langs[l]),
                        top_n,
                        segs[l],
                    ))
                &&& r@ == concat_all(segs)
            },
{
    let ghost cfg = db.dcfg();
    let ghost srcv = db.src();
    let ghost keys = tkeys(eff_project_urls(cfg, srcv));
    let ids = db.all_project_ids();
    let n = ids.len();
    proof {
        old(db).lemma_wf_source();
        lemma_eff_urls_keys_distinct(cfg, srcv);
    }
    // the distinct languages, in order of first appearance
    let mut langs: Vec<Option<String>> = Vec::new();
    let ghost mut lseq: Seq<Option<Seq<char>>> = Seq::empty();
    let mut i: usize = 0;
    proof {
        assert(lseq =~= langs_of(srcv, keys.take(0)));
    }
    while i < n
        invariant
            old(db).wf(),
            db.wf(),
            db.src() == srcv,
            db.dcfg() == cfg,
            n == ids@.len(),
            ids@ == keys,
            0 <= i <= n,
            lseq == langs_of(srcv, keys.take(i as int)),
            langs@.len() == lseq.len(),
            forall|j: int| 0 <= j < lseq.len() ==> opt_view(#[trigger] langs@[j]) == lseq[j],
        decreases n - i,
    {
        proof {
            assert(keys.take(i + 1).drop_last() =~= keys.take(i as int));
            assert(keys.take(i + 1).last() == keys[i as int]);
        }
        let l = db.project_language(ProjectId(ids[i]));
        let ghost lv = lang_of(srcv, keys[i as int]);
        proof {
            assert(opt_view(l) == lv);
        }
        let mut seen = false;
        let m = langs.len();
        let mut j: usize = 0;
        while j < m
            invariant
                0 <= j <= m,
                m == langs@.len(),
                m == lseq.len(),
                opt_view(l) == lv,
                forall|w: int| 0 <= w < lseq.len() ==> opt_view(#[trigger] langs@[w]) == lseq[w],
                seen <==> exists|w: int| 0 <= w < j && lseq[w] == lv,
            decreases m - j,
        {
            if !seen && opt_string_eq(&langs[j], &l) {
                seen = true;
                proof {
                    assert(lseq[j as int] == lv);
                }
            }
            j = j + 1;
        }
        proof {
            if seen {
                let w = choose|w: int| 0 <= w < lseq.len() && lseq[w] == lv;
                assert(lseq.contains(lv));
            }
            if lseq.contains(lv) {
                let w = choose|w: int| 0 <= w < lseq.len() && lseq[w] == lv;
            }
        }
        if !seen {
            langs.push(l);
            proof {
                lseq = lseq.push(lv);
            }
        }
        i = i + 1;
    }
    proof {
        assert(keys.take(n as int) =~= keys);
    }
    // per language: collect the group, order it, keep the segment
    let ghost all_langs = langs_of(srcv, keys);
    let mut out: Vec<u64> = Vec::new();
    let ghost mut segs: Seq<Seq<u64>> = Seq::empty();
    let nl = langs.len();
    let mut li: usize = 0;
    proof {
        assert(out@ =~= concat_all(segs));
    }
    while li < nl
        invariant
            old(db).wf(),
            db.wf(),
            db.src() == srcv,
            db.dcfg() == cfg,
            nl == langs@.len(),
            nl == all_langs.len(),
            0 <= li <= nl,
            n == ids@.len(),
            ids@ == keys,
            keys.no_duplicates(),
            forall|j: int| 0 <= j < all_langs.len() ==> opt_view(#[trigger] langs@[j]) == all_langs[j],
            segs.len() == li,
            forall|l: int|
                0 <= l < li ==> is_top_segment(
                    srcv,
                    group_of(srcv, keys, #[trigger] all_langs[l]),
                    top_n,
                    segs[l],
                ),
            out@ == concat_all(segs),
        decreases nl - li,
    {
        let ghost langv = all_langs[li as int];
        let mut group: Vec<u64> = Vec::new();
        let mut gi: usize = 0;
        proof {
            assert(group@ =~= group_of(srcv, keys.take(0), langv));
        }
        while gi < n
            invariant
                old(db).wf(),
                db.wf(),
                db.src() == srcv,
                db.dcfg() == cfg,
                nl == langs@.len(),
                li < nl,
                nl == all_langs.len(),
                langv == all_langs[li as int],
                opt_view(langs@[li as int]) == langv,
                n == ids@.len(),
                ids@ == keys,
                0 <= gi <= n,
                group@ == group_of(srcv, keys.take(gi as int), langv),
            decreases n - gi,
        {
            proof {
                assert(keys.take(gi + 1).drop_last() =~= keys.take(gi as int));
                assert(keys.take(gi + 1).last() == keys[gi as int]);
            }
            let l = db.project_language(ProjectId(ids[gi]));
            proof {
                assert(opt_view(l) == lang_of(srcv, keys[gi as int]));
            }
            if opt_string_eq(&langs[li], &l) {
                group.push(ids[gi]);
                proof {
                    assert(group@ =~= group_of(srcv, keys.take(gi + 1), langv));
                }
            } else {
                proof {
                    assert(group@ =~= group_of(srcv, keys.take(gi + 1), langv));
                }
            }
            gi = gi + 1;
        }
        let ghost group0 = group_of(srcv, keys, langv);
        proof {
            assert(keys.take(n as int) =~= keys);
            lemma_group_of_props(srcv, keys, langv);
        }
        // order the group by star rank, descending, starless last
        let mut sorted: Vec<u64> = Vec::new();
        while group.len() > 0
            invariant
                old(db).wf(),
                db.wf(),
                db.src() == srcv,
                db.dcfg() == cfg,
                sorted@.no_duplicates(),
                group@.no_duplicates(),
                forall|x: u64| sorted@.contains(x) ==> !group@.contains(x),
                forall|x: u64| group0.contains(x) <==> (sorted@.contains(x) || group@.contains(x)),
                forall|x: u64| sorted@.contains(x) ==> group0.contains(x),
                forall|x: u64| group@.contains(x) ==> group0.contains(x),
                forall|i: int, j: int|
                    0 <= i <= j < sorted@.len() ==> rank_of(srcv, sorted@[i]) >= rank_of(
                        srcv,
                        sorted@[j],
                    ),
                forall|x: u64| #[trigger]
                    group@.contains(x) && sorted@.len() > 0 ==> rank_of(srcv, x) <= rank_of(
                        srcv,
                        sorted@.last(),
                    ),
            decreases group@.len(),
        {
            let mut best: usize = 0;
            let mut bj: usize = 1;
            while bj < group.len()
                invariant
                    old(db).wf(),
                    db.wf(),
                    db.src() == srcv,
                    db.dcfg() == cfg,
                    group@.len() > 0,
                    0 <= best < bj <= group@.len(),
                    forall|w: int|
                        0 <= w < bj ==> rank_of(srcv, #[trigger] group@[w]) <= rank_of(
                            srcv,
                            group@[best as int],
                        ),
                decreases group@.len() - bj,
            {
                let sb = db.project_star_gazer_count(ProjectId(group[best]));
                let sj = db.project_star_gazer_count(ProjectId(group[bj]));
                let better = match (sj, sb) {
                    (Some(a), Some(b)) => a > b,
                    (Some(_), None) => true,
                    _ => false,
                };
                proof {
                    assert(better <==> rank_of(srcv, group@[bj as int]) > rank_of(
                        srcv,
                        group@[best as int],
                    ));
                }
                if better {
                    best = bj;
                }
                bj = bj + 1;
            }
            let ghost gpre = group@;
            let ghost spre = sorted@;
            let x = group.remove(best);
            sorted.push(x);
            proof {
                assert(gpre.contains(x)) by {
                    assert(gpre[best as int] == x);
                }
                assert(forall|w: int|
                    0 <= w < group@.len() ==> group@[w] == (if w < best {
                        gpre[w]
                    } else {
                        gpre[w + 1]
                    }));
                assert forall|y: u64| #[trigger] group@.contains(y) implies gpre.contains(y) by {
                    let w = choose|w: int| 0 <= w < group@.len() && group@[w] == y;
                    if w < best {
                        assert(gpre[w] == y);
                    } else {
                        assert(gpre[w + 1] == y);
                    }
                }
                assert forall|y: u64| gpre.contains(y) && y != x implies group@.contains(y) by {
                    let w = choose|w: int| 0 <= w < gpre.len() && gpre[w] == y;
                    if w < best {
                        assert(group@[w] == y);
                    } else {
                        assert(w > best) by {
                            if w == best {
                                assert(gpre[w] == x);
                            }
                        }
                        assert(group@[w - 1] == y);
                    }
                }
                assert(group@.no_duplicates()) by {
                    assert forall|i2: int, j2: int|
                        0 <= i2 < group@.len() && 0 <= j2 < group@.len() && i2 != j2 implies group@[i2]
                        != group@[j2] by {
                        assert(group@[i2] == (if i2 < best {
                            gpre[i2]
                        } else {
                            gpre[i2 + 1]
                        }));
                        assert(group@[j2] == (if j2 < best {
                            gpre[j2]
                        } else {
                            gpre[j2 + 1]
                        }));
                    }
                }
                assert(!group@.contains(x)) by {
                    if group@.contains(x) {
                        let w = choose|w: int| 0 <= w < group@.len() && group@[w] == x;
                        if w < best {
                            assert(gpre[w] == x && gpre[best as int] == x);
                        } else {
                            assert(gpre[w + 1] == x && gpre[best as int] == x);
                        }
                    }
                }
                assert(sorted@ == spre.push(x));
                assert(sorted@.no_duplicates()) by {
                    assert forall|i2: int, j2: int|
                        0 <= i2 < sorted@.len() && 0 <= j2 < sorted@.len() && i2
                            != j2 implies sorted@[i2] != sorted@[j2] by {
                        if i2 < spre.len() && j2 < spre.len() {
                            assert(sorted@[i2] == spre[i2] && sorted@[j2] == spre[j2]);
                        } else if i2 < spre.len() {
                            if sorted@[i2] == x {
                                assert(spre.contains(x)) by {
                                    assert(spre[i2] == x);
                                }
                            }
                        } else if j2 < spre.len() {
                            if sorted@[j2] == x {
                                assert(spre.contains(x)) by {
                                    assert(spre[j2] == x);
                                }
                            }
                        }
                    }
                }
                assert forall|y: u64| sorted@.contains(y) implies !group@.contains(y) by {
                    let w = choose|w: int| 0 <= w < sorted@.len() && sorted@[w] == y;
                    if w < spre.len() {
                        assert(spre.contains(y)) by {
                            assert(spre[w] == y);
                        }
                        assert(!gpre.contains(y));
                    }
                }
                assert forall|y: u64| group0.contains(y) implies (sorted@.contains(y)
                    || group@.contains(y)) by {
                    if spre.contains(y) {
                        let w = choose|w: int| 0 <= w < spre.len() && spre[w] == y;
                        assert(sorted@[w] == y);
                        assert(sorted@.contains(y));
                    } else {
                        assert(gpre.contains(y));
                        if y == x {
                            assert(sorted@[sorted@.len() - 1] == x);
                            assert(sorted@.contains(y));
                        }
                    }
                }
                assert forall|y: u64| sorted@.contains(y) implies group0.contains(y) by {
                    let w = choose|w: int| 0 <= w < sorted@.len() && sorted@[w] == y;
                    if w < spre.len() {
                        assert(spre.contains(y)) by {
                            assert(spre[w] == y);
                        }
                    } else {
                        assert(y == x);
                    }
                }
                assert forall|y: u64| #[trigger] group@.contains(y) implies group0.contains(y) by {
                    assert(gpre.contains(y));
                }
                // ordering: the removed element ranked highest among the rest
                assert(rank_of(srcv, x) == rank_of(srcv, gpre[best as int]));
                assert forall|i2: int, j2: int|
                    0 <= i2 <= j2 < sorted@.len() implies rank_of(srcv, sorted@[i2]) >= rank_of(
                    srcv,
                    sorted@[j2],
                ) by {
                    if j2 < spre.len() {
                        assert(sorted@[i2] == spre[i2] && sorted@[j2] == spre[j2]);
                    } else if i2 < spre.len() {
                        assert(sorted@[i2] == spre[i2]);
                        assert(sorted@[j2] == x);
                        assert(gpre.contains(x));
                        assert(rank_of(srcv, x) <= rank_of(srcv, spre.last()));
                        assert(rank_of(srcv, spre[i2]) >= rank_of(srcv, spre[spre.len() - 1]));
                    }
                }
                assert forall|y: u64| #[trigger] group@.contains(y) && sorted@.len()
                    > 0 implies rank_of(srcv, y) <= rank_of(srcv, sorted@.last()) by {
                    assert(gpre.contains(y));
                    let w = choose|w: int| 0 <= w < gpre.len() && gpre[w] == y;
                    assert(rank_of(srcv, gpre[w]) <= rank_of(srcv, gpre[best as int]));
                    assert(sorted@.last() == x);
                }
            }
        }
        proof {
            assert(group@.len() == 0);
            assert(forall|x: u64| group0.contains(x) <==> sorted@.contains(x)) by {
                assert(forall|x: u64| !group@.contains(x));
            }
            lemma_same_members_same_len(group0, sorted@);
        }
        // keep the first min(top_n, group size)
        let gl = sorted.len();
        let mut seg: Vec<u64> = Vec::new();
        let mut ti: usize = 0;
        proof {
            assert(seg@ =~= sorted@.take(0));
        }
        while ti < gl && ti < top_n
            invariant
                0 <= ti <= gl,
                gl == sorted@.len(),
                ti <= top_n,
                seg@ == sorted@.take(ti as int),
            decreases gl - ti,
        {
            let v = sorted[ti];
            seg.push(v);
            proof {
                assert(seg@ =~= sorted@.take(ti + 1));
            }
            ti = ti + 1;
        }
        proof {
            assert(ti == gl || ti == top_n);
            assert(seg@.len() == (if group0.len() < top_n {
                group0.len() as int
            } else {
                top_n as int
            }));
            assert(seg@.no_duplicates()) by {
                assert(forall|w: int| 0 <= w < seg@.len() ==> seg@[w] == sorted@[w]);
            }
            assert forall|w: int| 0 <= w < seg@.len() implies group0.contains(
                #[trigger] seg@[w],
            ) by {
                assert(seg@[w] == sorted@[w]);
                assert(sorted@.contains(sorted@[w]));
            }
            assert forall|x: u64|
                group0.contains(x) && !seg@.contains(x) implies (forall|w: int|
                0 <= w < seg@.len() ==> rank_of(srcv, x) <= rank_of(
                    srcv,
                    #[trigger] seg@[w],
                )) by {
                assert(sorted@.contains(x));
                let u = choose|u: int| 0 <= u < sorted@.len() && sorted@[u] == x;
                assert(u >= seg@.len()) by {
                    if u < seg@.len() {
                        assert(seg@[u] == x);
                    }
                }
                assert forall|w: int| 0 <= w < seg@.len() implies rank_of(srcv, x) <= rank_of(
                    srcv,
                    #[trigger] seg@[w],
                ) by {
                    assert(seg@[w] == sorted@[w]);
                    assert(rank_of(srcv, sorted@[w]) >= rank_of(srcv, sorted@[u]));
                }
            }
            assert(is_top_segment(srcv, group0, top_n, seg@));
        }
        // append the segment
        let ghost opre = out@;
        let sl = seg.len();
        let mut si: usize = 0;
        while si < sl
            invariant
                0 <= si <= sl,
                sl == seg@.len(),
                out@ == opre + seg@.take(si as int),
            decreases sl - si,
        {
            out.push(seg[si]);
            proof {
                assert(out@ =~= opre + seg@.take(si + 1));
            }
            si = si + 1;
        }
        proof {
            assert(seg@.take(sl as int) =~= seg@);
            let segs_pre = segs;
            segs = segs.push(seg@);
            assert(segs.drop_last() =~= segs_pre);
            assert(concat_all(segs) == concat_all(segs_pre) + segs.last());
            assert(out@ =~= concat_all(segs));
        }
        li = li + 1;
    }
    proof {
        assert(segs.len() == all_langs.len());
    }
    out
}

/// The view of an optional language name.
pub open spec fn opt_view(o: Option<String>) -> Option<Seq<char>> {
    match o {
        Some(s) => Some(s@),
        None => None,
    }
}

/// Whether two optional language names are the same.
pub fn opt_string_eq(a: &Option<String>, b: &Option<String>) -> (r: bool)
    ensures
        r == (opt_view(*a) == opt_view(*b)),
{
    match (a, b) {
        (Some(x), Some(y)) => *x == *y,
        (None, None) => true,
        _ => false,
    }
}

} // verus!
