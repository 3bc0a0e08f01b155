//! The decisions of a memory search: which candidates pass the filters,
//! how many fit the token budget, and which linked memories join them.

use vstd::prelude::*;
use crate::records::{LinkedMemoryEntry, Memory, MemoryWithLinks};
use crate::params::QueryMemoryParams;
use crate::sql::Timestamp;
use crate::text::{byte_len, estimate_tokens, push_char};
use std::collections::HashSet;

verus! {

/// The text whose size a memory counts for: title, content and context,
/// separated by single spaces.
pub open spec fn token_text(m: Memory) -> Seq<char> {
    m.title@ + seq![' '] + m.content@ + seq![' '] + m.context@
}

/// The tokens a memory counts for in a search budget.
pub open spec fn memory_tokens(m: Memory) -> usize {
    byte_len(token_text(m)) / 4
}

pub fn count_tokens(m: &Memory) -> (r: usize)
    ensures
        r == memory_tokens(*m),
{
    let mut s = m.title.clone();
    push_char(&mut s, ' ');
    s.append(m.content.as_str());
    push_char(&mut s, ' ');
    s.append(m.context.as_str());
    assert(s@ =~= token_text(*m));
    estimate_tokens(s.as_str())
}

/// Whether some element of `wanted` is in `have`.
pub open spec fn any_shared<T>(wanted: Seq<T>, have: Seq<T>) -> bool {
    exists|i: int| 0 <= i < wanted.len() && have.contains(#[trigger] wanted[i])
}

pub fn contains_i64(v: &Vec<i64>, x: i64) -> (r: bool)
    ensures
        r == v@.contains(x),
{
    let mut i: usize = 0;
    while i < v.len()
        invariant
            i <= v.len(),
            forall|j: int| 0 <= j < i ==> v@[j] != x,
        decreases v.len() - i,
    {
        if v[i] == x {
            return true;
        }
        i = i + 1;
    }
    false
}

pub fn shares_i64(wanted: &Vec<i64>, have: &Vec<i64>) -> (r: bool)
    ensures
        r == any_shared(wanted@, have@),
{
    let mut i: usize = 0;
    while i < wanted.len()
        invariant
            i <= wanted.len(),
            forall|j: int| 0 <= j < i ==> !have@.contains(#[trigger] wanted@[j]),
        decreases wanted.len() - i,
    {
        if contains_i64(have, wanted[i]) {
            return true;
        }
        i = i + 1;
    }
    false
}

pub fn contains_string(v: &Vec<String>, x: &String) -> (r: bool)
    ensures
        r == v.deep_view().contains(x@),
{
    let mut i: usize = 0;
    while i < v.len()
        invariant
            i <= v.len(),
            forall|j: int| 0 <= j < i ==> v.deep_view()[j] != x@,
        decreases v.len() - i,
    {
        if v[i] == *x {
            assert(v.deep_view()[i as int] == x@);
            return true;
        }
        i = i + 1;
    }
    false
}

pub fn shares_string(wanted: &Vec<String>, have: &Vec<String>) -> (r: bool)
    ensures
        r == any_shared(wanted.deep_view(), have.deep_view()),
{
    let mut i: usize = 0;
    while i < wanted.len()
        invariant
            i <= wanted.len(),
            forall|j: int| 0 <= j < i ==> !have.deep_view().contains(#[trigger] wanted.deep_view()[j]),
        decreases wanted.len() - i,
    {
        if contains_string(have, &wanted[i]) {
            assert(wanted.deep_view()[i as int] == wanted[i as int]@);
            return true;
        }
        i = i + 1;
    }
    false
}

/// The filters that a search candidate must pass after the full-text
/// match, besides the project filter: the latest version of its chain,
/// neither obsolete nor forgotten, the minimum importance, the container
/// tag, a shared tag (when tags are asked for), and an expiry date that has
/// not passed at `now`.
pub open spec fn passes_other_filters(m: Memory, p: QueryMemoryParams, now: Timestamp) -> bool {
    &&& m.is_latest
    &&& !m.is_obsolete
    &&& !m.is_forgotten
    &&& (p.min_importance matches Some(min) ==> m.importance >= min)
    &&& (p.container_tag matches Some(ct) ==> (m.container_tag matches Some(c) && c@ == ct@))
    &&& (p.tags@.len() > 0 ==> any_shared(p.tags.deep_view(), m.tags.deep_view()))
    &&& !(m.forget_after matches Some(fa) && fa.before(now))
}

/// The project filter: when projects are asked for, the memory must be in
/// one of them.
pub open spec fn passes_project_filter(p: QueryMemoryParams, project_ids: Seq<i64>) -> bool {
    p.project_ids@.len() > 0 ==> any_shared(p.project_ids@, project_ids)
}

pub fn check_other_filters(m: &Memory, p: &QueryMemoryParams, now: &Timestamp) -> (r: bool)
    ensures
        r == passes_other_filters(*m, *p, *now),
{
    let min_ok = match p.min_importance {
        Some(min) => m.importance >= min,
        None => true,
    };
    let container_ok = match &p.container_tag {
        Some(ct) => match &m.container_tag {
            Some(c) => *c == *ct,
            None => false,
        },
        None => true,
    };
    let tags_ok = p.tags.len() == 0 || shares_string(&p.tags, &m.tags);
    let not_expired = match &m.forget_after {
        Some(fa) => !fa.is_before(now),
        None => true,
    };
    let current = m.is_latest && !m.is_obsolete && !m.is_forgotten;
    current && min_ok && container_ok && tags_ok && not_expired
}


/// The elements of a vector in reverse order.
pub fn reversed<T>(v: Vec<T>) -> (r: Vec<T>)
    ensures
        r@ == v@.reverse(),
{
    let ghost orig = v@;
    let mut v = v;
    let mut out: Vec<T> = Vec::new();
    while v.len() > 0
        invariant
            v@.len() <= orig.len(),
            out@ == orig.skip(v@.len() as int).reverse(),
            v@ == orig.take(v@.len() as int),
        decreases v.len(),
    {
        let ghost n = v@.len() as int;
        let x = v.pop().unwrap();
        assert(orig.skip(n - 1).reverse() =~= out@.push(x));
        out.push(x);
        assert(v@ =~= orig.take(n - 1));
    }
    assert(orig.skip(0) =~= orig);
    out
}

// ───────────────────────── primary results ─────────────────────────

/// Walks the token counts of the candidates in rank order: each one is
/// taken while it fits in the budget; the first that does not fit ends the
/// walk, unless nothing was taken yet. The number taken and the tokens used.
pub open spec fn fit_count(toks: Seq<usize>, budget: int, count: nat, used: int) -> (nat, int)
    decreases toks.len(),
{
    if toks.len() == 0 {
        (count, used)
    } else if used + toks[0] > budget && count > 0 {
        (count, used)
    } else {
        fit_count(toks.drop_first(), budget, count + 1, used + toks[0])
    }
}

pub open spec fn tokens_of(ms: Seq<MemoryWithLinks>) -> Seq<usize> {
    ms.map_values(|m: MemoryWithLinks| memory_tokens(m.memory))
}

/// How many of the first `max` candidates become primary results under the
/// token budget, and the tokens they use.
pub open spec fn primary_selection(ms: Seq<MemoryWithLinks>, max: usize, budget: usize) -> (nat, int) {
    let limit = if max < ms.len() { max as int } else { ms.len() as int };
    fit_count(tokens_of(ms.take(limit)), budget as int, 0, 0)
}

/// Takes the leading candidates that fit in the token budget (at most
/// `max`; the first one always). Returns them with the tokens they use.
pub fn select_primary(ms: Vec<MemoryWithLinks>, max: usize, budget: usize) -> (r: (Vec<MemoryWithLinks>, usize))
    ensures
        r.0@ == ms@.take(primary_selection(ms@, max, budget).0 as int),
        r.1 == primary_selection(ms@, max, budget).1,
{
    let ghost orig = ms@;
    let n = ms.len();
    let limit = if max < n { max } else { n };
    let ghost toks = tokens_of(orig.take(limit as int));
    let mut rev = reversed(ms);
    let mut prim: Vec<MemoryWithLinks> = Vec::new();
    let mut used: usize = 0;
    let mut i: usize = 0;
    let mut stopped = false;
    assert(toks.skip(0) =~= toks);
    while i < limit && !stopped
        invariant
            limit <= n,
            n == orig.len(),
            toks == tokens_of(orig.take(limit as int)),
            i <= limit,
            prim@ == orig.take(i as int),
            !stopped ==> rev@ == orig.skip(i as int).reverse(),
            prim.len() == i,
            i == 0 ==> used == 0,
            used <= budget || i <= 1,
            stopped ==> fit_count(toks.skip(i as int), budget as int, i as nat, used as int) == (i as nat, used as int),
            fit_count(toks, budget as int, 0, 0) == fit_count(toks.skip(i as int), budget as int, i as nat, used as int),
        decreases limit - i + (if stopped { 0int } else { 1int }),
    {
        let ghost before = rev@;
        let m = rev.pop().unwrap();
        assert(m == orig[i as int]);
        assert(rev@ =~= orig.skip(i + 1).reverse());
        let t = count_tokens(&m.memory);
        assert(toks.skip(i as int)[0] == t);
        assert(toks.skip(i as int).drop_first() =~= toks.skip(i + 1));
        if (used as u128) + (t as u128) > budget as u128 && prim.len() > 0 {
            stopped = true;
        } else {
            used = used + t;
            prim.push(m);
            assert(prim@ =~= orig.take(i + 1));
            i = i + 1;
        }
    }
    if !stopped {
        assert(toks.skip(i as int) =~= Seq::<usize>::empty());
    }
    (prim, used)
}

/// The sum of a sequence of token counts.
pub open spec fn total(toks: Seq<usize>) -> int
    decreases toks.len(),
{
    if toks.len() == 0 {
        0
    } else {
        toks[0] + total(toks.drop_first())
    }
}

proof fn lemma_fit_count(toks: Seq<usize>, budget: int, count: nat, used: int)
    requires
        0 <= used,
        count == 0 ==> used == 0,
        used <= budget || count <= 1,
    ensures
        ({
            let r = fit_count(toks, budget, count, used);
            &&& count <= r.0 <= count + toks.len()
            &&& r.1 == used + total(toks.take(r.0 - count))
            &&& used <= r.1
            &&& r.1 > budget ==> r.0 <= 1
            &&& (0 < r.0 < count + toks.len()) ==> r.1 + toks[r.0 - count] > budget
            &&& (count == 0 && toks.len() > 0) ==> r.0 >= 1
        }),
    decreases toks.len(),
{
    if toks.len() == 0 {
        assert(toks.take(0) =~= Seq::<usize>::empty());
    } else if used + toks[0] > budget && count > 0 {
        assert(toks.take(0) =~= Seq::<usize>::empty());
    } else {
        let rest = toks.drop_first();
        lemma_fit_count(rest, budget, count + 1, used + toks[0]);
        let r = fit_count(rest, budget, count + 1, used + toks[0]);
        let taken = toks.take(r.0 - count);
        assert(taken.drop_first() =~= rest.take(r.0 - count - 1));
        assert(total(taken) == taken[0] + total(taken.drop_first()));
    }
}

/// Token budget of the primary results: they are the longest run of the
/// leading candidates (at most `max`) whose summed tokens fit in the budget,
/// except that the first candidate is always taken; so the tokens used
/// exceed the budget only when a single result was taken.
pub proof fn lemma_primary_selection(ms: Seq<MemoryWithLinks>, max: usize, budget: usize)
    ensures
        ({
            let (n, used) = primary_selection(ms, max, budget);
            &&& n <= max
            &&& n <= ms.len()
            &&& used == total(tokens_of(ms.take(n as int)))
            &&& 0 <= used
            &&& used > budget ==> n <= 1
            &&& (ms.len() > 0 && max > 0) ==> n >= 1
            &&& (0 < n < max && n < ms.len()) ==> used + memory_tokens(ms[n as int].memory) > budget
        }),
{
    let limit = if max < ms.len() { max as int } else { ms.len() as int };
    let toks = tokens_of(ms.take(limit));
    lemma_fit_count(toks, budget as int, 0, 0);
    let n = primary_selection(ms, max, budget).0;
    assert(toks.take(n as int) =~= tokens_of(ms.take(n as int)));
    if 0 < n < max && n < ms.len() {
        assert(toks[n as int] == memory_tokens(ms[n as int].memory));
    }
}

// ───────────────────────── linked memories ─────────────────────────

/// The linked memories taken for one primary result, walking its link ids
/// from position `pos`: stop once `max_links` were taken; skip ids already
/// seen, links that could not be read, obsolete or forgotten memories and
/// versions that a later one replaced;
/// stop at the first one that does not fit in the budget. The positions
/// taken, the ids seen afterwards, and the tokens used.
pub open spec fn links_of(
    ids: Seq<i64>,
    fetched: Seq<Option<MemoryWithLinks>>,
    seen: Set<i64>,
    count: int,
    used: int,
    max_links: int,
    budget: int,
    pos: int,
) -> (Seq<int>, Set<i64>, int)
    decreases ids.len() - pos,
{
    if pos >= ids.len() || pos < 0 {
        (seq![], seen, used)
    } else if count >= max_links {
        (seq![], seen, used)
    } else if seen.contains(ids[pos]) {
        links_of(ids, fetched, seen, count, used, max_links, budget, pos + 1)
    } else {
        match fetched[pos] {
            None => links_of(ids, fetched, seen, count, used, max_links, budget, pos + 1),
            Some(lm) => if lm.memory.is_obsolete || lm.memory.is_forgotten || !lm.memory.is_latest {
                links_of(ids, fetched, seen, count, used, max_links, budget, pos + 1)
            } else if used + memory_tokens(lm.memory) > budget {
                (seq![], seen, used)
            } else {
                let rest = links_of(ids, fetched, seen.insert(ids[pos]), count + 1,
                    used + memory_tokens(lm.memory), max_links, budget, pos + 1);
                (seq![pos] + rest.0, rest.1, rest.2)
            },
        }
    }
}

/// The tokens of the memories at the given positions of `fetched`.
pub open spec fn picked_tokens(fetched: Seq<Option<MemoryWithLinks>>, picks: Seq<int>) -> Seq<usize> {
    picks.map_values(|p: int| memory_tokens(fetched[p]->Some_0.memory))
}

/// Whether the memory fetched for a link can join a search result: it was
/// read, and is the latest version, neither obsolete nor forgotten.
pub open spec fn usable_link(f: Option<MemoryWithLinks>) -> bool {
    f matches Some(lm) && !lm.memory.is_obsolete && !lm.memory.is_forgotten && lm.memory.is_latest
}

/// What the walk over one primary's links keeps: increasing positions from
/// `pos` on, each a usable memory whose link id was not seen and is not
/// repeated, at most `max_links - count` of them, the seen ids grown by
/// theirs, and the tokens added to `used`, within the budget if `used` was.
proof fn lemma_links_of(
    ids: Seq<i64>,
    fetched: Seq<Option<MemoryWithLinks>>,
    seen: Set<i64>,
    count: int,
    used: int,
    max_links: int,
    budget: int,
    pos: int,
)
    requires
        fetched.len() == ids.len(),
        0 <= pos,
        0 <= used,
    ensures
        ({
            let r = links_of(ids, fetched, seen, count, used, max_links, budget, pos);
            &&& forall|i: int| 0 <= i < r.0.len() ==> pos <= #[trigger] r.0[i] < ids.len()
            &&& forall|i: int, j: int| 0 <= i < j < r.0.len() ==> r.0[i] < r.0[j]
            &&& forall|i: int| 0 <= i < r.0.len() ==> usable_link(fetched[#[trigger] r.0[i]])
            &&& forall|i: int| 0 <= i < r.0.len() ==> !seen.contains(ids[#[trigger] r.0[i]])
            &&& forall|i: int, j: int| 0 <= i < j < r.0.len() ==> ids[r.0[i]] != ids[r.0[j]]
            &&& forall|x: i64| seen.contains(x) ==> #[trigger] r.1.contains(x)
            &&& forall|i: int| 0 <= i < r.0.len() ==> r.1.contains(ids[#[trigger] r.0[i]])
            &&& r.0.len() == 0 || count + r.0.len() <= max_links
            &&& r.2 == used + total(picked_tokens(fetched, r.0))
            &&& used <= r.2
            &&& used <= budget ==> r.2 <= budget
        }),
    decreases ids.len() - pos,
{
    let r = links_of(ids, fetched, seen, count, used, max_links, budget, pos);
    if pos >= ids.len() || count >= max_links {
        assert(picked_tokens(fetched, r.0) =~= Seq::<usize>::empty());
    } else if seen.contains(ids[pos]) {
        lemma_links_of(ids, fetched, seen, count, used, max_links, budget, pos + 1);
    } else {
        match fetched[pos] {
            None => {
                lemma_links_of(ids, fetched, seen, count, used, max_links, budget, pos + 1);
            },
            Some(lm) => {
                if lm.memory.is_obsolete || lm.memory.is_forgotten || !lm.memory.is_latest {
                    lemma_links_of(ids, fetched, seen, count, used, max_links, budget, pos + 1);
                } else if used + memory_tokens(lm.memory) > budget {
                    assert(picked_tokens(fetched, r.0) =~= Seq::<usize>::empty());
                } else {
                    let seen2 = seen.insert(ids[pos]);
                    let used2 = used + memory_tokens(lm.memory);
                    lemma_links_of(ids, fetched, seen2, count + 1, used2, max_links, budget, pos + 1);
                    let rest = links_of(ids, fetched, seen2, count + 1, used2, max_links, budget, pos + 1);
                    assert(r.0 == seq![pos] + rest.0);
                    assert forall|i: int| 0 <= i < r.0.len() implies !seen.contains(ids[#[trigger] r.0[i]]) by {
                        if i > 0 {
                            assert(r.0[i] == rest.0[i - 1]);
                            assert(!seen2.contains(ids[rest.0[i - 1]]));
                        }
                    }
                    assert forall|i: int, j: int| 0 <= i < j < r.0.len() implies ids[r.0[i]] != ids[r.0[j]] by {
                        assert(r.0[j] == rest.0[j - 1]);
                        assert(!seen2.contains(ids[rest.0[j - 1]]));
                        if i == 0 {
                            assert(seen2.contains(ids[pos]));
                        } else {
                            assert(r.0[i] == rest.0[i - 1]);
                        }
                    }
                    assert forall|i: int| 0 <= i < r.0.len() implies r.1.contains(ids[#[trigger] r.0[i]]) by {
                        if i == 0 {
                            assert(seen2.contains(ids[pos]));
                        } else {
                            assert(r.0[i] == rest.0[i - 1]);
                        }
                    }
                    assert forall|i: int| 0 <= i < r.0.len() implies pos <= #[trigger] r.0[i] < ids.len() by {
                        if i > 0 {
                            assert(r.0[i] == rest.0[i - 1]);
                        }
                    }
                    assert forall|i: int, j: int| 0 <= i < j < r.0.len() implies r.0[i] < r.0[j] by {
                        assert(r.0[j] == rest.0[j - 1]);
                        if i > 0 {
                            assert(r.0[i] == rest.0[i - 1]);
                        }
                    }
                    assert forall|i: int| 0 <= i < r.0.len() implies usable_link(fetched[#[trigger] r.0[i]]) by {
                        if i > 0 {
                            assert(r.0[i] == rest.0[i - 1]);
                        }
                    }
                    let pt = picked_tokens(fetched, r.0);
                    assert(pt.drop_first() =~= picked_tokens(fetched, rest.0));
                    assert(total(pt) == pt[0] + total(pt.drop_first()));
                }
            },
        }
    }
}

/// The linked memories taken for the primary results from `k` on, each as
/// (primary index, link position), and the tokens used afterwards.
pub open spec fn expand_from(
    prims: Seq<MemoryWithLinks>,
    fetched: Seq<Seq<Option<MemoryWithLinks>>>,
    seen: Set<i64>,
    used: int,
    max_links: int,
    budget: int,
    k: int,
) -> (Seq<(int, int)>, int)
    decreases prims.len() - k,
{
    if k >= prims.len() || k < 0 {
        (seq![], used)
    } else {
        let one = links_of(prims[k].linked_memory_ids@, fetched[k], seen, 0, used, max_links, budget, 0);
        let rest = expand_from(prims, fetched, one.1, one.2, max_links, budget, k + 1);
        (one.0.map_values(|p: int| (k, p)) + rest.0, rest.1)
    }
}

/// The link id behind a pick (primary index, link position).
pub open spec fn picked_link_id(prims: Seq<MemoryWithLinks>, x: (int, int)) -> i64 {
    prims[x.0].linked_memory_ids@[x.1]
}

/// The linked memories of a search: each one is a readable memory that is
/// the latest version, neither obsolete nor forgotten, reached by a link of a primary result;
/// no link id is taken twice nor one that was already seen (the primary
/// results' own ids); they come grouped by primary result in order, at
/// most `max_links` from any one; and the tokens stay within the budget
/// when they started within it.
pub proof fn lemma_expand_from(
    prims: Seq<MemoryWithLinks>,
    fetched: Seq<Seq<Option<MemoryWithLinks>>>,
    seen: Set<i64>,
    used: int,
    max_links: int,
    budget: int,
    k: int,
)
    requires
        fetched.len() == prims.len(),
        forall|j: int| 0 <= j < prims.len() ==> (#[trigger] fetched[j]).len() == prims[j].linked_memory_ids.len(),
        0 <= k,
        0 <= used,
    ensures
        ({
            let r = expand_from(prims, fetched, seen, used, max_links, budget, k);
            &&& forall|i: int| 0 <= i < r.0.len() ==> {
                &&& k <= (#[trigger] r.0[i]).0 < prims.len()
                &&& 0 <= r.0[i].1 < prims[r.0[i].0].linked_memory_ids.len()
                &&& usable_link(fetched[r.0[i].0][r.0[i].1])
                &&& !seen.contains(picked_link_id(prims, r.0[i]))
            }
            &&& forall|i: int, j: int| 0 <= i < j < r.0.len() ==> {
                &&& picked_link_id(prims, r.0[i]) != picked_link_id(prims, r.0[j])
                &&& r.0[i].0 <= r.0[j].0
                &&& r.0[i].0 == r.0[j].0 ==> j - i < max_links
            }
            &&& used <= budget ==> r.1 <= budget
        }),
    decreases prims.len() - k,
{
    if k < prims.len() {
        let ids = prims[k].linked_memory_ids@;
        let one = links_of(ids, fetched[k], seen, 0, used, max_links, budget, 0);
        lemma_links_of(ids, fetched[k], seen, 0, used, max_links, budget, 0);
        lemma_expand_from(prims, fetched, one.1, one.2, max_links, budget, k + 1);
        let rest = expand_from(prims, fetched, one.1, one.2, max_links, budget, k + 1);
        let block = one.0.map_values(|p: int| (k, p));
        let r = expand_from(prims, fetched, seen, used, max_links, budget, k);
        assert(r.0 == block + rest.0);
        let nb = block.len() as int;
        assert forall|i: int| 0 <= i < r.0.len() implies {
            &&& k <= (#[trigger] r.0[i]).0 < prims.len()
            &&& 0 <= r.0[i].1 < prims[r.0[i].0].linked_memory_ids.len()
            &&& usable_link(fetched[r.0[i].0][r.0[i].1])
            &&& !seen.contains(picked_link_id(prims, r.0[i]))
        } by {
            if i < nb {
                assert(r.0[i] == (k, one.0[i]));
            } else {
                assert(r.0[i] == rest.0[i - nb]);
                let x = picked_link_id(prims, r.0[i]);
                assert(!one.1.contains(x));
            }
        }
        assert forall|i: int, j: int| 0 <= i < j < r.0.len() implies {
            &&& picked_link_id(prims, r.0[i]) != picked_link_id(prims, r.0[j])
            &&& r.0[i].0 <= r.0[j].0
            &&& r.0[i].0 == r.0[j].0 ==> j - i < max_links
        } by {
            if j < nb {
                assert(r.0[i] == (k, one.0[i]));
                assert(r.0[j] == (k, one.0[j]));
            } else if i < nb {
                assert(r.0[i] == (k, one.0[i]));
                assert(r.0[j] == rest.0[j - nb]);
                let x = picked_link_id(prims, r.0[j]);
                assert(!one.1.contains(x));
                assert(one.1.contains(ids[one.0[i]]));
            } else {
                assert(r.0[i] == rest.0[i - nb]);
                assert(r.0[j] == rest.0[j - nb]);
            }
        }
    }
}

pub open spec fn fetched_view(f: Seq<Vec<Option<MemoryWithLinks>>>) -> Seq<Seq<Option<MemoryWithLinks>>> {
    f.map_values(|v: Vec<Option<MemoryWithLinks>>| v@)
}

pub open spec fn memory_ids(ms: Seq<MemoryWithLinks>) -> Seq<i64> {
    ms.map_values(|m: MemoryWithLinks| m.memory.id)
}

/// The entries for the positions taken among one primary's links.
pub open spec fn entries_match(
    entries: Seq<LinkedMemoryEntry>,
    picks: Seq<(int, int)>,
    prims: Seq<MemoryWithLinks>,
    fetched: Seq<Seq<Option<MemoryWithLinks>>>,
) -> bool {
    &&& entries.len() == picks.len()
    &&& forall|i: int| 0 <= i < entries.len() ==> {
        &&& (#[trigger] entries[i]).link_source_id == prims[picks[i].0].memory.id
        &&& fetched[picks[i].0][picks[i].1] == Some(entries[i].memory)
    }
}

/// Takes the linked memories of one primary result (see `links_of`).
fn take_links(
    source_id: i64,
    ids: &Vec<i64>,
    fetched: Vec<Option<MemoryWithLinks>>,
    seen: &mut HashSet<i64>,
    used: usize,
    max_links: i32,
    budget: usize,
    out: &mut Vec<LinkedMemoryEntry>,
) -> (r: usize)
    requires
        fetched.len() == ids.len(),
        used <= budget,
    ensures
        ({
            let res = links_of(ids@, fetched@, old(seen)@, 0, used as int, max_links as int, budget as int, 0);
            &&& final(seen)@ == res.1
            &&& r == res.2
            &&& r <= budget
            &&& final(out)@.len() == old(out)@.len() + res.0.len()
            &&& final(out)@.take(old(out)@.len() as int) == old(out)@
            &&& forall|i: int| 0 <= i < res.0.len() ==> {
                &&& (#[trigger] final(out)@[old(out)@.len() + i]).link_source_id == source_id
                &&& fetched@[res.0[i]] == Some(final(out)@[old(out)@.len() + i].memory)
            }
        }),
{
    broadcast use vstd::std_specs::hash::group_hash_axioms;
    let ghost f0 = fetched@;
    let ghost seen0 = seen@;
    let ghost out0 = out@;
    let ghost target = links_of(ids@, f0, seen0, 0, used as int, max_links as int, budget as int, 0);
    let n = ids.len();
    let mut rev = reversed(fetched);
    let mut pos: usize = 0;
    let mut count: i32 = 0;
    let mut used = used;
    let mut stopped = false;
    let ghost mut picked: Seq<int> = seq![];
    while pos < n && !stopped
        invariant
            n == ids.len(),
            n == f0.len(),
            pos <= n,
            !stopped ==> rev@ == f0.skip(pos as int).reverse(),
            used <= budget,
            0 <= count,
            out@.len() == out0.len() + picked.len(),
            out@.take(out0.len() as int) == out0,
            forall|i: int| 0 <= i < picked.len() ==> {
                &&& (#[trigger] out@[out0.len() + i]).link_source_id == source_id
                &&& f0[picked[i]] == Some(out@[out0.len() + i].memory)
            },
            stopped ==> links_of(ids@, f0, seen@, count as int, used as int, max_links as int, budget as int, pos as int)
                == (Seq::<int>::empty(), seen@, used as int),
            target == ({
                let rest = links_of(ids@, f0, seen@, count as int, used as int, max_links as int, budget as int, pos as int);
                (picked + rest.0, rest.1, rest.2)
            }),
        decreases n - pos + (if stopped { 0int } else { 1int }),
    {
        let ghost p = pos as int;
        let item = rev.pop().unwrap();
        assert(item == f0[p]);
        assert(rev@ =~= f0.skip(p + 1).reverse());
        if count >= max_links {
            stopped = true;
        } else if seen.contains(&ids[pos]) {
            pos = pos + 1;
        } else {
            match item {
                None => {
                    pos = pos + 1;
                },
                Some(lm) => {
                    if lm.memory.is_obsolete || lm.memory.is_forgotten || !lm.memory.is_latest {
                        pos = pos + 1;
                    } else {
                        let t = count_tokens(&lm.memory);
                        if (used as u128) + (t as u128) > budget as u128 {
                            stopped = true;
                        } else {
                            let ghost before_out = out@;
                            let ghost before_picked = picked;
                            used = used + t;
                            seen.insert(ids[pos]);
                            out.push(LinkedMemoryEntry { memory: lm, link_source_id: source_id });
                            proof {
                                picked = picked.push(p);
                                assert(out@.take(out0.len() as int) =~= before_out.take(out0.len() as int));
                                assert forall|i: int| 0 <= i < picked.len() implies {
                                    &&& (#[trigger] out@[out0.len() + i]).link_source_id == source_id
                                    &&& f0[picked[i]] == Some(out@[out0.len() + i].memory)
                                } by {
                                    if i < before_picked.len() {
                                        assert(out@[out0.len() + i] == before_out[out0.len() + i]);
                                    }
                                }
                                assert(before_picked + (seq![p] + links_of(ids@, f0, seen@, count + 1, used as int,
                                    max_links as int, budget as int, p + 1).0)
                                    =~= picked + links_of(ids@, f0, seen@, count + 1, used as int,
                                    max_links as int, budget as int, p + 1).0);
                            }
                            count = count + 1;
                            pos = pos + 1;
                        }
                    }
                },
            }
        }
    }
    assert(picked + Seq::<int>::empty() =~= picked);
    used
}

/// Takes the linked memories of all primary results in turn (see
/// `expand_from`), starting from the ids already `seen` and the tokens
/// already `used`.
pub fn expand_links(
    prims: &Vec<MemoryWithLinks>,
    fetched: Vec<Vec<Option<MemoryWithLinks>>>,
    seen: HashSet<i64>,
    used: usize,
    max_links: i32,
    budget: usize,
) -> (r: (Vec<LinkedMemoryEntry>, usize))
    requires
        fetched.len() == prims.len(),
        forall|k: int| 0 <= k < prims.len() ==> (#[trigger] fetched@[k]).len() == prims@[k].linked_memory_ids.len(),
        used <= budget,
    ensures
        ({
            let res = expand_from(prims@, fetched_view(fetched@), seen@, used as int, max_links as int, budget as int, 0);
            &&& r.1 == res.1
            &&& entries_match(r.0@, res.0, prims@, fetched_view(fetched@))
        }),
{
    let ghost fv = fetched_view(fetched@);
    let ghost seen0 = seen@;
    let ghost target = expand_from(prims@, fv, seen0, used as int, max_links as int, budget as int, 0);
    let n = prims.len();
    let mut rev = reversed(fetched);
    let mut seen = seen;
    let mut used = used;
    let mut out: Vec<LinkedMemoryEntry> = Vec::new();
    let mut k: usize = 0;
    let ghost mut picks: Seq<(int, int)> = seq![];
    while k < n
        invariant
            n == prims.len(),
            n == fv.len(),
            k <= n,
            forall|j: int| 0 <= j < rev@.len() ==> (#[trigger] rev@[j])@ == fv[n - 1 - j],
            rev@.len() == n - k,
            forall|j: int| 0 <= j < n ==> (#[trigger] fv[j]).len() == prims@[j].linked_memory_ids.len(),
            used <= budget,
            entries_match(out@, picks, prims@, fv),
            target == ({
                let rest = expand_from(prims@, fv, seen@, used as int, max_links as int, budget as int, k as int);
                (picks + rest.0, rest.1)
            }),
        decreases n - k,
    {
        let fk = rev.pop().unwrap();
        assert(fk@ == fv[k as int]);
        let ghost before_out = out@;
        let ghost before_picks = picks;
        let ghost one = links_of(prims@[k as int].linked_memory_ids@, fv[k as int], seen@, 0, used as int,
            max_links as int, budget as int, 0);
        let new_used = take_links(prims[k].memory.id, &prims[k].linked_memory_ids, fk, &mut seen, used,
            max_links, budget, &mut out);
        proof {
            let mapped = one.0.map_values(|p: int| (k as int, p));
            picks = picks + mapped;
            assert forall|i: int| 0 <= i < out@.len() implies {
                &&& (#[trigger] out@[i]).link_source_id == prims@[picks[i].0].memory.id
                &&& fv[picks[i].0][picks[i].1] == Some(out@[i].memory)
            } by {
                if i < before_out.len() {
                    assert(out@[i] == out@.take(before_out.len() as int)[i]);
                    assert(picks[i] == before_picks[i]);
                    assert(out@[i] == before_out[i]);
                } else {
                    let j = i - before_out.len();
                    assert(picks[i] == mapped[j]);
                    assert(mapped[j] == (k as int, one.0[j]));
                    assert(out@[before_out.len() + j] == out@[i]);
                }
            }
            assert(before_picks + (mapped + expand_from(prims@, fv, seen@, new_used as int, max_links as int,
                budget as int, k + 1).0) =~= picks + expand_from(prims@, fv, seen@, new_used as int,
                max_links as int, budget as int, k + 1).0);
        }
        used = new_used;
        k = k + 1;
    }
    assert(picks + Seq::<(int, int)>::empty() =~= picks);
    (out, used)
}
} // verus!
