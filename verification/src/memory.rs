//! Memories: creation, reading, search, links, versions and lifecycle.

use vstd::prelude::*;
use std::collections::HashSet;
use crate::activity::{activity_write, opt_text_value, view_opt_str};
use crate::columns::{as_int, as_opt_int, as_text, as_i32, i32_of, int_of, opt_int_of, opt_number_of, opt_string_list_of, opt_text_of, string_list_of, take_col, text_of, view_opt, view_opt_list};
use crate::params::{CreateMemoryParams, CreateVersionParams, QueryMemoryParams, UpdateMemoryParams};
use crate::records::{decode_memory, memory_from_row, memory_read, LinkedMemoryEntry, Memory, MemoryWithLinks, SearchResult};
use crate::search::{
    any_shared, check_other_filters, contains_i64, entries_match, expand_from, expand_links, fetched_view, memory_ids,
    lemma_expand_from, lemma_primary_selection, passes_other_filters, passes_project_filter, picked_link_id,
    primary_selection, select_primary, shares_i64, usable_link,
};
use crate::sql::{
    format_sql_datetime, json_encode_strings, json_string_list_text, naive_date_parse_midnight, naive_datetime_parse,
    sql_datetime_text, parse_rfc3339, rfc3339_parse,
    number_value, parse_date_midnight, parse_datetime, utc_now, DbError, RecordKind, SqlValue, Timestamp,
};
use crate::statements::{distinct_names, more_names, name_list, select_from, insert_sql, lemma_insert_sql_three, lemma_insert_sql_two, insert_statement, inserts_value, lemma_insert_binds, add_if, assoc_sql, assoc_statement, list_if_ok, number_if, text_if, val_if, clock_text, col_if, lemma_contains_col_if, lemma_contains_col_if_alone, given_list, given_text, run_update, update_write, views};
use crate::store::{
    inserted_rowid, rows_changed,
    all_have_width, answered, bound, bound_all, default_user, first_answer, query_failed, opt_number_bound, opt_string_bound, opt_text_bound, Bound, Database, Write,
};
use crate::text::{build_fts_query, push_char};
use crate::dashboard::ids_answered;
use crate::records::memory_row_valid;

verus! {

/// The point in time at which an auto-forget date given in ISO 8601 falls:
/// `YYYY-MM-DDTHH:MM:SS`, else `YYYY-MM-DD HH:MM:SS`, else `YYYY-MM-DD` at
/// midnight, all in UTC, else a date and time with `Z` or an offset
/// (RFC 3339), taken in UTC; none when the text is in none of these forms.
pub open spec fn forget_after_of(text: Seq<char>) -> Option<Timestamp> {
    match naive_datetime_parse(text, "%Y-%m-%dT%H:%M:%S"@) {
        Some(t) => Some(t),
        None => match naive_datetime_parse(text, "%Y-%m-%d %H:%M:%S"@) {
            Some(t) => Some(t),
            None => match naive_date_parse_midnight(text, "%Y-%m-%d"@) {
                Some(t) => Some(t),
                None => rfc3339_parse(text),
            },
        },
    }
}

/// Reads an auto-forget date (see `forget_after_of`).
pub fn parse_forget_after(text: &str) -> (r: Option<Timestamp>)
    ensures
        r == forget_after_of(text@),
{
    match parse_datetime(text, "%Y-%m-%dT%H:%M:%S") {
        Some(t) => Some(t),
        None => match parse_datetime(text, "%Y-%m-%d %H:%M:%S") {
            Some(t) => Some(t),
            None => match parse_date_midnight(text, "%Y-%m-%d") {
                Some(t) => Some(t),
                None => parse_rfc3339(text),
            },
        },
    }
}

/// The value bound for a point in time: its date-time text.
pub fn timestamp_value(t: &Timestamp) -> (r: Result<SqlValue, DbError>)
    ensures
        r is Ok <==> sql_datetime_text(*t) is Some,
        r matches Ok(v) ==> (v matches SqlValue::Text(s) && sql_datetime_text(*t) == Some(s@)),
        r is Err ==> r->Err_0 is InvalidTimestamp,
{
    match format_sql_datetime(t) {
        Some(s) => Ok(SqlValue::Text(s)),
        None => Err(DbError::InvalidTimestamp),
    }
}

/// The current time and the value bound for it.
pub fn now_value() -> (r: Result<(Timestamp, SqlValue), DbError>)
    ensures
        r matches Ok((t, v)) ==> (v matches SqlValue::Text(s) && sql_datetime_text(t) == Some(s@)),
        r is Err ==> r->Err_0 is InvalidTimestamp,
{
    let now = match utc_now() {
        Some(t) => t,
        None => { return Err(DbError::InvalidTimestamp); },
    };
    let v = timestamp_value(&now)?;
    Ok((now, v))
}

/// The value bound for an optional text.
pub fn opt_string_value(o: &Option<String>) -> (r: SqlValue)
    ensures
        o is None ==> r is Null,
        o matches Some(s) ==> (r matches SqlValue::Text(t) && t@ == s@),
{
    match o {
        Some(s) => SqlValue::Text(s.clone()),
        None => SqlValue::Null,
    }
}

/// The value bound for an optional integer.
pub fn opt_int_value(o: Option<i64>) -> (r: SqlValue)
    ensures
        r == match o {
            Some(i) => SqlValue::Integer(i),
            None => SqlValue::Null,
        },
{
    match o {
        Some(i) => SqlValue::Integer(i),
        None => SqlValue::Null,
    }
}

/// The JSON text stored for an optional list.
pub fn opt_list_json(o: &Option<Vec<String>>) -> (r: SqlValue)
    ensures
        o is None ==> r is Null,
        o matches Some(l) ==> (r matches SqlValue::Text(s) && s@ == json_string_list_text(l.deep_view())),
        list_bound_ok(*o, bound(r)),
{
    match o {
        Some(l) => match json_encode_strings(l) {
            Ok(s) => SqlValue::Text(s),
            Err(_) => SqlValue::Text(String::new()),
        },
        None => SqlValue::Null,
    }
}

/// The first column of each row read as an integer; rows where it is no
/// integer are left out.
pub open spec fn first_ints(rows: Seq<Vec<SqlValue>>) -> Seq<i64>
    decreases rows.len(),
{
    if rows.len() == 0 {
        seq![]
    } else {
        match int_of(rows.last()@[0]) {
            Some(i) => first_ints(rows.drop_last()).push(i),
            None => first_ints(rows.drop_last()),
        }
    }
}

pub fn ids_of_rows(rows: Vec<Vec<SqlValue>>) -> (r: Vec<i64>)
    requires
        all_have_width(rows@, 1),
    ensures
        r@ == first_ints(rows@),
{
    let ghost all = rows@;
    let n = rows.len();
    let mut pending = crate::search::reversed(rows);
    let mut out: Vec<i64> = Vec::new();
    while pending.len() > 0
        invariant
            n == all.len(),
            pending@.len() <= n,
            pending@ == all.skip(n - pending@.len()).reverse(),
            all_have_width(all, 1),
            out@ == first_ints(all.take(n - pending@.len())),
        decreases pending.len(),
    {
        let ghost k = n - pending@.len();
        assert(all.take(k + 1).drop_last() =~= all.take(k));
        assert(all.take(k + 1).last() == all[k]);
        let mut row = pending.pop().unwrap();
        assert(row == all[k]);
        assert(pending@ =~= all.skip(k + 1).reverse());
        let v = take_col(&mut row, 0);
        match as_int(v) {
            Some(id) => out.push(id),
            None => {},
        }
    }
    assert(all.take(n as int) =~= all);
    out
}

/// The number of search results asked for: `k`, at most 20, as an index.
pub open spec fn max_results(k: i32) -> usize {
    (if k < 20 { k } else { 20i32 }) as usize
}

/// What a search answers, given the ranked candidates that the full-text
/// match found (each passing the search's filters) and what was read for
/// each link of the primary results: the primary results are the
/// candidates kept by `primary_selection`; when links are asked for and the
/// primary results fit in the budget, the linked memories are those that
/// `expand_from` keeps, starting from the primary results' ids and tokens;
/// otherwise there are none.
pub open spec fn search_answer(
    res: SearchResult,
    p: QueryMemoryParams,
    cands: Seq<MemoryWithLinks>,
    fetched: Seq<Seq<Option<MemoryWithLinks>>>,
    now: Timestamp,
) -> bool {
    let budget = p.token_budget as usize;
    let sel = primary_selection(cands, max_results(p.k), budget);
    let prims = res.primary_memories@;
    &&& forall|i: int| 0 <= i < cands.len() ==> {
        &&& passes_other_filters((#[trigger] cands[i]).memory, p, now)
        &&& passes_project_filter(p, cands[i].project_ids@)
        &&& memory_read(cands[i].memory)
    }
    &&& prims == cands.take(sel.0 as int)
    &&& res.total_count == (if prims.len() + res.linked_memories.len() <= usize::MAX {
        prims.len() + res.linked_memories.len()
    } else {
        usize::MAX as int
    })
    &&& res.truncated == (res.token_count >= budget)
    &&& if p.include_links && sel.1 <= budget {
        let ex = expand_from(prims, fetched, memory_ids(prims).to_set(), sel.1, p.max_links_per_primary as int,
            budget as int, 0);
        &&& fetched.len() == prims.len()
        &&& forall|j: int| 0 <= j < prims.len() ==> (#[trigger] fetched[j]).len() == prims[j].linked_memory_ids.len()
        &&& entries_match(res.linked_memories@, ex.0, prims, fetched)
        &&& res.token_count == ex.1
    } else {
        &&& res.linked_memories.len() == 0
        &&& res.token_count == sel.1
    }
}

/// What was read for a link: the memory loaded for its id, or nothing
/// when no memory could be loaded for it.
pub open spec fn link_fetched(id: i64, f: Option<MemoryWithLinks>) -> bool {
    match f {
        Some(m) => memory_loaded(id, m),
        None => memory_unloadable(id),
    }
}

/// The context words of a search, as text.
pub open spec fn context_view(p: QueryMemoryParams) -> Option<Seq<char>> {
    match p.query_context {
        Some(c) => Some(c@),
        None => None,
    }
}

/// Where a search's inputs came from: the candidates are those that
/// `search_list_of` keeps of SQLite's answer to the full-text query built
/// from the search's words (see `fts_query`), and what was read for each
/// link of each primary result is what `link_fetched` says.
pub open spec fn search_read(
    p: QueryMemoryParams,
    now: Timestamp,
    cands: Seq<MemoryWithLinks>,
    prims: Seq<MemoryWithLinks>,
    fetched: Seq<Seq<Option<MemoryWithLinks>>>,
) -> bool {
    &&& exists|rows: Seq<Vec<SqlValue>>|
        #[trigger] answered(SEARCH_CANDIDATES@, seq![Bound::Text(crate::text::fts_query(p.query@, context_view(p)))], rows)
        && search_list_of(rows, p, now, cands)
    &&& forall|j: int, k: int| 0 <= j < fetched.len() && 0 <= k < fetched[j].len()
        ==> link_fetched(prims[j].linked_memory_ids@[k], #[trigger] fetched[j][k])
}

/// The links behind the linked memories of a search answer, each as
/// (primary index, link position).
pub open spec fn linked_picks(
    res: SearchResult,
    p: QueryMemoryParams,
    cands: Seq<MemoryWithLinks>,
    fetched: Seq<Seq<Option<MemoryWithLinks>>>,
) -> Seq<(int, int)> {
    let budget = p.token_budget as usize;
    let sel = primary_selection(cands, max_results(p.k), budget);
    let prims = res.primary_memories@;
    expand_from(prims, fetched, memory_ids(prims).to_set(), sel.1, p.max_links_per_primary as int, budget as int, 0).0
}

/// What every search answers: the total counted is the number of primary
/// results and linked memories together; the primary results are the leading ranked
/// candidates, each the latest version of its memory, neither obsolete
/// nor forgotten, in one of the projects asked for (when some are), of the
/// least importance, in the container and with one of the tags asked for
/// (when they are), at most `k` and at most 20 of them, and at least one when
/// there is a candidate and `k` is positive; the tokens counted exceed the
/// budget only for a single primary result with no linked memory; each
/// linked memory is the latest version of its memory, neither obsolete nor
/// forgotten, and reached by a link of
/// a primary result, whose id is none of the primary results' ids and is
/// taken once; at most `max_links_per_primary` come from any one primary
/// result.
pub proof fn lemma_search_answer(
    res: SearchResult,
    p: QueryMemoryParams,
    cands: Seq<MemoryWithLinks>,
    fetched: Seq<Seq<Option<MemoryWithLinks>>>,
    now: Timestamp,
)
    requires
        search_answer(res, p, cands, fetched, now),
    ensures
        ({
            let prims = res.primary_memories@;
            let linked = res.linked_memories@;
            let picks = linked_picks(res, p, cands, fetched);
            &&& prims == cands.take(prims.len() as int)
            &&& prims.len() + linked.len() <= usize::MAX ==> res.total_count == prims.len() + linked.len()
            &&& forall|i: int| 0 <= i < prims.len() ==> {
                &&& (#[trigger] prims[i]).memory.is_latest
                &&& !prims[i].memory.is_obsolete
                &&& !prims[i].memory.is_forgotten
                &&& passes_project_filter(p, prims[i].project_ids@)
                &&& (p.min_importance matches Some(min) ==> prims[i].memory.importance >= min)
                &&& (p.container_tag matches Some(ct) ==> (prims[i].memory.container_tag matches Some(c) && c@ == ct@))
                &&& (p.tags@.len() > 0 ==> any_shared(p.tags.deep_view(), prims[i].memory.tags.deep_view()))
            }
            &&& 0 <= p.k ==> prims.len() <= p.k && prims.len() <= 20
            &&& (cands.len() > 0 && p.k > 0) ==> prims.len() >= 1
            &&& res.token_count > p.token_budget as usize ==> prims.len() <= 1 && linked.len() == 0
            &&& linked.len() > 0 ==> linked.len() == picks.len()
            &&& forall|i: int| 0 <= i < linked.len() ==> {
                &&& 0 <= (#[trigger] picks[i]).0 < prims.len()
                &&& linked[i].link_source_id == prims[picks[i].0].memory.id
                &&& linked[i].memory.memory.is_latest
                &&& !linked[i].memory.memory.is_obsolete
                &&& !linked[i].memory.memory.is_forgotten
                &&& !memory_ids(prims).contains(picked_link_id(prims, picks[i]))
            }
            &&& forall|i: int, j: int| 0 <= i < j < linked.len() ==> {
                &&& picked_link_id(prims, picks[i]) != picked_link_id(prims, picks[j])
                &&& picks[i].0 <= picks[j].0
                &&& picks[i].0 == picks[j].0 ==> j - i < p.max_links_per_primary
            }
        }),
{
    let budget = p.token_budget as usize;
    let sel = primary_selection(cands, max_results(p.k), budget);
    let prims = res.primary_memories@;
    lemma_primary_selection(cands, max_results(p.k), budget);
    assert forall|i: int| 0 <= i < prims.len() implies (#[trigger] prims[i]).memory.is_latest
        && !prims[i].memory.is_obsolete && !prims[i].memory.is_forgotten
        && passes_project_filter(p, prims[i].project_ids@) by {
        assert(prims[i] == cands[i]);
    }
    if p.include_links && sel.1 <= budget {
        lemma_expand_from(prims, fetched, memory_ids(prims).to_set(), sel.1, p.max_links_per_primary as int,
            budget as int, 0);
        let picks = linked_picks(res, p, cands, fetched);
        assert forall|i: int| 0 <= i < res.linked_memories@.len() implies
            res.linked_memories@[i].memory.memory.is_latest
            && !res.linked_memories@[i].memory.memory.is_obsolete && !res.linked_memories@[i].memory.memory.is_forgotten by {
            assert(usable_link(fetched[picks[i].0][picks[i].1]));
        }
    }
}

/// In a search that read its links from the store, each linked memory is
/// the memory loaded for the link id it was reached by; so no memory comes
/// twice: the linked memories' ids differ from each other and from every
/// primary result's id.
pub proof fn lemma_search_links_loaded(
    res: SearchResult,
    p: QueryMemoryParams,
    cands: Seq<MemoryWithLinks>,
    fetched: Seq<Seq<Option<MemoryWithLinks>>>,
    now: Timestamp,
)
    requires
        search_answer(res, p, cands, fetched, now),
        search_read(p, now, cands, res.primary_memories@, fetched),
    ensures
        ({
            let prims = res.primary_memories@;
            let linked = res.linked_memories@;
            let picks = linked_picks(res, p, cands, fetched);
            &&& forall|i: int| 0 <= i < linked.len()
                ==> memory_loaded(picked_link_id(prims, picks[i]), #[trigger] linked[i].memory)
            &&& forall|i: int, j: int| 0 <= i < j < linked.len()
                ==> (#[trigger] linked[i]).memory.memory.id != (#[trigger] linked[j]).memory.memory.id
            &&& forall|i: int, k: int| 0 <= i < linked.len() && 0 <= k < prims.len()
                ==> (#[trigger] linked[i]).memory.memory.id != (#[trigger] prims[k]).memory.id
        }),
{
    let budget = p.token_budget as usize;
    let sel = primary_selection(cands, max_results(p.k), budget);
    let prims = res.primary_memories@;
    let linked = res.linked_memories@;
    lemma_primary_selection(cands, max_results(p.k), budget);
    if p.include_links && sel.1 <= budget {
        lemma_expand_from(prims, fetched, memory_ids(prims).to_set(), sel.1, p.max_links_per_primary as int,
            budget as int, 0);
        let picks = linked_picks(res, p, cands, fetched);
        assert forall|i: int| 0 <= i < linked.len() implies
            memory_loaded(picked_link_id(prims, picks[i]), #[trigger] linked[i].memory) by {
            let f = fetched[picks[i].0][picks[i].1];
            assert(f == Some(linked[i].memory));
            assert(link_fetched(prims[picks[i].0].linked_memory_ids@[picks[i].1], f));
        }
        assert forall|i: int, j: int| 0 <= i < j < linked.len()
            implies (#[trigger] linked[i]).memory.memory.id != (#[trigger] linked[j]).memory.memory.id by {
            assert(memory_loaded(picked_link_id(prims, picks[i]), linked[i].memory));
            assert(memory_loaded(picked_link_id(prims, picks[j]), linked[j].memory));
        }
        assert forall|i: int, k: int| 0 <= i < linked.len() && 0 <= k < prims.len()
            implies (#[trigger] linked[i]).memory.memory.id != (#[trigger] prims[k]).memory.id by {
            assert(memory_loaded(picked_link_id(prims, picks[i]), linked[i].memory));
            assert(memory_ids(prims)[k] == prims[k].memory.id);
        }
    }
}

/// The text whose words find memories similar to `m`: title, content and
/// keywords, separated by spaces.
pub open spec fn join_space(ws: Seq<Seq<char>>) -> Seq<char>
    decreases ws.len(),
{
    if ws.len() == 0 {
        seq![]
    } else if ws.len() == 1 {
        ws[0]
    } else {
        join_space(ws.drop_last()) + seq![' '] + ws.last()
    }
}

pub open spec fn similarity_text(m: Memory) -> Seq<char> {
    m.title@ + seq![' '] + m.content@ + seq![' '] + join_space(m.keywords.deep_view())
}

pub fn similarity_source(m: &Memory) -> (r: String)
    ensures
        r@ == similarity_text(*m),
{
    let mut s = m.title.clone();
    push_char(&mut s, ' ');
    s.append(m.content.as_str());
    push_char(&mut s, ' ');
    let ghost prefix = s@;
    let n = m.keywords.len();
    let mut i: usize = 0;
    while i < n
        invariant
            n == m.keywords.len(),
            i <= n,
            s@ == prefix + join_space(m.keywords.deep_view().take(i as int)),
        decreases n - i,
    {
        let ghost kv = m.keywords.deep_view();
        assert(kv.take(i + 1).drop_last() =~= kv.take(i as int));
        assert(kv.take(i + 1).last() == m.keywords[i as int]@);
        if i > 0 {
            push_char(&mut s, ' ');
        } else {
            assert(kv.take(1) =~= seq![kv[0]]);
        }
        s.append(m.keywords[i].as_str());
        i = i + 1;
        assert(s@ =~= prefix + join_space(kv.take(i as int)));
    }
    assert(m.keywords.deep_view().take(n as int) =~= m.keywords.deep_view());
    assert(s@ =~= similarity_text(*m));
    s
}

/// The columns an update of a memory sets besides `updated_at`, in order.
pub open spec fn memory_update_cols(p: UpdateMemoryParams) -> Seq<Seq<char>> {
    col_if(p.title is Some, "title"@) + col_if(p.content is Some, "content"@)
        + col_if(p.context is Some, "context"@) + col_if(p.importance is Some, "importance"@)
        + col_if(p.source_repo is Some, "source_repo"@) + col_if(p.source_url is Some, "source_url"@)
        + col_if(p.confidence is Some, "confidence"@) + col_if(p.container_tag is Some, "container_tag"@)
        + col_if(p.keywords is Some, "keywords"@) + col_if(p.tags is Some, "tags"@)
        + col_if(p.source_files is Some, "source_files"@)
}

/// Updates of a memory are partial: the columns an update sets, besides
/// its update time, are exactly those whose new value was given.
#[verifier::spinoff_prover]
pub proof fn lemma_memory_update_patch(p: UpdateMemoryParams)
    ensures
        memory_update_cols(p).contains("title"@) <==> p.title is Some,
        memory_update_cols(p).contains("content"@) <==> p.content is Some,
        memory_update_cols(p).contains("context"@) <==> p.context is Some,
        memory_update_cols(p).contains("importance"@) <==> p.importance is Some,
        memory_update_cols(p).contains("source_repo"@) <==> p.source_repo is Some,
        memory_update_cols(p).contains("source_url"@) <==> p.source_url is Some,
        memory_update_cols(p).contains("confidence"@) <==> p.confidence is Some,
        memory_update_cols(p).contains("container_tag"@) <==> p.container_tag is Some,
        memory_update_cols(p).contains("keywords"@) <==> p.keywords is Some,
        memory_update_cols(p).contains("tags"@) <==> p.tags is Some,
        memory_update_cols(p).contains("source_files"@) <==> p.source_files is Some,
{
    reveal_strlit("title");
    reveal_strlit("content");
    reveal_strlit("context");
    reveal_strlit("importance");
    reveal_strlit("source_repo");
    reveal_strlit("source_url");
    reveal_strlit("confidence");
    reveal_strlit("container_tag");
    reveal_strlit("keywords");
    reveal_strlit("tags");
    reveal_strlit("source_files");
    assert("title"@.len() == 5);
    assert("content"@.len() == 7);
    assert("context"@.len() == 7);
    assert("importance"@.len() == 10);
    assert("source_repo"@.len() == 11);
    assert("source_url"@.len() == 10);
    assert("confidence"@.len() == 10);
    assert("container_tag"@.len() == 13);
    assert("keywords"@.len() == 8);
    assert("tags"@.len() == 4);
    assert("source_files"@.len() == 12);
    assert("content"@[5] != "context"@[5]);
    assert("importance"@[0] != "source_url"@[0] && "importance"@[0] != "confidence"@[0] && "source_url"@[0] != "confidence"@[0]);
    lemma_contains_col_if_alone(p.title is Some, "title"@);
    let mut cols: Seq<Seq<char>> = col_if(p.title is Some, "title"@);
    lemma_contains_col_if(cols, p.content is Some, "content"@);
    cols = cols + col_if(p.content is Some, "content"@);
    lemma_contains_col_if(cols, p.context is Some, "context"@);
    cols = cols + col_if(p.context is Some, "context"@);
    lemma_contains_col_if(cols, p.importance is Some, "importance"@);
    cols = cols + col_if(p.importance is Some, "importance"@);
    lemma_contains_col_if(cols, p.source_repo is Some, "source_repo"@);
    cols = cols + col_if(p.source_repo is Some, "source_repo"@);
    lemma_contains_col_if(cols, p.source_url is Some, "source_url"@);
    cols = cols + col_if(p.source_url is Some, "source_url"@);
    lemma_contains_col_if(cols, p.confidence is Some, "confidence"@);
    cols = cols + col_if(p.confidence is Some, "confidence"@);
    lemma_contains_col_if(cols, p.container_tag is Some, "container_tag"@);
    cols = cols + col_if(p.container_tag is Some, "container_tag"@);
    lemma_contains_col_if(cols, p.keywords is Some, "keywords"@);
    cols = cols + col_if(p.keywords is Some, "keywords"@);
    lemma_contains_col_if(cols, p.tags is Some, "tags"@);
    cols = cols + col_if(p.tags is Some, "tags"@);
    lemma_contains_col_if(cols, p.source_files is Some, "source_files"@);
    cols = cols + col_if(p.source_files is Some, "source_files"@);
    assert(cols == memory_update_cols(p));
}

/// The values an update of a memory binds for its columns (see
/// `memory_update_cols`), in order, given those bound for its three lists.
pub open spec fn memory_update_vals(p: UpdateMemoryParams, keywords: Seq<Bound>, tags: Seq<Bound>, source_files: Seq<Bound>) -> Seq<Bound> {
    text_if(p.title) + text_if(p.content) + text_if(p.context)
        + (match p.importance { Some(i) => seq![Bound::Integer(i as i64)], None => Seq::<Bound>::empty() })
        + text_if(p.source_repo) + text_if(p.source_url) + number_if(p.confidence) + text_if(p.container_tag)
        + keywords + tags + source_files
}

/// `vals` are the values an update of a memory binds: each given field's
/// new value, in the order of `memory_update_cols` (see `list_if_ok`).
pub open spec fn memory_update_bound(p: UpdateMemoryParams, vals: Seq<Bound>) -> bool {
    exists|kw: Seq<Bound>, tg: Seq<Bound>, sf: Seq<Bound>|
        list_if_ok(p.keywords, kw) && list_if_ok(p.tags, tg) && list_if_ok(p.source_files, sf)
        && vals == #[trigger] memory_update_vals(p, kw, tg, sf)
}

/// The columns and values of an update of a memory (see `memory_update_cols`).
#[verifier::spinoff_prover]
#[verifier::rlimit(40)]
pub fn memory_update_columns(p: &UpdateMemoryParams) -> (r: (Vec<&'static str>, Vec<SqlValue>))
    ensures
        views(r.0@) == memory_update_cols(*p),
        memory_update_bound(*p, bound_all(r.1@)),
        r.0.len() == r.1.len(),
        r.0.len() <= 11,
{
    let mut cols: Vec<&'static str> = Vec::new();
    let mut vals: Vec<SqlValue> = Vec::new();
    assert(views(cols@) =~= Seq::<Seq<char>>::empty());
    assert(bound_all(vals@) =~= Seq::<Bound>::empty());
    add_if(&mut cols, &mut vals, "title", given_text(&p.title));
    assert(bound_all(vals@) =~= text_if(p.title));
    let ghost acc = text_if(p.title);
    add_if(&mut cols, &mut vals, "content", given_text(&p.content));
    proof { acc = acc + text_if(p.content); }
    add_if(&mut cols, &mut vals, "context", given_text(&p.context));
    proof { acc = acc + text_if(p.context); }
    let importance = match p.importance { Some(v) => Some(SqlValue::Integer(v as i64)), None => None };
    assert(val_if(importance) == (match p.importance { Some(i) => seq![Bound::Integer(i as i64)], None => Seq::<Bound>::empty() }));
    add_if(&mut cols, &mut vals, "importance", importance);
    proof { acc = acc + val_if(importance); }
    add_if(&mut cols, &mut vals, "source_repo", given_text(&p.source_repo));
    proof { acc = acc + text_if(p.source_repo); }
    add_if(&mut cols, &mut vals, "source_url", given_text(&p.source_url));
    proof { acc = acc + text_if(p.source_url); }
    let confidence = match &p.confidence { Some(v) => Some(number_value(v)), None => None };
    assert(val_if(confidence) == number_if(p.confidence));
    add_if(&mut cols, &mut vals, "confidence", confidence);
    proof { acc = acc + number_if(p.confidence); }
    add_if(&mut cols, &mut vals, "container_tag", given_text(&p.container_tag));
    proof { acc = acc + text_if(p.container_tag); }
    assert(bound_all(vals@) == acc);
    let keywords = given_list(&p.keywords);
    let ghost kw = val_if(keywords);
    add_if(&mut cols, &mut vals, "keywords", keywords);
    let tags = given_list(&p.tags);
    let ghost tg = val_if(tags);
    add_if(&mut cols, &mut vals, "tags", tags);
    let source_files = given_list(&p.source_files);
    let ghost sf = val_if(source_files);
    add_if(&mut cols, &mut vals, "source_files", source_files);
    assert(views(cols@) =~= memory_update_cols(*p));
    assert(bound_all(vals@) == acc + kw + tg + sf);
    assert(memory_update_vals(*p, kw, tg, sf) == acc + kw + tg + sf);
    (cols, vals)
}

/// `out` is what reading the memories `ids` in order gives, keeping only
/// those in one of `project_ids` (when some are given): each id whose
/// memory cannot be read is passed over (see `memory_loaded`,
/// `memory_unloadable`).
pub open spec fn loaded_list(ids: Seq<i64>, project_ids: Seq<i64>, out: Seq<MemoryWithLinks>) -> bool
    decreases ids.len(),
{
    if ids.len() == 0 {
        out.len() == 0
    } else {
        let id = ids.last();
        ||| out.len() > 0 && memory_loaded(id, out.last()) && passes_project_list(project_ids, out.last().project_ids@)
            && loaded_list(ids.drop_last(), project_ids, out.drop_last())
        ||| (memory_unloadable(id) || exists|m: MemoryWithLinks| #[trigger] memory_loaded(id, m)
                && !passes_project_list(project_ids, m.project_ids@))
            && loaded_list(ids.drop_last(), project_ids, out)
    }
}

pub const RECENT_MEMORIES: &'static str = "SELECT id FROM memories WHERE is_obsolete = 0 AND is_forgotten = 0 ORDER BY updated_at DESC LIMIT ?1";

pub const RECENT_IN_CONTAINER: &'static str = "SELECT id FROM memories WHERE is_obsolete = 0 AND is_forgotten = 0 AND container_tag = ?2 ORDER BY updated_at DESC LIMIT ?1";

pub const SIMILAR_MEMORIES: &'static str = "SELECT m.id FROM memories_fts fts
             JOIN memories m ON m.id = fts.rowid
             WHERE memories_fts MATCH ?1
             AND m.is_obsolete = 0 AND m.is_forgotten = 0
             AND m.id != ?2
             ORDER BY bm25(memories_fts) * (CAST(m.importance AS REAL) / 10.0)
             LIMIT ?3";

pub const PARENT_OF: &'static str = "SELECT parent_memory_id FROM memories WHERE id = ?1";

pub const VERSION_CHAIN: &'static str = "WITH RECURSIVE chain(id) AS (
                SELECT ?1
                UNION ALL
                SELECT m.id FROM memories m JOIN chain c ON m.parent_memory_id = c.id
            )
            SELECT id FROM chain ORDER BY id";

/// The query of the most recent memories, in a container when one is given.
pub open spec fn recent_query(container_tag: Option<Seq<char>>) -> Seq<char> {
    if container_tag is Some { RECENT_IN_CONTAINER@ } else { RECENT_MEMORIES@ }
}

/// The values bound to the query of the most recent memories.
pub open spec fn recent_params(limit: i32, container_tag: Option<Seq<char>>) -> Seq<Bound> {
    match container_tag {
        Some(c) => seq![Bound::Integer(limit as i64), Bound::Text(c)],
        None => seq![Bound::Integer(limit as i64)],
    }
}

/// `v` are the memories similar to memory `id` (see `search_similar`):
/// `mem` is that memory as read, `rows` the ids SQLite answered to the
/// search for the words of its title, content and keywords.
pub open spec fn similar_from(id: i64, k: i32, mem: MemoryWithLinks, rows: Seq<Vec<SqlValue>>, v: Seq<MemoryWithLinks>) -> bool {
    &&& memory_loaded(id, mem)
    &&& answered(SIMILAR_MEMORIES@, seq![
            Bound::Text(crate::text::fts_query(similarity_text(mem.memory), None)),
            Bound::Integer(id),
            Bound::Integer(k as i64),
        ], rows)
    &&& loaded_list(first_ints(rows), Seq::<i64>::empty(), v)
}

/// SQLite answered, for memory `id`, a first row whose parent column
/// reads as `parent`.
pub open spec fn parent_answered(id: i64, parent: Option<i64>) -> bool {
    exists|row: Vec<SqlValue>| #[trigger] first_answer(PARENT_OF@, seq![Bound::Integer(id)], Some(row))
        && opt_int_of(row@[0]) == Some(parent)
}

/// Memory `id` has no readable row for its parent link: SQLite answered no
/// row for it, or one whose parent column is neither an id nor empty.
pub open spec fn parent_unreadable(id: i64) -> bool {
    exists|first: Option<Vec<SqlValue>>| #[trigger] first_answer(PARENT_OF@, seq![Bound::Integer(id)], first)
        && (first matches Some(row) ==> opt_int_of(row@[0]) is None)
}

/// `v` is the version chain of memory `start`: parent links followed
/// along `path` up to a root without parent, then the memories whose ids
/// SQLite answered (`rows`) to the query of that root and its descendants.
pub open spec fn chain_from(start: i64, path: Seq<i64>, rows: Seq<Vec<SqlValue>>, v: Seq<MemoryWithLinks>) -> bool {
    &&& parent_path(path, start, path.last())
    &&& parent_answered(path.last(), None)
    &&& answered(VERSION_CHAIN@, seq![Bound::Integer(path.last())], rows)
    &&& loaded_list(first_ints(rows), Seq::<i64>::empty(), v)
}

/// Following parent links from `start`, as SQLite answered them, leads
/// along `path` to `root`, which has no parent.
pub open spec fn parent_path(path: Seq<i64>, start: i64, root: i64) -> bool {
    &&& path.len() > 0 && path[0] == start && path.last() == root
    &&& forall|i: int| 0 <= i < path.len() - 1 ==> #[trigger] parent_answered(path[i], Some(path[i + 1]))
}

pub const SEARCH_CANDIDATES: &'static str = "SELECT m.id, m.user_id, m.title, m.content, m.context, m.keywords, m.tags,
             m.importance, m.is_obsolete, m.obsolete_reason, m.superseded_by, m.obsoleted_at,
             m.source_repo, m.source_files, m.source_url, m.confidence, m.encoding_agent, m.encoding_version,
             m.version, m.parent_memory_id, m.is_latest, m.relationship_type,
             m.forget_after, m.is_forgotten, m.forgotten_at, m.memory_type, m.container_tag,
             m.created_at, m.updated_at,
             bm25(memories_fts, 5.0, 3.0, 2.0, 1.0, 1.0) as rank
             FROM memories_fts fts
             JOIN memories m ON m.id = fts.rowid
             WHERE memories_fts MATCH ?1
             AND m.is_obsolete = 0 AND m.is_forgotten = 0
             ORDER BY (rank * (CAST(m.importance AS REAL) / 10.0))
             LIMIT 50";

/// Whether the rank column of a search row holds a number.
pub open spec fn ranked(v: SqlValue) -> bool {
    v is Integer || v is Real
}

/// A search row (29 columns of a memory, then its rank) gives the
/// candidate `m`: it is ranked, its memory reads as `m`'s, which is in one
/// of the projects asked for (its projects as SQLite answered them), passes
/// the other filters at the time `now`, and has its links as answered.
pub open spec fn search_kept(row: Seq<SqlValue>, p: QueryMemoryParams, now: Timestamp, m: MemoryWithLinks) -> bool {
    &&& ranked(row[29])
    &&& memory_row_valid(row.take(29)) && memory_from_row(row.take(29), m.memory)
    &&& p.project_ids@.len() > 0 ==> ids_answered(
        memory_assoc_sql("memory_project_association"@, "project_id"@), m.memory.id, m.project_ids@)
    &&& passes_project_filter(p, m.project_ids@)
    &&& passes_other_filters(m.memory, p, now)
    &&& links_answered(m, p.project_ids@.len() > 0)
}

/// A search row gives no candidate: it is not ranked, its memory cannot be
/// read, or the memory is in none of the projects asked for, or fails the
/// other filters at the time `now`.
pub open spec fn search_dropped(row: Seq<SqlValue>, p: QueryMemoryParams, now: Timestamp) -> bool {
    ||| !ranked(row[29])
    ||| !memory_row_valid(row.take(29))
    ||| exists|mem: Memory| #[trigger] memory_from_row(row.take(29), mem) && (
        (p.project_ids@.len() > 0 && exists|pids: Seq<i64>| #[trigger] ids_answered(
            memory_assoc_sql("memory_project_association"@, "project_id"@), mem.id, pids)
            && !crate::search::any_shared(p.project_ids@, pids))
        || !passes_other_filters(mem, p, now))
}

/// `out` are the candidates the search rows give, in order (see
/// `search_kept`, `search_dropped`).
pub open spec fn search_list_of(rows: Seq<Vec<SqlValue>>, p: QueryMemoryParams, now: Timestamp, out: Seq<MemoryWithLinks>) -> bool
    decreases rows.len(),
{
    if rows.len() == 0 {
        out.len() == 0
    } else {
        let row = rows.last()@;
        ||| out.len() > 0 && search_kept(row, p, now, out.last()) && search_list_of(rows.drop_last(), p, now, out.drop_last())
        ||| search_dropped(row, p, now) && search_list_of(rows.drop_last(), p, now, out)
    }
}

/// `similar` are the memories the search for memories similar to memory
/// `id` (at most three) answered: those a new memory is linked to.
pub open spec fn auto_linked(id: i64, similar: Seq<MemoryWithLinks>) -> bool {
    exists|mem: MemoryWithLinks, rows: Seq<Vec<SqlValue>>| #[trigger] similar_from(id, 3, mem, rows, similar)
}

pub const PARENT_ROW: &'static str = "SELECT version, user_id FROM memories WHERE id = ?1";

/// SQLite answered, for the parent memory `id`, a first row of its version
/// and owner.
pub open spec fn parent_row(id: i64, version: i32, owner: Seq<char>) -> bool {
    exists|row: Vec<SqlValue>| #[trigger] first_answer(PARENT_ROW@, seq![Bound::Integer(id)], Some(row))
        && i32_of(row@[0]) == Some(version) && text_of(row@[1]) == Some(owner)
}

/// No parent memory `id` can be read: SQLite answered no row for it, or
/// one whose version or owner does not read.
pub open spec fn parent_missing(id: i64) -> bool {
    exists|first: Option<Vec<SqlValue>>| #[trigger] first_answer(PARENT_ROW@, seq![Bound::Integer(id)], first)
        && (first matches Some(row) ==> (i32_of(row@[0]) is None || text_of(row@[1]) is None))
}

pub const LINKED_IDS: &'static str = "SELECT target_id FROM memory_links WHERE source_id = ?1
             UNION
             SELECT source_id FROM memory_links WHERE target_id = ?1";

pub const MEMORY_BY_ID: &'static str = "SELECT id, user_id, title, content, context, keywords, tags, importance, is_obsolete, obsolete_reason, superseded_by, obsoleted_at, source_repo, source_files, source_url, confidence, encoding_agent, encoding_version, version, parent_memory_id, is_latest, relationship_type, forget_after, is_forgotten, forgotten_at, memory_type, container_tag, created_at, updated_at FROM memories WHERE id = ?1";

/// The columns a memory is read with, in order (see `memory_from_row`).
pub open spec fn memory_row_columns() -> Seq<Seq<char>> {
    seq!["id"@, "user_id"@, "title"@, "content"@, "context"@, "keywords"@, "tags"@, "importance"@, "is_obsolete"@, "obsolete_reason"@, "superseded_by"@, "obsoleted_at"@, "source_repo"@, "source_files"@, "source_url"@, "confidence"@, "encoding_agent"@, "encoding_version"@, "version"@, "parent_memory_id"@, "is_latest"@, "relationship_type"@, "forget_after"@, "is_forgotten"@, "forgotten_at"@, "memory_type"@, "container_tag"@, "created_at"@, "updated_at"@]
}

/// `MEMORY_BY_ID` reads `memory_row_columns` of the memory with the id.
#[verifier::rlimit(80)]
pub proof fn lemma_memory_by_id_text()
    ensures
        MEMORY_BY_ID@ == select_from(memory_row_columns(), "memories WHERE id = ?1"@),
{
    let c = memory_row_columns();
    assert(c.skip(1)[0] == c[1]);
    assert(c.skip(2)[0] == c[2]);
    assert(c.skip(3)[0] == c[3]);
    assert(c.skip(4)[0] == c[4]);
    assert(c.skip(5)[0] == c[5]);
    assert(c.skip(6)[0] == c[6]);
    assert(c.skip(7)[0] == c[7]);
    assert(c.skip(8)[0] == c[8]);
    assert(c.skip(9)[0] == c[9]);
    assert(c.skip(10)[0] == c[10]);
    assert(c.skip(11)[0] == c[11]);
    assert(c.skip(12)[0] == c[12]);
    assert(c.skip(13)[0] == c[13]);
    assert(c.skip(14)[0] == c[14]);
    assert(c.skip(15)[0] == c[15]);
    assert(c.skip(16)[0] == c[16]);
    assert(c.skip(17)[0] == c[17]);
    assert(c.skip(18)[0] == c[18]);
    assert(c.skip(19)[0] == c[19]);
    assert(c.skip(20)[0] == c[20]);
    assert(c.skip(21)[0] == c[21]);
    assert(c.skip(22)[0] == c[22]);
    assert(c.skip(23)[0] == c[23]);
    assert(c.skip(24)[0] == c[24]);
    assert(c.skip(25)[0] == c[25]);
    assert(c.skip(26)[0] == c[26]);
    assert(c.skip(27)[0] == c[27]);
    assert(c.skip(28)[0] == c[28]);
    assert(c.skip(29) =~= Seq::<Seq<char>>::empty());
    assert(more_names(c.skip(29)) =~= Seq::<char>::empty());
    assert(c.skip(28).drop_first() =~= c.skip(29));
    assert(more_names(c.skip(28)) =~= ", "@ + c[28] + more_names(c.skip(29)));
    assert(c.skip(27).drop_first() =~= c.skip(28));
    assert(more_names(c.skip(27)) =~= ", "@ + c[27] + more_names(c.skip(28)));
    assert(c.skip(26).drop_first() =~= c.skip(27));
    assert(more_names(c.skip(26)) =~= ", "@ + c[26] + more_names(c.skip(27)));
    assert(c.skip(25).drop_first() =~= c.skip(26));
    assert(more_names(c.skip(25)) =~= ", "@ + c[25] + more_names(c.skip(26)));
    assert(c.skip(24).drop_first() =~= c.skip(25));
    assert(more_names(c.skip(24)) =~= ", "@ + c[24] + more_names(c.skip(25)));
    assert(c.skip(23).drop_first() =~= c.skip(24));
    assert(more_names(c.skip(23)) =~= ", "@ + c[23] + more_names(c.skip(24)));
    assert(c.skip(22).drop_first() =~= c.skip(23));
    assert(more_names(c.skip(22)) =~= ", "@ + c[22] + more_names(c.skip(23)));
    assert(c.skip(21).drop_first() =~= c.skip(22));
    assert(more_names(c.skip(21)) =~= ", "@ + c[21] + more_names(c.skip(22)));
    assert(c.skip(20).drop_first() =~= c.skip(21));
    assert(more_names(c.skip(20)) =~= ", "@ + c[20] + more_names(c.skip(21)));
    assert(c.skip(19).drop_first() =~= c.skip(20));
    assert(more_names(c.skip(19)) =~= ", "@ + c[19] + more_names(c.skip(20)));
    assert(c.skip(18).drop_first() =~= c.skip(19));
    assert(more_names(c.skip(18)) =~= ", "@ + c[18] + more_names(c.skip(19)));
    assert(c.skip(17).drop_first() =~= c.skip(18));
    assert(more_names(c.skip(17)) =~= ", "@ + c[17] + more_names(c.skip(18)));
    assert(c.skip(16).drop_first() =~= c.skip(17));
    assert(more_names(c.skip(16)) =~= ", "@ + c[16] + more_names(c.skip(17)));
    assert(c.skip(15).drop_first() =~= c.skip(16));
    assert(more_names(c.skip(15)) =~= ", "@ + c[15] + more_names(c.skip(16)));
    assert(c.skip(14).drop_first() =~= c.skip(15));
    assert(more_names(c.skip(14)) =~= ", "@ + c[14] + more_names(c.skip(15)));
    assert(c.skip(13).drop_first() =~= c.skip(14));
    assert(more_names(c.skip(13)) =~= ", "@ + c[13] + more_names(c.skip(14)));
    assert(c.skip(12).drop_first() =~= c.skip(13));
    assert(more_names(c.skip(12)) =~= ", "@ + c[12] + more_names(c.skip(13)));
    assert(c.skip(11).drop_first() =~= c.skip(12));
    assert(more_names(c.skip(11)) =~= ", "@ + c[11] + more_names(c.skip(12)));
    assert(c.skip(10).drop_first() =~= c.skip(11));
    assert(more_names(c.skip(10)) =~= ", "@ + c[10] + more_names(c.skip(11)));
    assert(c.skip(9).drop_first() =~= c.skip(10));
    assert(more_names(c.skip(9)) =~= ", "@ + c[9] + more_names(c.skip(10)));
    assert(c.skip(8).drop_first() =~= c.skip(9));
    assert(more_names(c.skip(8)) =~= ", "@ + c[8] + more_names(c.skip(9)));
    assert(c.skip(7).drop_first() =~= c.skip(8));
    assert(more_names(c.skip(7)) =~= ", "@ + c[7] + more_names(c.skip(8)));
    assert(c.skip(6).drop_first() =~= c.skip(7));
    assert(more_names(c.skip(6)) =~= ", "@ + c[6] + more_names(c.skip(7)));
    assert(c.skip(5).drop_first() =~= c.skip(6));
    assert(more_names(c.skip(5)) =~= ", "@ + c[5] + more_names(c.skip(6)));
    assert(c.skip(4).drop_first() =~= c.skip(5));
    assert(more_names(c.skip(4)) =~= ", "@ + c[4] + more_names(c.skip(5)));
    assert(c.skip(3).drop_first() =~= c.skip(4));
    assert(more_names(c.skip(3)) =~= ", "@ + c[3] + more_names(c.skip(4)));
    assert(c.skip(2).drop_first() =~= c.skip(3));
    assert(more_names(c.skip(2)) =~= ", "@ + c[2] + more_names(c.skip(3)));
    assert(c.skip(1).drop_first() =~= c.skip(2));
    assert(more_names(c.skip(1)) =~= ", "@ + c[1] + more_names(c.skip(2)));
    assert(c.drop_first() =~= c.skip(1));
    reveal_strlit("id");
    reveal_strlit("user_id");
    reveal_strlit("title");
    reveal_strlit("content");
    reveal_strlit("context");
    reveal_strlit("keywords");
    reveal_strlit("tags");
    reveal_strlit("importance");
    reveal_strlit("is_obsolete");
    reveal_strlit("obsolete_reason");
    reveal_strlit("superseded_by");
    reveal_strlit("obsoleted_at");
    reveal_strlit("source_repo");
    reveal_strlit("source_files");
    reveal_strlit("source_url");
    reveal_strlit("confidence");
    reveal_strlit("encoding_agent");
    reveal_strlit("encoding_version");
    reveal_strlit("version");
    reveal_strlit("parent_memory_id");
    reveal_strlit("is_latest");
    reveal_strlit("relationship_type");
    reveal_strlit("forget_after");
    reveal_strlit("is_forgotten");
    reveal_strlit("forgotten_at");
    reveal_strlit("memory_type");
    reveal_strlit("container_tag");
    reveal_strlit("created_at");
    reveal_strlit("updated_at");
    reveal_strlit(", ");
    reveal_strlit("id, user_id, title, content, context, keywords, tags, importance, is_obsolete, obsolete_reason, superseded_by, obsoleted_at, source_repo, source_files, source_url, confidence, encoding_agent, encoding_version, version, parent_memory_id, is_latest, relationship_type, forget_after, is_forgotten, forgotten_at, memory_type, container_tag, created_at, updated_at");
    assert(name_list(c) =~= "id, user_id, title, content, context, keywords, tags, importance, is_obsolete, obsolete_reason, superseded_by, obsoleted_at, source_repo, source_files, source_url, confidence, encoding_agent, encoding_version, version, parent_memory_id, is_latest, relationship_type, forget_after, is_forgotten, forgotten_at, memory_type, container_tag, created_at, updated_at"@);
    reveal_strlit("SELECT ");
    reveal_strlit(" FROM ");
    reveal_strlit("memories WHERE id = ?1");
    reveal_strlit("SELECT id, user_id, title, content, context, keywords, tags, importance, is_obsolete, obsolete_reason, superseded_by, obsoleted_at, source_repo, source_files, source_url, confidence, encoding_agent, encoding_version, version, parent_memory_id, is_latest, relationship_type, forget_after, is_forgotten, forgotten_at, memory_type, container_tag, created_at, updated_at FROM memories WHERE id = ?1");
    assert(MEMORY_BY_ID@ =~= select_from(c, "memories WHERE id = ?1"@));
}

/// A memory read from a row of `memory_row_columns` takes each field from
/// the column of that name: its title from `title`, its content from
/// `content`, its context from `context`, its keywords and tags from
/// `keywords` and `tags`, its importance from `importance`, its source
/// repository, files and URL from `source_repo`, `source_files` and
/// `source_url`, its confidence from `confidence`, its encoding agent from
/// `encoding_agent`, its version and parent from `version` and
/// `parent_memory_id`, its type from `memory_type` and its container tag from
/// `container_tag`.
#[verifier::rlimit(60)]
pub proof fn lemma_memory_row_columns(row: Seq<SqlValue>, x: Memory)
    requires
        memory_row_valid(row),
        memory_from_row(row, x),
    ensures
        distinct_names(memory_row_columns()),
        forall|i: int| 0 <= i < 29 && #[trigger] memory_row_columns()[i] == "title"@
            ==> text_of(row[i]) == Some(x.title@),
        forall|i: int| 0 <= i < 29 && #[trigger] memory_row_columns()[i] == "content"@
            ==> text_of(row[i]) == Some(x.content@),
        forall|i: int| 0 <= i < 29 && #[trigger] memory_row_columns()[i] == "context"@
            ==> text_of(row[i]) == Some(x.context@),
        forall|i: int| 0 <= i < 29 && #[trigger] memory_row_columns()[i] == "keywords"@
            ==> string_list_of(row[i]) == Some(x.keywords.deep_view()),
        forall|i: int| 0 <= i < 29 && #[trigger] memory_row_columns()[i] == "tags"@
            ==> string_list_of(row[i]) == Some(x.tags.deep_view()),
        forall|i: int| 0 <= i < 29 && #[trigger] memory_row_columns()[i] == "importance"@
            ==> i32_of(row[i]) == Some(x.importance),
        forall|i: int| 0 <= i < 29 && #[trigger] memory_row_columns()[i] == "source_repo"@
            ==> opt_text_of(row[i]) == Some(view_opt(x.source_repo)),
        forall|i: int| 0 <= i < 29 && #[trigger] memory_row_columns()[i] == "source_files"@
            ==> opt_string_list_of(row[i]) == Some(view_opt_list(x.source_files)),
        forall|i: int| 0 <= i < 29 && #[trigger] memory_row_columns()[i] == "source_url"@
            ==> opt_text_of(row[i]) == Some(view_opt(x.source_url)),
        forall|i: int| 0 <= i < 29 && #[trigger] memory_row_columns()[i] == "confidence"@
            ==> opt_number_of(row[i]) == Some(x.confidence),
        forall|i: int| 0 <= i < 29 && #[trigger] memory_row_columns()[i] == "encoding_agent"@
            ==> opt_text_of(row[i]) == Some(view_opt(x.encoding_agent)),
        forall|i: int| 0 <= i < 29 && #[trigger] memory_row_columns()[i] == "version"@
            ==> i32_of(row[i]) == Some(x.version),
        forall|i: int| 0 <= i < 29 && #[trigger] memory_row_columns()[i] == "parent_memory_id"@
            ==> opt_int_of(row[i]) == Some(x.parent_memory_id),
        forall|i: int| 0 <= i < 29 && #[trigger] memory_row_columns()[i] == "memory_type"@
            ==> text_of(row[i]) == Some(x.memory_type@),
        forall|i: int| 0 <= i < 29 && #[trigger] memory_row_columns()[i] == "container_tag"@
            ==> opt_text_of(row[i]) == Some(view_opt(x.container_tag)),
{
    let c = memory_row_columns();
    reveal_strlit("id");
    reveal_strlit("user_id");
    reveal_strlit("title");
    reveal_strlit("content");
    reveal_strlit("context");
    reveal_strlit("keywords");
    reveal_strlit("tags");
    reveal_strlit("importance");
    reveal_strlit("is_obsolete");
    reveal_strlit("obsolete_reason");
    reveal_strlit("superseded_by");
    reveal_strlit("obsoleted_at");
    reveal_strlit("source_repo");
    reveal_strlit("source_files");
    reveal_strlit("source_url");
    reveal_strlit("confidence");
    reveal_strlit("encoding_agent");
    reveal_strlit("encoding_version");
    reveal_strlit("version");
    reveal_strlit("parent_memory_id");
    reveal_strlit("is_latest");
    reveal_strlit("relationship_type");
    reveal_strlit("forget_after");
    reveal_strlit("is_forgotten");
    reveal_strlit("forgotten_at");
    reveal_strlit("memory_type");
    reveal_strlit("container_tag");
    reveal_strlit("created_at");
    reveal_strlit("updated_at");
    assert forall|a: int, b: int| 0 <= a < c.len() && 0 <= b < c.len() && a != b implies c[a] != c[b] by {
        if c[a] == c[b] {
            assert(c[a].len() == c[b].len());
            assert(c[a][0] == c[b][0]);
            assert(c[a][1] == c[b][1]);
            assert(c[a][2] == c[b][2]);
            assert(c[a][c[a].len() - 1] == c[b][c[b].len() - 1]);
            assert(c[a][c[a].len() - 2] == c[b][c[b].len() - 2]);
        }
    }
}

/// The query of the ids in `val_col` of the association table `table`
/// whose `key_col` is a memory.
pub open spec fn memory_assoc_sql(table: Seq<char>, val_col: Seq<char>) -> Seq<char> {
    assoc_sql(table, "memory_id"@, val_col)
}

/// The links and associations of `m` are what SQLite answered for its
/// memory's id: its linked memories (either direction), and, unless
/// `projects_known`, its projects; then its entities, documents and code
/// artifacts.
pub open spec fn links_answered(m: MemoryWithLinks, projects_known: bool) -> bool {
    let id = m.memory.id;
    &&& ids_answered(LINKED_IDS@, id, m.linked_memory_ids@)
    &&& !projects_known ==> ids_answered(memory_assoc_sql("memory_project_association"@, "project_id"@), id, m.project_ids@)
    &&& ids_answered(memory_assoc_sql("memory_entity_association"@, "entity_id"@), id, m.entity_ids@)
    &&& ids_answered(memory_assoc_sql("memory_document_association"@, "document_id"@), id, m.document_ids@)
    &&& ids_answered(memory_assoc_sql("memory_code_artifact_association"@, "code_artifact_id"@), id, m.code_artifact_ids@)
}

/// One of the queries of the links and associations of memory `id` failed.
pub open spec fn links_failed(id: i64) -> bool {
    let p = seq![Bound::Integer(id)];
    ||| query_failed(LINKED_IDS@, p)
    ||| query_failed(memory_assoc_sql("memory_project_association"@, "project_id"@), p)
    ||| query_failed(memory_assoc_sql("memory_entity_association"@, "entity_id"@), p)
    ||| query_failed(memory_assoc_sql("memory_document_association"@, "document_id"@), p)
    ||| query_failed(memory_assoc_sql("memory_code_artifact_association"@, "code_artifact_id"@), p)
}

/// `m` is what reading memory `id` with its links gives: the memory in the
/// first row SQLite answered for that id, which has that id, and its links
/// as answered.
pub open spec fn memory_loaded(id: i64, m: MemoryWithLinks) -> bool {
    &&& exists|row: Vec<SqlValue>| #[trigger] first_answer(MEMORY_BY_ID@, seq![Bound::Integer(id)], Some(row))
        && memory_from_row(row@, m.memory)
    &&& m.memory.id == id
    &&& links_answered(m, false)
}

/// Memory `id` cannot be read with its links: SQLite answered no readable
/// row of that id for it, or a query of its links failed.
pub open spec fn memory_unloadable(id: i64) -> bool {
    exists|first: Option<Vec<SqlValue>>| #[trigger] first_answer(MEMORY_BY_ID@, seq![Bound::Integer(id)], first)
        && match first {
            None => true,
            Some(row) => !memory_row_valid(row@) || int_of(row@[0]) != Some(id) || links_failed(id),
        }
}

impl Database {
    /// The values of column `val_col` in the rows of `table` whose `key_col`
    /// is `key`.
    pub fn get_assoc_ids_inner(&self, table: &str, key_col: &str, val_col: &str, key: i64) -> (r: Result<Vec<i64>, DbError>)
        ensures
            r matches Ok(ids) ==> ids_answered(assoc_sql(table@, key_col@, val_col@), key, ids@),
            r is Err ==> r->Err_0 is Sqlite && query_failed(assoc_sql(table@, key_col@, val_col@), seq![Bound::Integer(key)]),
    {
        let sql = assoc_statement(table, key_col, val_col);
        let params: Vec<SqlValue> = vec![SqlValue::Integer(key)];
        assert(bound_all(params@) =~= seq![Bound::Integer(key)]);
        let rows = self.query_ok_rows(sql.as_str(), params, 1)?;
        let ghost rv = rows@;
        let ids = ids_of_rows(rows);
        assert(answered(assoc_sql(table@, key_col@, val_col@), seq![Bound::Integer(key)], rv) && ids@ == first_ints(rv));
        Ok(ids)
    }

    /// The ids of the memories linked to a memory, in either direction.
    fn get_linked_ids_inner(&self, memory_id: i64) -> (r: Result<Vec<i64>, DbError>)
        ensures
            r matches Ok(ids) ==> ids_answered(LINKED_IDS@, memory_id, ids@),
            r is Err ==> r->Err_0 is Sqlite && query_failed(LINKED_IDS@, seq![Bound::Integer(memory_id)]),
    {
        let params: Vec<SqlValue> = vec![SqlValue::Integer(memory_id)];
        assert(bound_all(params@) =~= seq![Bound::Integer(memory_id)]);
        let rows = self.query_ok_rows(LINKED_IDS, params, 1)?;
        let ghost rv = rows@;
        let ids = ids_of_rows(rows);
        assert(answered(LINKED_IDS@, seq![Bound::Integer(memory_id)], rv) && ids@ == first_ints(rv));
        Ok(ids)
    }

    /// Gathers the links and associations of a memory; its project ids are
    /// read unless they were already read.
    fn with_links(&self, memory: Memory, known_project_ids: Option<Vec<i64>>) -> (r: Result<MemoryWithLinks, DbError>)
        ensures
            r matches Ok(m) ==> m.memory == memory,
            r matches Ok(m) ==> (known_project_ids matches Some(k) ==> m.project_ids@ == k@),
            r matches Ok(m) ==> links_answered(m, known_project_ids is Some),
            r is Err ==> r->Err_0 is Sqlite && links_failed(memory.id),
    {
        let mid = memory.id;
        let linked_memory_ids = self.get_linked_ids_inner(mid)?;
        let project_ids = match known_project_ids {
            Some(k) => k,
            None => self.get_assoc_ids_inner("memory_project_association", "memory_id", "project_id", mid)?,
        };
        let entity_ids = self.get_assoc_ids_inner("memory_entity_association", "memory_id", "entity_id", mid)?;
        let document_ids = self.get_assoc_ids_inner("memory_document_association", "memory_id", "document_id", mid)?;
        let code_artifact_ids = self.get_assoc_ids_inner("memory_code_artifact_association", "memory_id", "code_artifact_id", mid)?;
        let m = MemoryWithLinks { memory, linked_memory_ids, project_ids, entity_ids, document_ids, code_artifact_ids };
        assert(links_answered(m, known_project_ids is Some));
        Ok(m)
    }

    /// A memory with everything it is linked or associated to.
    pub fn get_memory_with_links(&self, memory_id: i64) -> (r: Result<MemoryWithLinks, DbError>)
        ensures
            r matches Ok(m) ==> memory_read(m.memory),
            r matches Ok(m) ==> memory_loaded(memory_id, m),
            r is Err ==> memory_unloadable(memory_id),
            r matches Err(e) ==> e is Sqlite || e == DbError::NotFound(RecordKind::Memory, memory_id),
    {
        self.get_memory_with_links_inner(memory_id)
    }

    /// A memory with everything it is linked or associated to; a memory
    /// that cannot be read is not found.
    pub fn get_memory_with_links_inner(&self, memory_id: i64) -> (r: Result<MemoryWithLinks, DbError>)
        ensures
            r matches Ok(m) ==> memory_read(m.memory),
            r matches Ok(m) ==> memory_loaded(memory_id, m),
            r is Err ==> memory_unloadable(memory_id),
            r matches Err(e) ==> e is Sqlite || e == DbError::NotFound(RecordKind::Memory, memory_id),
    {
        let params: Vec<SqlValue> = vec![SqlValue::Integer(memory_id)];
        assert(bound_all(params@) =~= seq![Bound::Integer(memory_id)]);
        let row = self.query_first(MEMORY_BY_ID, params, 29);
        let ghost first = row;
        let ghost mut read: Seq<SqlValue> = Seq::empty();
        let memory = match row {
            Some(r) => {
                proof { read = r@; }
                match decode_memory(r) {
                    // SQLite answers the row with that id; one with another
                    // id is taken for no row.
                    Some(m) => if m.id == memory_id {
                        m
                    } else {
                        assert(first_answer(MEMORY_BY_ID@, seq![Bound::Integer(memory_id)], first));
                        return Err(DbError::NotFound(RecordKind::Memory, memory_id));
                    },
                    None => {
                        assert(first_answer(MEMORY_BY_ID@, seq![Bound::Integer(memory_id)], first));
                        return Err(DbError::NotFound(RecordKind::Memory, memory_id));
                    },
                }
            },
            None => {
                assert(first_answer(MEMORY_BY_ID@, seq![Bound::Integer(memory_id)], first));
                return Err(DbError::NotFound(RecordKind::Memory, memory_id));
            },
        };
        let out = self.with_links(memory, None);
        proof {
            assert(first_answer(MEMORY_BY_ID@, seq![Bound::Integer(memory_id)], first));
            if out is Ok {
                assert(memory_from_row(read, out->Ok_0.memory));
            }
        }
        out
    }
}



/// SQLite failed on the full-text query `fts`, or on a query of the links
/// of a memory.
pub open spec fn search_failed(fts: Seq<char>) -> bool {
    ||| query_failed(SEARCH_CANDIDATES@, seq![Bound::Text(fts)])
    ||| exists|id: i64| #[trigger] links_failed(id)
}

impl Database {
    /// The memories that match an FTS5 query, best ranked first (at most
    /// 50, neither obsolete nor forgotten), that pass the project filter and
    /// the other filters of the search at the time `now`, each with its links.
    #[verifier::spinoff_prover]
    fn search_memories_inner(&self, fts_query: &str, p: &QueryMemoryParams, now: &Timestamp) -> (r: Result<Vec<MemoryWithLinks>, DbError>)
        ensures
            r matches Ok(v) ==> forall|i: int| 0 <= i < v.len() ==> {
                &&& passes_other_filters((#[trigger] v@[i]).memory, *p, *now)
                &&& passes_project_filter(*p, v@[i].project_ids@)
                &&& memory_read(v@[i].memory)
            },
            r matches Ok(v) ==> exists|rows: Seq<Vec<SqlValue>>|
                #[trigger] answered(SEARCH_CANDIDATES@, seq![Bound::Text(fts_query@)], rows) && search_list_of(rows, *p, *now, v@),
            r is Err ==> r->Err_0 is Sqlite && search_failed(fts_query@),
    {
        let params: Vec<SqlValue> = vec![SqlValue::Text(fts_query.to_owned())];
        assert(bound_all(params@) =~= seq![Bound::Text(fts_query@)]);
        let rows = self.query_ok_rows(SEARCH_CANDIDATES, params, 30)?;
        let ghost orig = rows@;
        let ghost total = rows@.len();
        let mut rows = reversed_rows(rows);
        let mut results: Vec<MemoryWithLinks> = Vec::new();
        while rows.len() > 0
            invariant
                all_have_width(rows@, 30),
                forall|i: int| 0 <= i < results.len() ==> {
                    &&& passes_other_filters((#[trigger] results@[i]).memory, *p, *now)
                    &&& passes_project_filter(*p, results@[i].project_ids@)
                    &&& memory_read(results@[i].memory)
                },
                rows.len() <= total,
                orig.len() == total,
                forall|j: int| 0 <= j < rows.len() ==> #[trigger] rows@[j] == orig[total - 1 - j],
                search_list_of(orig.take(total - rows.len()), *p, *now, results@),
            decreases rows.len(),
        {
            let ghost before = rows@;
            let ghost done = results@;
            let ghost k = total - rows.len();
            let mut row = rows.pop().unwrap();
            assert(row == before[before.len() - 1]);
            assert(row == orig[k]);
            assert(forall|j: int| 0 <= j < rows.len() ==> #[trigger] rows@[j] == before[j]);
            assert(orig.take(k + 1).drop_last() =~= orig.take(k));
            let ghost full = row@;
            let rank = row.pop().unwrap();
            assert(rank == full[29]);
            assert(row@ =~= full.take(29));
            let ranked = match rank {
                SqlValue::Integer(_) => true,
                SqlValue::Real(_) => true,
                _ => false,
            };
            if ranked {
                let ghost read = row@;
                match decode_memory(row) {
                    None => {
                        assert(!memory_row_valid(full.take(29)));
                        assert(search_dropped(full, *p, *now));
                    },
                    Some(memory) => {
                        assert(memory_from_row(read, memory));
                        let mid = memory.id;
                        let (in_project, known) = if p.project_ids.len() > 0 {
                            let pids = match self.get_assoc_ids_inner("memory_project_association", "memory_id", "project_id", mid) {
                                Ok(v) => v,
                                Err(e) => {
                                    assert(links_failed(mid));
                                    return Err(e);
                                },
                            };
                            (shares_i64(&p.project_ids, &pids), Some(pids))
                        } else {
                            (true, None)
                        };
                        if in_project && check_other_filters(&memory, p, now) {
                            let with = match self.with_links(memory, known) {
                                Ok(w) => w,
                                Err(e) => {
                                    assert(links_failed(mid));
                                    return Err(e);
                                },
                            };
                            let ghost before = results@;
                            results.push(with);
                            assert(results@.drop_last() =~= done);
                            assert(search_kept(full, *p, *now, with));
                            assert forall|i: int| 0 <= i < results.len() implies {
                                &&& passes_other_filters((#[trigger] results@[i]).memory, *p, *now)
                                &&& passes_project_filter(*p, results@[i].project_ids@)
                                &&& memory_read(results@[i].memory)
                            } by {
                                if i < before.len() {
                                    assert(results@[i] == before[i]);
                                } else {
                                    assert(passes_other_filters(results@[i].memory, *p, *now));
                                }
                            }
                        } else {
                            assert(memory_from_row(full.take(29), memory));
                            if !in_project {
                                assert(ids_answered(memory_assoc_sql("memory_project_association"@, "project_id"@),
                                    memory.id, known->Some_0@));
                            } else {
                                assert(!passes_other_filters(memory, *p, *now));
                            }
                            assert(search_dropped(full, *p, *now));
                        }
                    },
                }
            } else {
                assert(search_dropped(full, *p, *now));
            }
            assert(search_list_of(orig.take(k + 1), *p, *now, results@));
        }
        assert(orig.take(total as int) =~= orig);
        Ok(results)
    }

    /// Searches the memories at the time `now` with a natural-language query
    /// (see `build_fts_query`): the ranked candidates that pass the filters, of
    /// which the leading ones that fit in the token budget (at most `k`, and
    /// at most 20) are the primary results; then, when asked, the memories
    /// linked to them that still fit (see `expand_links`).
    pub fn query_memories_at(&self, p: &QueryMemoryParams, now: &Timestamp) -> (r: Result<SearchResult, DbError>)
        ensures
            r matches Ok(res) ==> exists|cands: Seq<MemoryWithLinks>, fetched: Seq<Seq<Option<MemoryWithLinks>>>|
                #![trigger search_answer(res, *p, cands, fetched, *now)]
                search_answer(res, *p, cands, fetched, *now) && search_read(*p, *now, cands, res.primary_memories@, fetched),
            r is Err ==> r->Err_0 is Sqlite && search_failed(crate::text::fts_query(p.query@, context_view(*p))),
    {
        let fts_query = build_fts_query(p.query.as_str(), match &p.query_context {
            Some(c) => Some(c.as_str()),
            None => None,
        });
        let memories = self.search_memories_inner(fts_query.as_str(), p, now)?;
        let ghost cands = memories@;
        let capped: i32 = if p.k < 20 { p.k } else { 20 };
        let max_memories = capped as usize;
        let token_budget = p.token_budget as usize;
        let (primary_memories, used) = select_primary(memories, max_memories, token_budget);
        let ghost prims = primary_memories@;
        let ghost mut fetched_seen: Seq<Seq<Option<MemoryWithLinks>>> = Seq::empty();
        let (linked_memories, token_count) = if p.include_links && used <= token_budget {
            broadcast use vstd::std_specs::hash::group_hash_axioms;
            let mut seen: HashSet<i64> = HashSet::new();
            let mut fetched: Vec<Vec<Option<MemoryWithLinks>>> = Vec::new();
            let n = primary_memories.len();
            let mut k: usize = 0;
            while k < n
                invariant
                    n == primary_memories.len(),
                    k <= n,
                    fetched.len() == k,
                    seen@ == memory_ids(primary_memories@.take(k as int)).to_set(),
                    forall|j: int| 0 <= j < k ==> (#[trigger] fetched@[j]).len() == primary_memories@[j].linked_memory_ids.len(),
                    forall|jj: int, kk: int| 0 <= jj < k && 0 <= kk < fetched@[jj].len()
                        ==> link_fetched(primary_memories@[jj].linked_memory_ids@[kk], #[trigger] fetched@[jj]@[kk]),
                decreases n - k,
            {
                seen.insert(primary_memories[k].memory.id);
                assert(memory_ids(primary_memories@.take(k + 1)) =~= memory_ids(primary_memories@.take(k as int))
                    .push(primary_memories@[k as int].memory.id));
                proof {
                    memory_ids(primary_memories@.take(k as int)).lemma_push_to_set_commute(primary_memories@[k as int].memory.id);
                }
                let ids = &primary_memories[k].linked_memory_ids;
                let mut these: Vec<Option<MemoryWithLinks>> = Vec::new();
                let mut j: usize = 0;
                while j < ids.len()
                    invariant
                        j <= ids.len(),
                        these.len() == j,
                        forall|i: int| 0 <= i < j ==> link_fetched(ids@[i], #[trigger] these@[i]),
                    decreases ids.len() - j,
                {
                    these.push(match self.get_memory_with_links_inner(ids[j]) {
                        Ok(m) => Some(m),
                        Err(_) => None,
                    });
                    j = j + 1;
                }
                let ghost before = fetched@;
                fetched.push(these);
                assert forall|jj: int, kk: int| 0 <= jj < k + 1 && 0 <= kk < fetched@[jj].len()
                    implies link_fetched(primary_memories@[jj].linked_memory_ids@[kk], #[trigger] fetched@[jj]@[kk]) by {
                    if jj < k {
                        assert(fetched@[jj] == before[jj]);
                    }
                }
                k = k + 1;
            }
            assert(primary_memories@.take(n as int) =~= primary_memories@);
            proof {
                fetched_seen = fetched_view(fetched@);
            }
            expand_links(&primary_memories, fetched, seen, used, p.max_links_per_primary, token_budget)
        } else {
            (Vec::new(), used)
        };
        assert(max_memories == max_results(p.k));
        assert(token_budget == p.token_budget as usize);
        let total_count = match primary_memories.len().checked_add(linked_memories.len()) {
            Some(t) => t,
            None => usize::MAX,
        };
        let answer = SearchResult {
            total_count,
            truncated: token_count >= token_budget,
            token_count,
            primary_memories,
            linked_memories,
        };
        let out: Result<SearchResult, DbError> = Ok(answer);
        assert(search_answer(out->Ok_0, *p, cands, fetched_seen, *now));
        assert(search_read(*p, *now, cands, prims, fetched_seen));
        out
    }

    /// Searches the memories at the time the clock gives (see
    /// `query_memories_at`); an error when the clock gives no time.
    pub fn query_memories(&self, p: &QueryMemoryParams) -> (r: Result<SearchResult, DbError>)
        ensures
            r matches Ok(res) ==> exists|now: Timestamp, cands: Seq<MemoryWithLinks>, fetched: Seq<Seq<Option<MemoryWithLinks>>>|
                #![trigger search_answer(res, *p, cands, fetched, now)]
                search_answer(res, *p, cands, fetched, now) && search_read(*p, now, cands, res.primary_memories@, fetched),
            r matches Err(e) ==> e is InvalidTimestamp
                || (e is Sqlite && search_failed(crate::text::fts_query(p.query@, context_view(*p)))),
    {
        let now = match utc_now() {
            Some(t) => t,
            None => { return Err(DbError::InvalidTimestamp); },
        };
        self.query_memories_at(p, &now)
    }
}

/// The rows in reverse order, so that popping yields them first to last.
fn reversed_rows(rows: Vec<Vec<SqlValue>>) -> (r: Vec<Vec<SqlValue>>)
    requires
        all_have_width(rows@, 30),
    ensures
        all_have_width(r@, 30),
        r@ == rows@.reverse(),
{
    let r = crate::search::reversed(rows);
    assert forall|i: int| 0 <= i < r@.len() implies (#[trigger] r@[i]).len() == 30 by {
        assert(r@[i] == rows@[rows@.len() - 1 - i]);
    }
    r
}

/// Inserts `(key, value)` into an association table for each value,
/// ignoring pairs already there.
fn associate_all(db: &mut Database, sql: &str, key: i64, values: &Vec<i64>) -> (r: Result<(), DbError>)
    ensures
        r is Ok ==> final(db).log() == old(db).log() + assoc_writes(sql@, key, values@),
        r is Err ==> r->Err_0 is Sqlite,
        r is Err ==> exists|n: int| 1 <= n <= values.len()
            && final(db).log() == old(db).log() + #[trigger] assoc_writes(sql@, key, values@).take(n),
{
    let ghost start = db.log();
    let mut i: usize = 0;
    while i < values.len()
        invariant
            i <= values.len(),
            db.log() == start + assoc_writes(sql@, key, values@.take(i as int)),
            start == old(db).log(),
        decreases values.len() - i,
    {
        let params = vec![SqlValue::Integer(key), SqlValue::Integer(values[i])];
        assert(bound_all(params@) =~= seq![Bound::Integer(key), Bound::Integer(values@[i as int])]);
        let done = db.execute(sql, params);
        assert(values@.take(i + 1).drop_last() =~= values@.take(i as int));
        assert(db.log() =~= start + assoc_writes(sql@, key, values@.take(i + 1)));
        proof { lemma_assoc_writes_take(sql@, key, values@, i + 1); }
        match done {
            Ok(_) => {},
            Err(e) => {
                assert(db.log() == start + assoc_writes(sql@, key, values@).take(i + 1));
                return Err(e);
            },
        }
        i = i + 1;
    }
    assert(values@.take(i as int) =~= values@);
    Ok(())
}

/// The association of `key` with each value in turn.
pub open spec fn assoc_writes(sql: Seq<char>, key: i64, values: Seq<i64>) -> Seq<Write>
    decreases values.len(),
{
    if values.len() == 0 {
        seq![]
    } else {
        assoc_writes(sql, key, values.drop_last()).push((sql, seq![Bound::Integer(key), Bound::Integer(values.last())]))
    }
}

/// The associations of the first `i` values are the first `i` associations.
proof fn lemma_assoc_writes_take(sql: Seq<char>, key: i64, values: Seq<i64>, i: int)
    requires
        0 <= i <= values.len(),
    ensures
        assoc_writes(sql, key, values).len() == values.len(),
        assoc_writes(sql, key, values.take(i)) == assoc_writes(sql, key, values).take(i),
    decreases values.len(),
{
    if values.len() == 0 {
        assert(values.take(i) =~= values);
        assert(assoc_writes(sql, key, values).take(i) =~= assoc_writes(sql, key, values));
    } else {
        let dl = values.drop_last();
        if i == values.len() {
            lemma_assoc_writes_take(sql, key, dl, 0);
            assert(values.take(i) =~= values);
            assert(assoc_writes(sql, key, values).take(i) =~= assoc_writes(sql, key, values));
        } else {
            lemma_assoc_writes_take(sql, key, dl, i);
            assert(values.take(i) =~= dl.take(i));
            assert(assoc_writes(sql, key, values).take(i) =~= assoc_writes(sql, key, dl).take(i));
        }
    }
}

/// The columns of a new memory's row, in the order their values are bound.
pub open spec fn memory_insert_columns() -> Seq<Seq<char>> {
    seq![
        "user_id"@, "title"@, "content"@, "context"@, "keywords"@, "tags"@, "importance"@,
        "source_repo"@, "source_files"@, "source_url"@, "confidence"@, "encoding_agent"@,
        "memory_type"@, "container_tag"@, "forget_after"@, "created_at"@, "updated_at"@,
    ]
}

pub const MEMORY_PROJECT_INSERT: &'static str = "INSERT OR IGNORE INTO memory_project_association (memory_id, project_id) VALUES (?1, ?2)";

pub const MEMORY_ENTITY_INSERT: &'static str = "INSERT OR IGNORE INTO memory_entity_association (memory_id, entity_id) VALUES (?1, ?2)";

pub const MEMORY_DOCUMENT_INSERT: &'static str = "INSERT OR IGNORE INTO memory_document_association (memory_id, document_id) VALUES (?1, ?2)";

pub const MEMORY_CODE_ARTIFACT_INSERT: &'static str = "INSERT OR IGNORE INTO memory_code_artifact_association (memory_id, code_artifact_id) VALUES (?1, ?2)";

/// The auto-forget date stored for a memory: the given date when it is in
/// one of the accepted forms (see `forget_after_of`), else none.
pub open spec fn forget_bound(o: Option<String>) -> Bound {
    match o {
        Some(s) => match forget_after_of(s@) {
            Some(ft) => Bound::Text(clock_text(ft)),
            None => Bound::Null,
        },
        None => Bound::Null,
    }
}

/// `b` is what is stored for an optional list: its JSON text; nothing when
/// there is no list.
pub open spec fn list_bound_ok(o: Option<Vec<String>>, b: Bound) -> bool {
    match o {
        None => b == Bound::Null,
        Some(l) => b == Bound::Text(json_string_list_text(l.deep_view())),
    }
}

/// The row of a new memory, created at the time `t`; `source_files` is
/// the stored list of source files (see `list_bound_ok`).
pub open spec fn memory_insert_write(p: CreateMemoryParams, t: Timestamp, source_files: Bound) -> Write {
    (insert_sql("INSERT"@, "memories"@, memory_insert_columns()), seq![
        Bound::Text(default_user()),
        Bound::Text(p.title@),
        Bound::Text(p.content@),
        Bound::Text(p.context@),
        Bound::Text(json_string_list_text(p.keywords.deep_view())),
        Bound::Text(json_string_list_text(p.tags.deep_view())),
        Bound::Integer(p.importance as i64),
        opt_string_bound(p.source_repo),
        source_files,
        opt_string_bound(p.source_url),
        opt_number_bound(p.confidence),
        opt_string_bound(p.encoding_agent),
        Bound::Text(p.memory_type@),
        opt_string_bound(p.container_tag),
        forget_bound(p.forget_after),
        Bound::Text(clock_text(t)),
        Bound::Text(clock_text(t)),
    ])
}

/// What creating a memory writes: its row; its associations with the
/// given projects, entities, documents and code artifacts (as `id`); the
/// links both ways to the `similar` memories; the log entry.
pub open spec fn memory_create_writes(p: CreateMemoryParams, t: Timestamp, source_files: Bound, id: i64, similar: Seq<i64>) -> Seq<Write> {
    seq![memory_insert_write(p, t, source_files)]
        + assoc_writes(MEMORY_PROJECT_INSERT@, id, p.project_ids@)
        + assoc_writes(MEMORY_ENTITY_INSERT@, id, p.entity_ids@)
        + assoc_writes(MEMORY_DOCUMENT_INSERT@, id, p.document_ids@)
        + assoc_writes(MEMORY_CODE_ARTIFACT_INSERT@, id, p.code_artifact_ids@)
        + link_writes(id, similar)
        + seq![activity_write("memory"@, id, "create"@, None)]
}

/// The row `create_memory` inserts takes each field of the request in the
/// column of that name: the first statement it hands to SQLite is an insert
/// into `memories` that binds the default user to `user_id`, the title to
/// `title`, the content to `content`, the context to `context`, the JSON
/// of the keywords to `keywords` and of the tags to `tags`, the importance
/// to `importance`, the source repository to `source_repo`, the stored list
/// of source files to `source_files`, the source URL to `source_url`, the
/// confidence to `confidence`, the encoding agent to `encoding_agent`, the
/// type to `memory_type` and the container tag to `container_tag`.
#[verifier::rlimit(60)]
pub proof fn lemma_memory_insert_fields(p: CreateMemoryParams, t: Timestamp, source_files: Bound, id: i64, similar: Seq<i64>)
    ensures
        ({
            let w = memory_create_writes(p, t, source_files, id, similar)[0];
            let (verb, table) = ("INSERT"@, "memories"@);
            &&& inserts_value(w, verb, table, "user_id"@, Bound::Text(default_user()))
            &&& inserts_value(w, verb, table, "title"@, Bound::Text(p.title@))
            &&& inserts_value(w, verb, table, "content"@, Bound::Text(p.content@))
            &&& inserts_value(w, verb, table, "context"@, Bound::Text(p.context@))
            &&& inserts_value(w, verb, table, "keywords"@, Bound::Text(json_string_list_text(p.keywords.deep_view())))
            &&& inserts_value(w, verb, table, "tags"@, Bound::Text(json_string_list_text(p.tags.deep_view())))
            &&& inserts_value(w, verb, table, "importance"@, Bound::Integer(p.importance as i64))
            &&& inserts_value(w, verb, table, "source_repo"@, opt_string_bound(p.source_repo))
            &&& inserts_value(w, verb, table, "source_files"@, source_files)
            &&& inserts_value(w, verb, table, "source_url"@, opt_string_bound(p.source_url))
            &&& inserts_value(w, verb, table, "confidence"@, opt_number_bound(p.confidence))
            &&& inserts_value(w, verb, table, "encoding_agent"@, opt_string_bound(p.encoding_agent))
            &&& inserts_value(w, verb, table, "memory_type"@, Bound::Text(p.memory_type@))
            &&& inserts_value(w, verb, table, "container_tag"@, opt_string_bound(p.container_tag))
        }),
{
    let w = memory_create_writes(p, t, source_files, id, similar)[0];
    assert(w == memory_insert_write(p, t, source_files));
    let cols = memory_insert_columns();
    reveal_strlit("user_id");
    reveal_strlit("title");
    reveal_strlit("content");
    reveal_strlit("context");
    reveal_strlit("keywords");
    reveal_strlit("tags");
    reveal_strlit("importance");
    reveal_strlit("source_repo");
    reveal_strlit("source_files");
    reveal_strlit("source_url");
    reveal_strlit("confidence");
    reveal_strlit("encoding_agent");
    reveal_strlit("memory_type");
    reveal_strlit("container_tag");
    reveal_strlit("forget_after");
    reveal_strlit("created_at");
    reveal_strlit("updated_at");
    assert forall|i: int, j: int| 0 <= i < cols.len() && 0 <= j < cols.len() && i != j implies cols[i] != cols[j] by {
        if cols[i] == cols[j] {
            assert(cols[i].len() == cols[j].len());
            assert(cols[i][0] == cols[j][0]);
            assert(cols[i][1] == cols[j][1]);
            assert(cols[i][5] == cols[j][5]);
        }
    }
    lemma_insert_binds(w, "INSERT"@, "memories"@, cols, 0);
    lemma_insert_binds(w, "INSERT"@, "memories"@, cols, 1);
    lemma_insert_binds(w, "INSERT"@, "memories"@, cols, 2);
    lemma_insert_binds(w, "INSERT"@, "memories"@, cols, 3);
    lemma_insert_binds(w, "INSERT"@, "memories"@, cols, 4);
    lemma_insert_binds(w, "INSERT"@, "memories"@, cols, 5);
    lemma_insert_binds(w, "INSERT"@, "memories"@, cols, 6);
    lemma_insert_binds(w, "INSERT"@, "memories"@, cols, 7);
    lemma_insert_binds(w, "INSERT"@, "memories"@, cols, 8);
    lemma_insert_binds(w, "INSERT"@, "memories"@, cols, 9);
    lemma_insert_binds(w, "INSERT"@, "memories"@, cols, 10);
    lemma_insert_binds(w, "INSERT"@, "memories"@, cols, 11);
    lemma_insert_binds(w, "INSERT"@, "memories"@, cols, 12);
    lemma_insert_binds(w, "INSERT"@, "memories"@, cols, 13);
}

pub const MEMORY_DELETE: &'static str = "DELETE FROM memories WHERE id = ?1";

pub const LINK_INSERT: &'static str = "INSERT OR IGNORE INTO memory_links (user_id, source_id, target_id) VALUES (?1, ?2, ?3)";

/// The columns of a link between memories, in the order their values are bound.
pub open spec fn link_columns() -> Seq<Seq<char>> {
    seq!["user_id"@, "source_id"@, "target_id"@]
}

/// `LINK_INSERT` is the insert of `link_columns` into `memory_links`.
proof fn lemma_link_insert_text()
    ensures
        LINK_INSERT@ == insert_sql("INSERT OR IGNORE"@, "memory_links"@, link_columns()),
{
    lemma_insert_sql_three("INSERT OR IGNORE"@, "memory_links"@, "user_id"@, "source_id"@, "target_id"@);
    reveal_strlit("INSERT OR IGNORE INTO memory_links (user_id, source_id, target_id) VALUES (?1, ?2, ?3)");
    reveal_strlit("INSERT OR IGNORE");
    reveal_strlit(" INTO ");
    reveal_strlit("memory_links");
    reveal_strlit(" (");
    reveal_strlit("user_id");
    reveal_strlit(", ");
    reveal_strlit("source_id");
    reveal_strlit("target_id");
    reveal_strlit(") VALUES (?1, ?2, ?3)");
    assert(LINK_INSERT@ =~= insert_sql("INSERT OR IGNORE"@, "memory_links"@, link_columns()));
}

pub const LINK_DELETE: &'static str = "DELETE FROM memory_links WHERE (source_id = ?1 AND target_id = ?2) OR (source_id = ?2 AND target_id = ?1)";

pub const MARK_OBSOLETE: &'static str = "UPDATE memories SET is_obsolete = 1, obsolete_reason = ?1, superseded_by = ?2, obsoleted_at = ?3, updated_at = ?3 WHERE id = ?4";

pub const MARK_FORGOTTEN: &'static str = "UPDATE memories SET is_forgotten = 1, forgotten_at = ?1, obsolete_reason = ?2, updated_at = ?1 WHERE id = ?3";

pub const FORGET_EXPIRED: &'static str = "UPDATE memories SET is_forgotten = 1, forgotten_at = ?1, updated_at = ?1
             WHERE forget_after IS NOT NULL AND forget_after <= ?1 AND is_forgotten = 0";

/// Marking a memory obsolete at the time `t`.
pub open spec fn obsolete_write(memory_id: i64, reason: Seq<char>, superseded_by: Option<i64>, t: Timestamp) -> Write {
    (MARK_OBSOLETE@, seq![
        Bound::Text(reason),
        match superseded_by { Some(i) => Bound::Integer(i), None => Bound::Null },
        Bound::Text(clock_text(t)),
        Bound::Integer(memory_id),
    ])
}

/// Marking a memory forgotten at the time `t`.
pub open spec fn forgotten_write(memory_id: i64, reason: Option<Seq<char>>, t: Timestamp) -> Write {
    (MARK_FORGOTTEN@, seq![Bound::Text(clock_text(t)), opt_text_bound(reason), Bound::Integer(memory_id)])
}

/// Marking forgotten, at the time `t`, the memories whose auto-forget date
/// is not after `t`.
pub open spec fn expiry_write(t: Timestamp) -> Write {
    (FORGET_EXPIRED@, seq![Bound::Text(clock_text(t))])
}

pub const PARENT_NOT_LATEST: &'static str = "UPDATE memories SET is_latest = 0, updated_at = ?1 WHERE id = ?2";

/// The columns of a new version's row, in the order their values are bound.
pub open spec fn version_insert_columns() -> Seq<Seq<char>> {
    seq![
        "user_id"@, "title"@, "content"@, "context"@, "keywords"@, "tags"@, "importance"@,
        "version"@, "parent_memory_id"@, "is_latest"@, "relationship_type"@, "memory_type"@,
        "created_at"@, "updated_at"@,
    ]
}

pub const COPY_PROJECTS: &'static str = "INSERT OR IGNORE INTO memory_project_association (memory_id, project_id)
             SELECT ?1, project_id FROM memory_project_association WHERE memory_id = ?2";

pub const COPY_ENTITIES: &'static str = "INSERT OR IGNORE INTO memory_entity_association (memory_id, entity_id)
             SELECT ?1, entity_id FROM memory_entity_association WHERE memory_id = ?2";

/// The version number after `v`, wrapping around at the end of the range.
pub open spec fn next_version_spec(v: i32) -> i32 {
    if v == i32::MAX { i32::MIN } else { (v + 1) as i32 }
}

pub fn next_version(v: i32) -> (r: i32)
    ensures
        r == next_version_spec(v),
{
    if v == i32::MAX { i32::MIN } else { v + 1 }
}

/// The values of the new version's row: the parent's owner, the given
/// texts and lists, the parent's version plus one, the parent, and the
/// time `t` as creation and update time.
pub open spec fn version_insert_bound(p: CreateVersionParams, t: Timestamp, parent_version: i32, owner: Seq<char>) -> Seq<Bound> {
    seq![
        Bound::Text(owner),
        Bound::Text(p.title@),
        Bound::Text(p.content@),
        Bound::Text(p.context@),
        Bound::Text(json_string_list_text(p.keywords.deep_view())),
        Bound::Text(json_string_list_text(p.tags.deep_view())),
        Bound::Integer(p.importance as i64),
        Bound::Integer(next_version_spec(parent_version) as i64),
        Bound::Integer(p.parent_memory_id),
        Bound::Integer(1),
        Bound::Text(p.relationship_type@),
        Bound::Text(p.memory_type@),
        Bound::Text(clock_text(t)),
        Bound::Text(clock_text(t)),
    ]
}

/// What creating a version writes: the parent stops being the latest; the
/// new version is inserted as the latest; the parent's project and entity
/// associations are copied to it (as `new_id`); the creation is logged.
pub open spec fn version_writes(p: CreateVersionParams, t: Timestamp, parent_version: i32, owner: Seq<char>, new_id: i64) -> Seq<Write> {
    seq![
        (PARENT_NOT_LATEST@, seq![Bound::Text(clock_text(t)), Bound::Integer(p.parent_memory_id)]),
        (insert_sql("INSERT"@, "memories"@, version_insert_columns()), version_insert_bound(p, t, parent_version, owner)),
        (COPY_PROJECTS@, seq![Bound::Integer(new_id), Bound::Integer(p.parent_memory_id)]),
        (COPY_ENTITIES@, seq![Bound::Integer(new_id), Bound::Integer(p.parent_memory_id)]),
        activity_write("memory"@, new_id, "create_version"@, None),
    ]
}

/// The row `create_version` inserts for the new version takes each field
/// in the column of that name: the second statement it hands to SQLite is
/// an insert into `memories` that binds the parent's owner to `user_id`,
/// the title to `title`, the content to `content`, the context to
/// `context`, the JSON of the keywords to `keywords` and of the tags to
/// `tags`, the importance to `importance`, the parent's id to
/// `parent_memory_id`, 1 to `is_latest`, the relationship to
/// `relationship_type` and the type to `memory_type`; `version` is one more
/// than the parent's version.
#[verifier::rlimit(60)]
pub proof fn lemma_version_insert_fields(p: CreateVersionParams, t: Timestamp, parent_version: i32, owner: Seq<char>, new_id: i64)
    ensures
        ({
            let w = version_writes(p, t, parent_version, owner, new_id)[1];
            let (verb, table) = ("INSERT"@, "memories"@);
            &&& inserts_value(w, verb, table, "user_id"@, Bound::Text(owner))
            &&& inserts_value(w, verb, table, "title"@, Bound::Text(p.title@))
            &&& inserts_value(w, verb, table, "content"@, Bound::Text(p.content@))
            &&& inserts_value(w, verb, table, "context"@, Bound::Text(p.context@))
            &&& inserts_value(w, verb, table, "keywords"@, Bound::Text(json_string_list_text(p.keywords.deep_view())))
            &&& inserts_value(w, verb, table, "tags"@, Bound::Text(json_string_list_text(p.tags.deep_view())))
            &&& inserts_value(w, verb, table, "importance"@, Bound::Integer(p.importance as i64))
            &&& (parent_version < i32::MAX ==> inserts_value(w, verb, table, "version"@, Bound::Integer((parent_version + 1) as i64)))
            &&& inserts_value(w, verb, table, "parent_memory_id"@, Bound::Integer(p.parent_memory_id))
            &&& inserts_value(w, verb, table, "is_latest"@, Bound::Integer(1))
            &&& inserts_value(w, verb, table, "relationship_type"@, Bound::Text(p.relationship_type@))
            &&& inserts_value(w, verb, table, "memory_type"@, Bound::Text(p.memory_type@))
        }),
{
    let w = version_writes(p, t, parent_version, owner, new_id)[1];
    let cols = version_insert_columns();
    reveal_strlit("user_id");
    reveal_strlit("title");
    reveal_strlit("content");
    reveal_strlit("context");
    reveal_strlit("keywords");
    reveal_strlit("tags");
    reveal_strlit("importance");
    reveal_strlit("version");
    reveal_strlit("parent_memory_id");
    reveal_strlit("is_latest");
    reveal_strlit("relationship_type");
    reveal_strlit("memory_type");
    reveal_strlit("created_at");
    reveal_strlit("updated_at");
    assert forall|i: int, j: int| 0 <= i < cols.len() && 0 <= j < cols.len() && i != j implies cols[i] != cols[j] by {
        if cols[i] == cols[j] {
            assert(cols[i].len() == cols[j].len());
            assert(cols[i][0] == cols[j][0]);
            assert(cols[i][1] == cols[j][1]);
            assert(cols[i][5] == cols[j][5]);
        }
    }
    lemma_insert_binds(w, "INSERT"@, "memories"@, cols, 0);
    lemma_insert_binds(w, "INSERT"@, "memories"@, cols, 1);
    lemma_insert_binds(w, "INSERT"@, "memories"@, cols, 2);
    lemma_insert_binds(w, "INSERT"@, "memories"@, cols, 3);
    lemma_insert_binds(w, "INSERT"@, "memories"@, cols, 4);
    lemma_insert_binds(w, "INSERT"@, "memories"@, cols, 5);
    lemma_insert_binds(w, "INSERT"@, "memories"@, cols, 6);
    lemma_insert_binds(w, "INSERT"@, "memories"@, cols, 7);
    lemma_insert_binds(w, "INSERT"@, "memories"@, cols, 8);
    lemma_insert_binds(w, "INSERT"@, "memories"@, cols, 9);
    lemma_insert_binds(w, "INSERT"@, "memories"@, cols, 10);
    lemma_insert_binds(w, "INSERT"@, "memories"@, cols, 11);
}

/// The link from `source` to `target`, owned by the default user.
pub open spec fn link_write(source: i64, target: i64) -> Write {
    (LINK_INSERT@, seq![Bound::Text(default_user()), Bound::Integer(source), Bound::Integer(target)])
}

/// `MEMORY_PROJECT_INSERT` is the insert of `memory_id` and `project_id` into `memory_project_association`.
proof fn lemma_memory_project_insert_text()
    ensures
        MEMORY_PROJECT_INSERT@ == insert_sql("INSERT OR IGNORE"@, "memory_project_association"@, seq!["memory_id"@, "project_id"@]),
{
    lemma_insert_sql_two("INSERT OR IGNORE"@, "memory_project_association"@, "memory_id"@, "project_id"@);
    reveal_strlit("INSERT OR IGNORE INTO memory_project_association (memory_id, project_id) VALUES (?1, ?2)");
    reveal_strlit("INSERT OR IGNORE");
    reveal_strlit(" INTO ");
    reveal_strlit("memory_project_association");
    reveal_strlit(" (");
    reveal_strlit("memory_id");
    reveal_strlit(", ");
    reveal_strlit("project_id");
    reveal_strlit(") VALUES (?1, ?2)");
    assert(MEMORY_PROJECT_INSERT@ =~= insert_sql("INSERT OR IGNORE"@, "memory_project_association"@, seq!["memory_id"@, "project_id"@]));
}

/// `MEMORY_ENTITY_INSERT` is the insert of `memory_id` and `entity_id` into `memory_entity_association`.
proof fn lemma_memory_entity_insert_text()
    ensures
        MEMORY_ENTITY_INSERT@ == insert_sql("INSERT OR IGNORE"@, "memory_entity_association"@, seq!["memory_id"@, "entity_id"@]),
{
    lemma_insert_sql_two("INSERT OR IGNORE"@, "memory_entity_association"@, "memory_id"@, "entity_id"@);
    reveal_strlit("INSERT OR IGNORE INTO memory_entity_association (memory_id, entity_id) VALUES (?1, ?2)");
    reveal_strlit("INSERT OR IGNORE");
    reveal_strlit(" INTO ");
    reveal_strlit("memory_entity_association");
    reveal_strlit(" (");
    reveal_strlit("memory_id");
    reveal_strlit(", ");
    reveal_strlit("entity_id");
    reveal_strlit(") VALUES (?1, ?2)");
    assert(MEMORY_ENTITY_INSERT@ =~= insert_sql("INSERT OR IGNORE"@, "memory_entity_association"@, seq!["memory_id"@, "entity_id"@]));
}

/// `MEMORY_DOCUMENT_INSERT` is the insert of `memory_id` and `document_id` into `memory_document_association`.
proof fn lemma_memory_document_insert_text()
    ensures
        MEMORY_DOCUMENT_INSERT@ == insert_sql("INSERT OR IGNORE"@, "memory_document_association"@, seq!["memory_id"@, "document_id"@]),
{
    lemma_insert_sql_two("INSERT OR IGNORE"@, "memory_document_association"@, "memory_id"@, "document_id"@);
    reveal_strlit("INSERT OR IGNORE INTO memory_document_association (memory_id, document_id) VALUES (?1, ?2)");
    reveal_strlit("INSERT OR IGNORE");
    reveal_strlit(" INTO ");
    reveal_strlit("memory_document_association");
    reveal_strlit(" (");
    reveal_strlit("memory_id");
    reveal_strlit(", ");
    reveal_strlit("document_id");
    reveal_strlit(") VALUES (?1, ?2)");
    assert(MEMORY_DOCUMENT_INSERT@ =~= insert_sql("INSERT OR IGNORE"@, "memory_document_association"@, seq!["memory_id"@, "document_id"@]));
}

/// `MEMORY_CODE_ARTIFACT_INSERT` is the insert of `memory_id` and `code_artifact_id` into `memory_code_artifact_association`.
proof fn lemma_memory_code_artifact_insert_text()
    ensures
        MEMORY_CODE_ARTIFACT_INSERT@ == insert_sql("INSERT OR IGNORE"@, "memory_code_artifact_association"@, seq!["memory_id"@, "code_artifact_id"@]),
{
    lemma_insert_sql_two("INSERT OR IGNORE"@, "memory_code_artifact_association"@, "memory_id"@, "code_artifact_id"@);
    reveal_strlit("INSERT OR IGNORE INTO memory_code_artifact_association (memory_id, code_artifact_id) VALUES (?1, ?2)");
    reveal_strlit("INSERT OR IGNORE");
    reveal_strlit(" INTO ");
    reveal_strlit("memory_code_artifact_association");
    reveal_strlit(" (");
    reveal_strlit("memory_id");
    reveal_strlit(", ");
    reveal_strlit("code_artifact_id");
    reveal_strlit(") VALUES (?1, ?2)");
    assert(MEMORY_CODE_ARTIFACT_INSERT@ =~= insert_sql("INSERT OR IGNORE"@, "memory_code_artifact_association"@, seq!["memory_id"@, "code_artifact_id"@]));
}

/// The association at `j` of `values` pairs `key` with `values[j]`.
proof fn lemma_assoc_write_at(sql: Seq<char>, key: i64, values: Seq<i64>, j: int)
    requires
        0 <= j < values.len(),
    ensures
        assoc_writes(sql, key, values).len() == values.len(),
        assoc_writes(sql, key, values)[j] == (sql, seq![Bound::Integer(key), Bound::Integer(values[j])]),
{
    lemma_assoc_writes_take(sql, key, values, j + 1);
    lemma_assoc_writes_take(sql, key, values, values.len() as int);
    let head = values.take(j + 1);
    assert(head.last() == values[j]);
    assert(head.drop_last() =~= values.take(j));
    lemma_assoc_writes_take(sql, key, values.take(j + 1), j);
    assert(assoc_writes(sql, key, head) == assoc_writes(sql, key, head.drop_last()).push((sql, seq![Bound::Integer(key), Bound::Integer(values[j])])));
    assert(assoc_writes(sql, key, values).take(j + 1)[j] == assoc_writes(sql, key, values)[j]);
}

/// An association written with an insert of two named columns binds the
/// key to the first and the value at `j` to the second.
proof fn lemma_assoc_binds(sql: Seq<char>, table: Seq<char>, a: Seq<char>, b: Seq<char>, key: i64, values: Seq<i64>, j: int)
    requires
        sql == insert_sql("INSERT OR IGNORE"@, table, seq![a, b]),
        a != b,
        0 <= j < values.len(),
    ensures
        inserts_value(assoc_writes(sql, key, values)[j], "INSERT OR IGNORE"@, table, a, Bound::Integer(key)),
        inserts_value(assoc_writes(sql, key, values)[j], "INSERT OR IGNORE"@, table, b, Bound::Integer(values[j])),
{
    lemma_assoc_write_at(sql, key, values, j);
    let w = assoc_writes(sql, key, values)[j];
    let cols = seq![a, b];
    assert(distinct_names(cols));
    lemma_insert_binds(w, "INSERT OR IGNORE"@, table, cols, 0);
    lemma_insert_binds(w, "INSERT OR IGNORE"@, table, cols, 1);
}

/// A new memory is associated with what it was created with, in the right
/// columns: after its row, `create_memory` writes, for the `j`-th project
/// asked for, an insert into `memory_project_association` that binds the new
/// memory's id to `memory_id` and the project to `project_id`; then likewise
/// for the entities (`entity_id`), the documents (`document_id`) and the code
/// artifacts (`code_artifact_id`), each list in its order.
#[verifier::rlimit(40)]
pub proof fn lemma_memory_create_associations(p: CreateMemoryParams, t: Timestamp, source_files: Bound, id: i64, similar: Seq<i64>)
    ensures
        ({
            let ws = memory_create_writes(p, t, source_files, id, similar);
            let (pr, en, dc, ca) = (p.project_ids@, p.entity_ids@, p.document_ids@, p.code_artifact_ids@);
            let v = "INSERT OR IGNORE"@;
            &&& forall|j: int| 0 <= j < pr.len() ==>
                inserts_value(#[trigger] ws[1 + j], v, "memory_project_association"@, "memory_id"@, Bound::Integer(id))
                && inserts_value(ws[1 + j], v, "memory_project_association"@, "project_id"@, Bound::Integer(pr[j]))
            &&& forall|j: int| 0 <= j < en.len() ==>
                inserts_value(#[trigger] ws[1 + pr.len() + j], v, "memory_entity_association"@, "memory_id"@, Bound::Integer(id))
                && inserts_value(ws[1 + pr.len() + j], v, "memory_entity_association"@, "entity_id"@, Bound::Integer(en[j]))
            &&& forall|j: int| 0 <= j < dc.len() ==>
                inserts_value(#[trigger] ws[1 + pr.len() + en.len() + j], v, "memory_document_association"@, "memory_id"@, Bound::Integer(id))
                && inserts_value(ws[1 + pr.len() + en.len() + j], v, "memory_document_association"@, "document_id"@, Bound::Integer(dc[j]))
            &&& forall|j: int| 0 <= j < ca.len() ==>
                inserts_value(#[trigger] ws[1 + pr.len() + en.len() + dc.len() + j], v, "memory_code_artifact_association"@, "memory_id"@, Bound::Integer(id))
                && inserts_value(ws[1 + pr.len() + en.len() + dc.len() + j], v, "memory_code_artifact_association"@, "code_artifact_id"@, Bound::Integer(ca[j]))
        }),
{
    let ws = memory_create_writes(p, t, source_files, id, similar);
    let (pr, en, dc, ca) = (p.project_ids@, p.entity_ids@, p.document_ids@, p.code_artifact_ids@);
    let a1 = assoc_writes(MEMORY_PROJECT_INSERT@, id, pr);
    let a2 = assoc_writes(MEMORY_ENTITY_INSERT@, id, en);
    let a3 = assoc_writes(MEMORY_DOCUMENT_INSERT@, id, dc);
    let a4 = assoc_writes(MEMORY_CODE_ARTIFACT_INSERT@, id, ca);
    lemma_assoc_writes_take(MEMORY_PROJECT_INSERT@, id, pr, 0);
    lemma_assoc_writes_take(MEMORY_ENTITY_INSERT@, id, en, 0);
    lemma_assoc_writes_take(MEMORY_DOCUMENT_INSERT@, id, dc, 0);
    lemma_assoc_writes_take(MEMORY_CODE_ARTIFACT_INSERT@, id, ca, 0);
    lemma_memory_project_insert_text();
    lemma_memory_entity_insert_text();
    lemma_memory_document_insert_text();
    lemma_memory_code_artifact_insert_text();
    reveal_strlit("memory_id");
    reveal_strlit("project_id");
    reveal_strlit("entity_id");
    reveal_strlit("document_id");
    reveal_strlit("code_artifact_id");
    assert("memory_id"@ != "project_id"@ && "memory_id"@ != "entity_id"@ && "memory_id"@ != "document_id"@
        && "memory_id"@ != "code_artifact_id"@) by {
        assert("memory_id"@[0] != "project_id"@[0]);
        assert("memory_id"@[0] != "entity_id"@[0]);
        assert("memory_id"@[0] != "document_id"@[0]);
        assert("memory_id"@[0] != "code_artifact_id"@[0]);
    }
    let head = seq![memory_insert_write(p, t, source_files)];
    assert forall|j: int| 0 <= j < pr.len() implies
        inserts_value(#[trigger] ws[1 + j], "INSERT OR IGNORE"@, "memory_project_association"@, "memory_id"@, Bound::Integer(id))
        && inserts_value(ws[1 + j], "INSERT OR IGNORE"@, "memory_project_association"@, "project_id"@, Bound::Integer(pr[j])) by {
        lemma_assoc_binds(MEMORY_PROJECT_INSERT@, "memory_project_association"@, "memory_id"@, "project_id"@, id, pr, j);
        assert(ws[1 + j] == a1[j]);
    }
    assert forall|j: int| 0 <= j < en.len() implies
        inserts_value(#[trigger] ws[1 + pr.len() + j], "INSERT OR IGNORE"@, "memory_entity_association"@, "memory_id"@, Bound::Integer(id))
        && inserts_value(ws[1 + pr.len() + j], "INSERT OR IGNORE"@, "memory_entity_association"@, "entity_id"@, Bound::Integer(en[j])) by {
        lemma_assoc_binds(MEMORY_ENTITY_INSERT@, "memory_entity_association"@, "memory_id"@, "entity_id"@, id, en, j);
        assert(ws[1 + pr.len() + j] == a2[j]);
    }
    assert forall|j: int| 0 <= j < dc.len() implies
        inserts_value(#[trigger] ws[1 + pr.len() + en.len() + j], "INSERT OR IGNORE"@, "memory_document_association"@, "memory_id"@, Bound::Integer(id))
        && inserts_value(ws[1 + pr.len() + en.len() + j], "INSERT OR IGNORE"@, "memory_document_association"@, "document_id"@, Bound::Integer(dc[j])) by {
        lemma_assoc_binds(MEMORY_DOCUMENT_INSERT@, "memory_document_association"@, "memory_id"@, "document_id"@, id, dc, j);
        assert(ws[1 + pr.len() + en.len() + j] == a3[j]);
    }
    assert forall|j: int| 0 <= j < ca.len() implies
        inserts_value(#[trigger] ws[1 + pr.len() + en.len() + dc.len() + j], "INSERT OR IGNORE"@, "memory_code_artifact_association"@, "memory_id"@, Bound::Integer(id))
        && inserts_value(ws[1 + pr.len() + en.len() + dc.len() + j], "INSERT OR IGNORE"@, "memory_code_artifact_association"@, "code_artifact_id"@, Bound::Integer(ca[j])) by {
        lemma_assoc_binds(MEMORY_CODE_ARTIFACT_INSERT@, "memory_code_artifact_association"@, "memory_id"@, "code_artifact_id"@, id, ca, j);
        assert(ws[1 + pr.len() + en.len() + dc.len() + j] == a4[j]);
    }
}

/// A link between memories goes from `source` to `target`: its insert into
/// `memory_links` binds the default user to `user_id`, `source` to
/// `source_id` and `target` to `target_id`.
pub proof fn lemma_link_write_columns(source: i64, target: i64)
    ensures
        inserts_value(link_write(source, target), "INSERT OR IGNORE"@, "memory_links"@, "user_id"@, Bound::Text(default_user())),
        inserts_value(link_write(source, target), "INSERT OR IGNORE"@, "memory_links"@, "source_id"@, Bound::Integer(source)),
        inserts_value(link_write(source, target), "INSERT OR IGNORE"@, "memory_links"@, "target_id"@, Bound::Integer(target)),
{
    lemma_link_insert_text();
    let cols = link_columns();
    reveal_strlit("user_id");
    reveal_strlit("source_id");
    reveal_strlit("target_id");
    assert(distinct_names(cols)) by {
        assert(cols[0][0] != cols[1][0] && cols[0][0] != cols[2][0] && cols[1][0] != cols[2][0]);
    }
    let w = link_write(source, target);
    lemma_insert_binds(w, "INSERT OR IGNORE"@, "memory_links"@, cols, 0);
    lemma_insert_binds(w, "INSERT OR IGNORE"@, "memory_links"@, cols, 1);
    lemma_insert_binds(w, "INSERT OR IGNORE"@, "memory_links"@, cols, 2);
}

/// For each related memory in turn, the link to it and the link back.
pub open spec fn link_writes(memory_id: i64, related: Seq<i64>) -> Seq<Write>
    decreases related.len(),
{
    if related.len() == 0 {
        seq![]
    } else {
        link_writes(memory_id, related.drop_last())
            + seq![link_write(memory_id, related.last()), link_write(related.last(), memory_id)]
    }
}

/// The links to the first `i` related memories are the first `2 * i`
/// links written.
proof fn lemma_link_writes_take(memory_id: i64, related: Seq<i64>, i: int)
    requires
        0 <= i <= related.len(),
    ensures
        link_writes(memory_id, related).len() == 2 * related.len(),
        link_writes(memory_id, related.take(i)) == link_writes(memory_id, related).take(2 * i),
    decreases related.len(),
{
    if related.len() == 0 {
        assert(related.take(i) =~= related);
        assert(link_writes(memory_id, related).take(2 * i) =~= link_writes(memory_id, related));
    } else {
        let dl = related.drop_last();
        if i == related.len() {
            lemma_link_writes_take(memory_id, dl, 0);
            assert(related.take(i) =~= related);
            assert(link_writes(memory_id, related).take(2 * i) =~= link_writes(memory_id, related));
        } else {
            lemma_link_writes_take(memory_id, dl, i);
            assert(related.take(i) =~= dl.take(i));
            assert(link_writes(memory_id, related).take(2 * i) =~= link_writes(memory_id, dl).take(2 * i));
        }
    }
}

/// For each related memory in turn, the removal of the links between the two.
pub open spec fn unlink_writes(memory_id: i64, related: Seq<i64>) -> Seq<Write>
    decreases related.len(),
{
    if related.len() == 0 {
        seq![]
    } else {
        unlink_writes(memory_id, related.drop_last())
            .push((LINK_DELETE@, seq![Bound::Integer(memory_id), Bound::Integer(related.last())]))
    }
}

/// The links between memories, as (source, target) pairs, after one write,
/// read as the link statements of this module change the link table: an
/// insert of a link adds its pair (one already there stays as it is); a
/// delete of the links between `a` and `b` removes both directions; any
/// other write leaves the links as they were.
pub open spec fn links_after_write(links: Set<(i64, i64)>, w: Write) -> Set<(i64, i64)> {
    if w.0 == LINK_INSERT@ && w.1.len() == 3 && w.1[1] is Integer && w.1[2] is Integer {
        links.insert((w.1[1]->Integer_0, w.1[2]->Integer_0))
    } else if w.0 == LINK_DELETE@ && w.1.len() == 2 && w.1[0] is Integer && w.1[1] is Integer {
        links.remove((w.1[0]->Integer_0, w.1[1]->Integer_0)).remove((w.1[1]->Integer_0, w.1[0]->Integer_0))
    } else {
        links
    }
}

/// The links after a sequence of writes, in order (see `links_after_write`).
pub open spec fn links_after(links: Set<(i64, i64)>, ws: Seq<Write>) -> Set<(i64, i64)>
    decreases ws.len(),
{
    if ws.len() == 0 {
        links
    } else {
        links_after_write(links_after(links, ws.drop_last()), ws.last())
    }
}

/// The links, either way, between a memory and each related memory.
pub open spec fn link_pairs(memory_id: i64, related: Seq<i64>) -> Set<(i64, i64)> {
    Set::new(|p: (i64, i64)| (p.0 == memory_id && related.contains(p.1)) || (p.1 == memory_id && related.contains(p.0)))
}

proof fn lemma_links_after_concat(links: Set<(i64, i64)>, a: Seq<Write>, b: Seq<Write>)
    ensures
        links_after(links, a + b) == links_after(links_after(links, a), b),
    decreases b.len(),
{
    if b.len() == 0 {
        assert(a + b =~= a);
    } else {
        lemma_links_after_concat(links, a, b.drop_last());
        assert((a + b).drop_last() =~= a + b.drop_last());
        assert((a + b).last() == b.last());
    }
}

proof fn lemma_links_after_linking(links: Set<(i64, i64)>, memory_id: i64, related: Seq<i64>)
    ensures
        links_after(links, link_writes(memory_id, related)) == links.union(link_pairs(memory_id, related)),
    decreases related.len(),
{
    if related.len() == 0 {
        assert(links.union(link_pairs(memory_id, related)) =~= links);
    } else {
        let init = related.drop_last();
        let r = related.last();
        lemma_links_after_linking(links, memory_id, init);
        let two = seq![link_write(memory_id, r), link_write(r, memory_id)];
        lemma_links_after_concat(links, link_writes(memory_id, init), two);
        assert(two.drop_last() =~= seq![link_write(memory_id, r)]);
        assert(seq![link_write(memory_id, r)].drop_last() =~= Seq::<Write>::empty());
        assert forall|x: i64| #[trigger] related.contains(x) <==> (init.contains(x) || x == r) by {
            if related.contains(x) {
                let i = choose|i: int| 0 <= i < related.len() && related[i] == x;
                if i < related.len() - 1 {
                    assert(init[i] == x);
                }
            }
            if init.contains(x) {
                let i = choose|i: int| 0 <= i < init.len() && init[i] == x;
                assert(related[i] == x);
            }
            if x == r {
                assert(related[related.len() - 1] == x);
            }
        }
        let mid = links_after(links, link_writes(memory_id, init));
        assert(link_writes(memory_id, related) == link_writes(memory_id, init) + two);
        assert(links_after(mid, Seq::<Write>::empty()) == mid);
        assert(seq![link_write(memory_id, r)].last() == link_write(memory_id, r));
        assert(two.last() == link_write(r, memory_id));
        assert(links_after(mid, seq![link_write(memory_id, r)]) == links_after_write(mid, link_write(memory_id, r)));
        assert(links_after(mid, two) == links_after_write(links_after_write(mid, link_write(memory_id, r)), link_write(r, memory_id)));
        assert(links_after(mid, two) == mid.insert((memory_id, r)).insert((r, memory_id)));
        assert(links_after(links, link_writes(memory_id, related))
            =~= links.union(link_pairs(memory_id, related)));
    }
}

proof fn lemma_links_after_unlinking(links: Set<(i64, i64)>, memory_id: i64, related: Seq<i64>)
    ensures
        links_after(links, unlink_writes(memory_id, related)) == links.difference(link_pairs(memory_id, related)),
    decreases related.len(),
{
    if related.len() == 0 {
        assert(links.difference(link_pairs(memory_id, related)) =~= links);
    } else {
        let init = related.drop_last();
        let r = related.last();
        lemma_links_after_unlinking(links, memory_id, init);
        assert forall|x: i64| #[trigger] related.contains(x) <==> (init.contains(x) || x == r) by {
            if related.contains(x) {
                let i = choose|i: int| 0 <= i < related.len() && related[i] == x;
                if i < related.len() - 1 {
                    assert(init[i] == x);
                }
            }
            if init.contains(x) {
                let i = choose|i: int| 0 <= i < init.len() && init[i] == x;
                assert(related[i] == x);
            }
            if x == r {
                assert(related[related.len() - 1] == x);
            }
        }
        let mid = links_after(links, unlink_writes(memory_id, init));
        let w = (LINK_DELETE@, seq![Bound::Integer(memory_id), Bound::Integer(r)]);
        assert(unlink_writes(memory_id, related) == unlink_writes(memory_id, init).push(w));
        assert(unlink_writes(memory_id, related).drop_last() =~= unlink_writes(memory_id, init));
        assert(links_after(links, unlink_writes(memory_id, related)) == links_after_write(mid, w));
        assert(links_after_write(mid, w) == mid.remove((memory_id, r)).remove((r, memory_id)));
        assert(links_after(links, unlink_writes(memory_id, related))
            =~= links.difference(link_pairs(memory_id, related)));
    }
}

/// Linking a memory to related memories and then unlinking them leaves the
/// links that were there before, less those between that memory and the
/// related ones, either way; every other link is as it was.
pub proof fn lemma_link_then_unlink(links: Set<(i64, i64)>, memory_id: i64, related: Seq<i64>)
    ensures
        links_after(links, link_writes(memory_id, related) + unlink_writes(memory_id, related))
            == links.difference(link_pairs(memory_id, related)),
{
    lemma_links_after_concat(links, link_writes(memory_id, related), unlink_writes(memory_id, related));
    lemma_links_after_linking(links, memory_id, related);
    lemma_links_after_unlinking(links.union(link_pairs(memory_id, related)), memory_id, related);
    assert(links.union(link_pairs(memory_id, related)).difference(link_pairs(memory_id, related))
        =~= links.difference(link_pairs(memory_id, related)));
}

/// Links are made in both directions: after linking a memory to related
/// memories, there is a link from it to each of them and from each of
/// them back to it.
pub proof fn lemma_links_both_ways(memory_id: i64, related: Seq<i64>, k: int)
    requires
        0 <= k < related.len(),
    ensures
        link_writes(memory_id, related).contains(link_write(memory_id, related[k])),
        link_writes(memory_id, related).contains(link_write(related[k], memory_id)),
    decreases related.len(),
{
    let w = link_writes(memory_id, related);
    let init = link_writes(memory_id, related.drop_last());
    if k == related.len() - 1 {
        assert(w[init.len() as int] == link_write(memory_id, related[k]));
        assert(w[init.len() + 1int] == link_write(related[k], memory_id));
    } else {
        lemma_links_both_ways(memory_id, related.drop_last(), k);
        let i = choose|i: int| 0 <= i < init.len() && init[i] == link_write(memory_id, related[k]);
        let j = choose|j: int| 0 <= j < init.len() && init[j] == link_write(related[k], memory_id);
        assert(w[i] == init[i]);
        assert(w[j] == init[j]);
    }
}

/// The writes of a creation before it links the new memory: the insert of
/// the memory and its associations.
pub open spec fn memory_create_head(p: CreateMemoryParams, t: Timestamp, source_files: Bound, id: i64) -> Seq<Write> {
    seq![memory_insert_write(p, t, source_files)]
        + assoc_writes(MEMORY_PROJECT_INSERT@, id, p.project_ids@)
        + assoc_writes(MEMORY_ENTITY_INSERT@, id, p.entity_ids@)
        + assoc_writes(MEMORY_DOCUMENT_INSERT@, id, p.document_ids@)
        + assoc_writes(MEMORY_CODE_ARTIFACT_INSERT@, id, p.code_artifact_ids@)
}

/// A creation of a memory that failed had made the first `n` of its
/// writes, at least the insert of the memory; the writes after the insert
/// name the rowid SQLite gave it; when the new memory could not be loaded,
/// that is said of its id.
pub open spec fn create_cut_short(p: CreateMemoryParams, before: Seq<Write>, after: Seq<Write>, e: DbError) -> bool {
    exists|t: Timestamp, source_files: Bound, id: i64, similar: Seq<i64>, n: int|
        list_bound_ok(p.source_files, source_files)
        && 1 <= n <= memory_create_writes(p, t, source_files, id, similar).len()
        && after == before + #[trigger] memory_create_writes(p, t, source_files, id, similar).take(n)
        && (n >= 2 ==> inserted_rowid(before.push(memory_insert_write(p, t, source_files)), id))
        && (e is NotFound ==> memory_unloadable(id))
}

/// The writes of a creation are its head, then the links, then the log
/// entry; a cut of the head is a cut of the whole.
proof fn lemma_create_head(p: CreateMemoryParams, t: Timestamp, sf: Bound, id: i64, similar: Seq<i64>, k: int)
    requires
        0 <= k <= memory_create_head(p, t, sf, id).len(),
    ensures
        memory_create_head(p, t, sf, id).len() == 1 + p.project_ids.len() + p.entity_ids.len()
            + p.document_ids.len() + p.code_artifact_ids.len(),
        memory_create_writes(p, t, sf, id, similar) == memory_create_head(p, t, sf, id)
            + link_writes(id, similar) + seq![activity_write("memory"@, id, "create"@, None)],
        memory_create_writes(p, t, sf, id, similar).take(k) == memory_create_head(p, t, sf, id).take(k),
        memory_create_writes(p, t, sf, id, similar).len() == memory_create_head(p, t, sf, id).len()
            + 2 * similar.len() + 1,
{
    lemma_assoc_writes_take(MEMORY_PROJECT_INSERT@, id, p.project_ids@, 0);
    lemma_assoc_writes_take(MEMORY_ENTITY_INSERT@, id, p.entity_ids@, 0);
    lemma_assoc_writes_take(MEMORY_DOCUMENT_INSERT@, id, p.document_ids@, 0);
    lemma_assoc_writes_take(MEMORY_CODE_ARTIFACT_INSERT@, id, p.code_artifact_ids@, 0);
    lemma_link_writes_take(id, similar, 0);
    let w = memory_create_writes(p, t, sf, id, similar);
    let h = memory_create_head(p, t, sf, id);
    assert(w =~= h + link_writes(id, similar) + seq![activity_write("memory"@, id, "create"@, None)]);
    assert(w.take(k) =~= h.take(k));
}

impl Database {
    /// Creates a memory owned by the default user, with its associations;
    /// links it to the memories most similar to it, logs the creation and
    /// returns the memory as stored. An auto-forget date that is in none of
    /// the accepted forms (see `forget_after_of`) is dropped.
    #[verifier::spinoff_prover]
    #[verifier::rlimit(60)]
    pub fn create_memory(&mut self, p: &CreateMemoryParams) -> (r: Result<MemoryWithLinks, DbError>)
        ensures
            r matches Ok(x) ==> exists|t: Timestamp, source_files: Bound, id: i64, similar: Seq<MemoryWithLinks>|
                list_bound_ok(p.source_files, source_files)
                && auto_linked(id, similar)
                && final(self).log() == old(self).log()
                    + #[trigger] memory_create_writes(*p, t, source_files, id, memory_ids(similar))
                && inserted_rowid(old(self).log().push(memory_insert_write(*p, t, source_files)), id)
                && memory_loaded(id, x),
            r matches Ok(x) ==> memory_read(x.memory),
            r matches Err(e) ==> (e is Sqlite || e is InvalidTimestamp || e is NotFound),
            r matches Err(DbError::InvalidTimestamp) ==> final(self).log() == old(self).log(),
            r matches Err(e) ==> (e is InvalidTimestamp || create_cut_short(*p, old(self).log(), final(self).log(), e)),
    {
        let user_id = Database::default_user_id();
        let (now, now_v) = now_value()?;
        let keywords_json = match json_encode_strings(&p.keywords) {
            Ok(s) => s,
            Err(e) => { return Err(DbError::Json(e)); },
        };
        let tags_json = match json_encode_strings(&p.tags) {
            Ok(s) => s,
            Err(e) => { return Err(DbError::Json(e)); },
        };
        let source_files_json = opt_list_json(&p.source_files);
        let forget_after = match &p.forget_after {
            Some(s) => parse_forget_after(s.as_str()),
            None => None,
        };
        let forget_after_v = match forget_after {
            Some(t) => timestamp_value(&t)?,
            None => SqlValue::Null,
        };
        let now_v2 = match &now_v { SqlValue::Text(t) => SqlValue::Text(t.clone()), _ => SqlValue::Null };
        let ghost sf = bound(source_files_json);
        let params = vec![
            SqlValue::Text(user_id),
            SqlValue::Text(p.title.clone()),
            SqlValue::Text(p.content.clone()),
            SqlValue::Text(p.context.clone()),
            SqlValue::Text(keywords_json),
            SqlValue::Text(tags_json),
            SqlValue::Integer(p.importance as i64),
            opt_string_value(&p.source_repo),
            source_files_json,
            opt_string_value(&p.source_url),
            match &p.confidence { Some(c) => number_value(c), None => SqlValue::Null },
            opt_string_value(&p.encoding_agent),
            SqlValue::Text(p.memory_type.clone()),
            opt_string_value(&p.container_tag),
            forget_after_v,
            now_v,
            now_v2,
        ];
        assert(bound_all(params@) =~= memory_insert_write(*p, now, sf).1);
        let columns: Vec<&'static str> = vec![
            "user_id", "title", "content", "context", "keywords", "tags", "importance",
            "source_repo", "source_files", "source_url", "confidence", "encoding_agent",
            "memory_type", "container_tag", "forget_after", "created_at", "updated_at",
        ];
        assert(views(columns@) =~= memory_insert_columns());
        let insert = insert_statement("INSERT", "memories", &columns);
        let ghost start = self.log();
        let inserted = self.execute(insert.as_str(), params);
        let memory_id = self.last_insert_rowid();
        let ghost head = memory_create_head(*p, now, sf, memory_id);
        let ghost none = Seq::<i64>::empty();
        proof { lemma_create_head(*p, now, sf, memory_id, none, 1); }
        assert(head.take(1) =~= seq![memory_insert_write(*p, now, sf)]);
        if let Err(e) = inserted {
            assert(self.log() =~= start + memory_create_writes(*p, now, sf, memory_id, none).take(1));
            return Err(e);
        }
        let ghost a1 = assoc_writes(MEMORY_PROJECT_INSERT@, memory_id, p.project_ids@);
        let ghost a2 = assoc_writes(MEMORY_ENTITY_INSERT@, memory_id, p.entity_ids@);
        let ghost a3 = assoc_writes(MEMORY_DOCUMENT_INSERT@, memory_id, p.document_ids@);
        let ghost a4 = assoc_writes(MEMORY_CODE_ARTIFACT_INSERT@, memory_id, p.code_artifact_ids@);
        let ghost ins = seq![memory_insert_write(*p, now, sf)];
        proof {
            lemma_assoc_writes_take(MEMORY_PROJECT_INSERT@, memory_id, p.project_ids@, 0);
            lemma_assoc_writes_take(MEMORY_ENTITY_INSERT@, memory_id, p.entity_ids@, 0);
            lemma_assoc_writes_take(MEMORY_DOCUMENT_INSERT@, memory_id, p.document_ids@, 0);
            lemma_assoc_writes_take(MEMORY_CODE_ARTIFACT_INSERT@, memory_id, p.code_artifact_ids@, 0);
        }
        let ghost w1 = self.log();
        if let Err(e) = associate_all(self, MEMORY_PROJECT_INSERT, memory_id, &p.project_ids) {
            let ghost n = choose|n: int| 1 <= n <= p.project_ids.len() && self.log() == w1 + #[trigger] a1.take(n);
            proof { lemma_create_head(*p, now, sf, memory_id, none, 1 + n); }
            assert(head.take(1 + n) =~= ins + a1.take(n));
            assert(self.log() =~= start + memory_create_writes(*p, now, sf, memory_id, none).take(1 + n));
            return Err(e);
        }
        let ghost w2 = self.log();
        if let Err(e) = associate_all(self, MEMORY_ENTITY_INSERT, memory_id, &p.entity_ids) {
            let ghost n = choose|n: int| 1 <= n <= p.entity_ids.len() && self.log() == w2 + #[trigger] a2.take(n);
            let ghost k = 1 + a1.len() + n;
            proof { lemma_create_head(*p, now, sf, memory_id, none, k); }
            assert(head.take(k) =~= ins + a1 + a2.take(n));
            assert(self.log() =~= start + memory_create_writes(*p, now, sf, memory_id, none).take(k));
            return Err(e);
        }
        let ghost w3 = self.log();
        if let Err(e) = associate_all(self, MEMORY_DOCUMENT_INSERT, memory_id, &p.document_ids) {
            let ghost n = choose|n: int| 1 <= n <= p.document_ids.len() && self.log() == w3 + #[trigger] a3.take(n);
            let ghost k = 1 + a1.len() + a2.len() + n;
            proof { lemma_create_head(*p, now, sf, memory_id, none, k); }
            assert(head.take(k) =~= ins + a1 + a2 + a3.take(n));
            assert(self.log() =~= start + memory_create_writes(*p, now, sf, memory_id, none).take(k));
            return Err(e);
        }
        let ghost w4 = self.log();
        if let Err(e) = associate_all(self, MEMORY_CODE_ARTIFACT_INSERT, memory_id, &p.code_artifact_ids) {
            let ghost n = choose|n: int| 1 <= n <= p.code_artifact_ids.len() && self.log() == w4 + #[trigger] a4.take(n);
            let ghost k = 1 + a1.len() + a2.len() + a3.len() + n;
            proof { lemma_create_head(*p, now, sf, memory_id, none, k); }
            assert(head.take(k) =~= ins + a1 + a2 + a3 + a4.take(n));
            assert(self.log() =~= start + memory_create_writes(*p, now, sf, memory_id, none).take(k));
            return Err(e);
        }
        let ghost before_links = self.log();
        assert(before_links =~= start + head);
        if let Err(e) = self.auto_link_memory(memory_id) {
            let ghost (ids, n) = choose|ids: Seq<i64>, n: int| 0 <= n <= 2 * ids.len()
                && self.log() == before_links + #[trigger] link_writes(memory_id, ids).take(n);
            let ghost k = head.len() + n;
            proof { lemma_create_head(*p, now, sf, memory_id, ids, head.len() as int); }
            assert(memory_create_writes(*p, now, sf, memory_id, ids).take(k) =~= head + link_writes(memory_id, ids).take(n));
            assert(self.log() =~= start + memory_create_writes(*p, now, sf, memory_id, ids).take(k));
            return Err(e);
        }
        let ghost similar = choose|similar: Seq<MemoryWithLinks>| auto_linked(memory_id, similar)
            && self.log() == before_links + link_writes(memory_id, memory_ids(similar));
        let ghost all = memory_create_writes(*p, now, sf, memory_id, memory_ids(similar));
        proof { lemma_create_head(*p, now, sf, memory_id, memory_ids(similar), 0); }
        let logged = self.log_activity("memory", memory_id, "create", None);
        assert(self.log() =~= start + all);
        assert(all.take(all.len() as int) =~= all);
        if let Err(e) = logged {
            return Err(e);
        }
        self.get_memory_with_links(memory_id)
    }

    /// Sets the given fields of a memory and its update time (see
    /// `memory_update_cols`), logs the update and returns the memory.
    pub fn update_memory(&mut self, p: &UpdateMemoryParams) -> (r: Result<MemoryWithLinks, DbError>)
        ensures
            (r is Ok || r matches Err(DbError::NotFound(_, _))) ==> exists|t: Timestamp, vals: Seq<Bound>|
                memory_update_bound(*p, vals) && final(self).log() == old(self).log() + seq![
                #[trigger] update_write("memories"@, memory_update_cols(*p), t, vals, p.memory_id),
                activity_write("memory"@, p.memory_id, "update"@, None),
            ],
            r matches Err(DbError::Sqlite(_)) ==> exists|t: Timestamp, vals: Seq<Bound>| memory_update_bound(*p, vals) && (
                final(self).log() == old(self).log() + seq![#[trigger] update_write("memories"@, memory_update_cols(*p), t, vals, p.memory_id)]
                || final(self).log() == old(self).log() + seq![
                    update_write("memories"@, memory_update_cols(*p), t, vals, p.memory_id),
                    activity_write("memory"@, p.memory_id, "update"@, None),
                ]),
            r matches Err(DbError::InvalidTimestamp) ==> final(self).log() == old(self).log(),
            r matches Ok(x) ==> memory_read(x.memory),
            r matches Ok(x) ==> memory_loaded(p.memory_id, x),
            r matches Err(DbError::NotFound(_, _)) ==> memory_unloadable(p.memory_id),
            r matches Err(e) ==> (e is Sqlite || e is InvalidTimestamp
                || e == DbError::NotFound(RecordKind::Memory, p.memory_id)),
    {
        let ghost start = self.log();
        let (cols, vals) = memory_update_columns(p);
        let ghost vb = bound_all(vals@);
        let ran = run_update(self, "memories", &cols, vals, p.memory_id);
        if let Err(e) = ran {
            proof {
                if !(e is InvalidTimestamp) {
                    let t = choose|t: Timestamp| sql_datetime_text(t) is Some
                        && self.log() == start.push(update_write("memories"@, views(cols@), t, vb, p.memory_id));
                    assert(self.log() =~= start + seq![update_write("memories"@, memory_update_cols(*p), t, vb, p.memory_id)]);
                }
            }
            return Err(e);
        }
        let ghost t = choose|t: Timestamp| sql_datetime_text(t) is Some
            && self.log() == start.push(update_write("memories"@, views(cols@), t, vb, p.memory_id));
        let logged = self.log_activity("memory", p.memory_id, "update", None);
        assert(self.log() =~= start + seq![
            update_write("memories"@, memory_update_cols(*p), t, vb, p.memory_id),
            activity_write("memory"@, p.memory_id, "update"@, None),
        ]);
        if let Err(e) = logged {
            return Err(e);
        }
        self.get_memory_with_links_inner(p.memory_id)
    }

    /// Deletes a memory for good; its links and associations go with it.
    pub fn delete_memory(&mut self, memory_id: i64) -> (r: Result<(), DbError>)
        ensures
            r is Ok ==> final(self).log() == old(self).log() + seq![
                activity_write("memory"@, memory_id, "delete"@, None),
                (MEMORY_DELETE@, seq![Bound::Integer(memory_id)]),
            ],
            r is Err ==> r->Err_0 is Sqlite,
            r is Err ==> final(self).log() == old(self).log() + seq![activity_write("memory"@, memory_id, "delete"@, None)]
                || final(self).log() == old(self).log() + seq![
                    activity_write("memory"@, memory_id, "delete"@, None),
                    (MEMORY_DELETE@, seq![Bound::Integer(memory_id)]),
                ],
    {
        if let Err(e) = self.log_activity_inner("memory", memory_id, "delete", None) {
            assert(self.log() =~= old(self).log() + seq![activity_write("memory"@, memory_id, "delete"@, None)]);
            return Err(e);
        }
        let params = vec![SqlValue::Integer(memory_id)];
        assert(bound_all(params@) =~= seq![Bound::Integer(memory_id)]);
        let done = self.execute(MEMORY_DELETE, params);
        assert(self.log() =~= old(self).log() + seq![
            activity_write("memory"@, memory_id, "delete"@, None),
            (MEMORY_DELETE@, seq![Bound::Integer(memory_id)]),
        ]);
        if let Err(e) = done {
            return Err(e);
        }
        Ok(())
    }

    /// Links a memory to each related memory in both directions.
    pub fn link_memories(&mut self, memory_id: i64, related_ids: &Vec<i64>) -> (r: Result<(), DbError>)
        ensures
            r is Ok ==> final(self).log() == old(self).log() + link_writes(memory_id, related_ids@),
            r is Err ==> r->Err_0 is Sqlite,
            r is Err ==> exists|n: int| 1 <= n <= 2 * related_ids.len()
                && final(self).log() == old(self).log() + #[trigger] link_writes(memory_id, related_ids@).take(n),
    {
        let ghost start = self.log();
        let mut i: usize = 0;
        while i < related_ids.len()
            invariant
                i <= related_ids.len(),
                self.log() == start + link_writes(memory_id, related_ids@.take(i as int)),
                start == old(self).log(),
            decreases related_ids.len() - i,
        {
            let rid = related_ids[i];
            let ghost before = self.log();
            proof {
                lemma_link_writes_take(memory_id, related_ids@, i + 1);
                lemma_link_writes_take(memory_id, related_ids@, i as int);
                assert(related_ids@.take(i + 1).last() == rid);
            }
            let forth = vec![SqlValue::Text(Database::default_user_id()), SqlValue::Integer(memory_id), SqlValue::Integer(rid)];
            assert(bound_all(forth@) =~= link_write(memory_id, rid).1);
            assert(related_ids@.take(i + 1).drop_last() =~= related_ids@.take(i as int));
            let done = self.execute(LINK_INSERT, forth);
            if let Err(e) = done {
                assert(link_writes(memory_id, related_ids@.take(i + 1)) == link_writes(memory_id, related_ids@.take(i as int))
                    + seq![link_write(memory_id, rid), link_write(rid, memory_id)]);
                assert(link_writes(memory_id, related_ids@).take(2 * i + 1)
                    =~= link_writes(memory_id, related_ids@.take(i + 1)).take(2 * i + 1));
                assert(self.log() =~= start + link_writes(memory_id, related_ids@).take(2 * i + 1));
                return Err(e);
            }
            let back = vec![SqlValue::Text(Database::default_user_id()), SqlValue::Integer(rid), SqlValue::Integer(memory_id)];
            assert(bound_all(back@) =~= link_write(rid, memory_id).1);
            let done = self.execute(LINK_INSERT, back);
            assert(self.log() =~= start + link_writes(memory_id, related_ids@.take(i + 1)));
            if let Err(e) = done {
                assert(self.log() == start + link_writes(memory_id, related_ids@).take(2 * i + 2));
                return Err(e);
            }
            i = i + 1;
        }
        assert(related_ids@.take(i as int) =~= related_ids@);
        Ok(())
    }

    /// Removes the links between a memory and each related memory, in both
    /// directions.
    pub fn unlink_memories(&mut self, memory_id: i64, related_ids: &Vec<i64>) -> (r: Result<(), DbError>)
        ensures
            r is Ok ==> final(self).log() == old(self).log() + unlink_writes(memory_id, related_ids@),
            r is Err ==> r->Err_0 is Sqlite,
            r is Err ==> exists|n: int| 0 < n <= related_ids.len()
                && final(self).log() == old(self).log() + #[trigger] unlink_writes(memory_id, related_ids@.take(n)),
    {
        let ghost start = self.log();
        let mut i: usize = 0;
        while i < related_ids.len()
            invariant
                i <= related_ids.len(),
                self.log() == start + unlink_writes(memory_id, related_ids@.take(i as int)),
                start == old(self).log(),
            decreases related_ids.len() - i,
        {
            let params = vec![SqlValue::Integer(memory_id), SqlValue::Integer(related_ids[i])];
            assert(bound_all(params@) =~= seq![Bound::Integer(memory_id), Bound::Integer(related_ids@[i as int])]);
            let done = self.execute(LINK_DELETE, params);
            assert(related_ids@.take(i + 1).drop_last() =~= related_ids@.take(i as int));
            assert(self.log() =~= start + unlink_writes(memory_id, related_ids@.take(i + 1)));
            if let Err(e) = done {
                return Err(e);
            }
            i = i + 1;
        }
        assert(related_ids@.take(i as int) =~= related_ids@);
        Ok(())
    }

    /// Marks a memory obsolete, with the reason and what supersedes it.
    pub fn mark_obsolete(&mut self, memory_id: i64, reason: &str, superseded_by: Option<i64>) -> (r: Result<MemoryWithLinks, DbError>)
        ensures
            (r is Ok || r matches Err(DbError::NotFound(_, _))) ==> exists|t: Timestamp|
                final(self).log() == old(self).log() + seq![
                #[trigger] obsolete_write(memory_id, reason@, superseded_by, t),
                activity_write("memory"@, memory_id, "mark_obsolete"@, None),
            ],
            r matches Err(DbError::Sqlite(_)) ==> exists|t: Timestamp|
                final(self).log() == old(self).log() + seq![#[trigger] obsolete_write(memory_id, reason@, superseded_by, t)]
                || final(self).log() == old(self).log() + seq![
                    obsolete_write(memory_id, reason@, superseded_by, t),
                    activity_write("memory"@, memory_id, "mark_obsolete"@, None),
                ],
            r matches Err(DbError::InvalidTimestamp) ==> final(self).log() == old(self).log(),
            r matches Ok(x) ==> memory_read(x.memory),
            r matches Ok(x) ==> memory_loaded(memory_id, x),
            r matches Err(DbError::NotFound(_, _)) ==> memory_unloadable(memory_id),
            r matches Err(e) ==> (e is Sqlite || e is InvalidTimestamp
                || e == DbError::NotFound(RecordKind::Memory, memory_id)),
    {
        let (now, now_v) = now_value()?;
        let params = vec![SqlValue::Text(reason.to_owned()), opt_int_value(superseded_by), now_v, SqlValue::Integer(memory_id)];
        assert(bound_all(params@) =~= obsolete_write(memory_id, reason@, superseded_by, now).1);
        if let Err(e) = self.execute(MARK_OBSOLETE, params) {
            assert(self.log() =~= old(self).log() + seq![obsolete_write(memory_id, reason@, superseded_by, now)]);
            return Err(e);
        }
        let logged = self.log_activity("memory", memory_id, "mark_obsolete", None);
        assert(self.log() =~= old(self).log() + seq![
            obsolete_write(memory_id, reason@, superseded_by, now),
            activity_write("memory"@, memory_id, "mark_obsolete"@, None),
        ]);
        if let Err(e) = logged {
            return Err(e);
        }
        self.get_memory_with_links_inner(memory_id)
    }

    /// Marks a memory forgotten: no longer needed, kept for audit.
    pub fn forget_memory(&mut self, memory_id: i64, reason: Option<&str>) -> (r: Result<MemoryWithLinks, DbError>)
        ensures
            (r is Ok || r matches Err(DbError::NotFound(_, _))) ==> exists|t: Timestamp|
                final(self).log() == old(self).log() + seq![
                #[trigger] forgotten_write(memory_id, view_opt_str(reason), t),
                activity_write("memory"@, memory_id, "forget"@, None),
            ],
            r matches Err(DbError::Sqlite(_)) ==> exists|t: Timestamp|
                final(self).log() == old(self).log() + seq![#[trigger] forgotten_write(memory_id, view_opt_str(reason), t)]
                || final(self).log() == old(self).log() + seq![
                    forgotten_write(memory_id, view_opt_str(reason), t),
                    activity_write("memory"@, memory_id, "forget"@, None),
                ],
            r matches Err(DbError::InvalidTimestamp) ==> final(self).log() == old(self).log(),
            r matches Ok(x) ==> memory_read(x.memory),
            r matches Ok(x) ==> memory_loaded(memory_id, x),
            r matches Err(DbError::NotFound(_, _)) ==> memory_unloadable(memory_id),
            r matches Err(e) ==> (e is Sqlite || e is InvalidTimestamp
                || e == DbError::NotFound(RecordKind::Memory, memory_id)),
    {
        let (now, now_v) = now_value()?;
        let params = vec![now_v, opt_text_value(reason), SqlValue::Integer(memory_id)];
        assert(bound_all(params@) =~= forgotten_write(memory_id, view_opt_str(reason), now).1);
        if let Err(e) = self.execute(MARK_FORGOTTEN, params) {
            assert(self.log() =~= old(self).log() + seq![forgotten_write(memory_id, view_opt_str(reason), now)]);
            return Err(e);
        }
        let logged = self.log_activity("memory", memory_id, "forget", None);
        assert(self.log() =~= old(self).log() + seq![
            forgotten_write(memory_id, view_opt_str(reason), now),
            activity_write("memory"@, memory_id, "forget"@, None),
        ]);
        if let Err(e) = logged {
            return Err(e);
        }
        self.get_memory_with_links_inner(memory_id)
    }

    /// Marks forgotten every memory whose auto-forget date has come; the
    /// number of memories marked.
    pub fn process_auto_forget(&mut self) -> (r: Result<usize, DbError>)
        ensures
            !(r matches Err(DbError::InvalidTimestamp)) ==> exists|t: Timestamp|
                final(self).log() == old(self).log().push(#[trigger] expiry_write(t)),
            r matches Err(DbError::InvalidTimestamp) ==> final(self).log() == old(self).log(),
            r matches Err(e) ==> (e is Sqlite || e is InvalidTimestamp),
            r matches Ok(n) ==> rows_changed(final(self).log(), n),
    {
        let (now, now_v) = now_value()?;
        let params = vec![now_v];
        assert(bound_all(params@) =~= expiry_write(now).1);
        let r = self.execute(FORGET_EXPIRED, params);
        assert(self.log() == old(self).log().push(expiry_write(now)));
        r
    }

    /// Marks forgotten the memories whose auto-forget date has come, then
    /// searches (see `query_memories`): the expiry goes to SQLite before the
    /// search, and its failure does not stop the search.
    pub fn expire_then_query_memories(&mut self, p: &QueryMemoryParams) -> (r: Result<SearchResult, DbError>)
        ensures
            final(self).log() == old(self).log() || exists|t: Timestamp|
                final(self).log() == old(self).log().push(#[trigger] expiry_write(t)),
            r matches Ok(res) ==> exists|now: Timestamp, cands: Seq<MemoryWithLinks>, fetched: Seq<Seq<Option<MemoryWithLinks>>>|
                #![trigger search_answer(res, *p, cands, fetched, now)]
                search_answer(res, *p, cands, fetched, now) && search_read(*p, now, cands, res.primary_memories@, fetched),
            r matches Err(e) ==> e is InvalidTimestamp
                || (e is Sqlite && search_failed(crate::text::fts_query(p.query@, context_view(*p)))),
    {
        let _expired = self.process_auto_forget();
        self.query_memories(p)
    }

    /// Marks forgotten the memories whose auto-forget date has come, then
    /// lists the recent memories (see `get_recent_memories`); the expiry's
    /// failure does not stop the listing.
    pub fn expire_then_get_recent(&mut self, limit: i32, project_ids: &Vec<i64>, container_tag: Option<&str>)
        -> (r: Result<Vec<MemoryWithLinks>, DbError>)
        ensures
            final(self).log() == old(self).log() || exists|t: Timestamp|
                final(self).log() == old(self).log().push(#[trigger] expiry_write(t)),
            r matches Ok(v) ==> forall|i: int| 0 <= i < v.len() ==> memory_read((#[trigger] v@[i]).memory),
            r matches Ok(v) ==> forall|i: int| 0 <= i < v.len() ==>
                passes_project_list(project_ids@, (#[trigger] v@[i]).project_ids@),
            r matches Ok(v) ==> exists|rows: Seq<Vec<SqlValue>>|
                #[trigger] answered(recent_query(view_opt_str(container_tag)), recent_params(limit, view_opt_str(container_tag)), rows)
                && loaded_list(first_ints(rows), project_ids@, v@),
            r is Err ==> r->Err_0 is Sqlite && query_failed(recent_query(view_opt_str(container_tag)), recent_params(limit, view_opt_str(container_tag))),
    {
        let _expired = self.process_auto_forget();
        self.get_recent_memories(limit, project_ids, container_tag)
    }

    /// Reads each memory of a list of ids; ids that cannot be read are left
    /// out. With project ids given, only memories in one of them are kept.
    fn memories_in_projects(&self, ids: &Vec<i64>, project_ids: &Vec<i64>) -> (r: Vec<MemoryWithLinks>)
        ensures
            r.len() <= ids.len(),
            loaded_list(ids@, project_ids@, r@),
            forall|i: int| 0 <= i < r.len() ==> {
                &&& passes_project_list(project_ids@, (#[trigger] r@[i]).project_ids@)
                &&& memory_read(r@[i].memory)
            },
    {
        let mut results: Vec<MemoryWithLinks> = Vec::new();
        let mut i: usize = 0;
        while i < ids.len()
            invariant
                i <= ids.len(),
                results.len() <= i,
                forall|j: int| 0 <= j < results.len() ==> {
                    &&& passes_project_list(project_ids@, (#[trigger] results@[j]).project_ids@)
                    &&& memory_read(results@[j].memory)
                },
                loaded_list(ids@.take(i as int), project_ids@, results@),
            decreases ids.len() - i,
        {
            let ghost done = results@;
            assert(ids@.take(i + 1).drop_last() =~= ids@.take(i as int));
            assert(ids@.take(i + 1).last() == ids@[i as int]);
            match self.get_memory_with_links_inner(ids[i]) {
                Ok(mem) => {
                    if project_ids.len() == 0 || shares_i64(project_ids, &mem.project_ids) {
                        results.push(mem);
                        assert(results@.drop_last() =~= done);
                    } else {
                        assert(memory_loaded(ids@[i as int], mem));
                    }
                },
                Err(_) => {},
            }
            i = i + 1;
        }
        assert(ids@.take(ids.len() as int) =~= ids@);
        results
    }

    /// The most recently updated memories that are neither obsolete nor
    /// forgotten (at most `limit`, in the given container), newest first;
    /// with project ids given, only those in one of the projects.
    pub fn get_recent_memories(&self, limit: i32, project_ids: &Vec<i64>, container_tag: Option<&str>) -> (r: Result<Vec<MemoryWithLinks>, DbError>)
        ensures
            r matches Ok(v) ==> forall|i: int| 0 <= i < v.len() ==> memory_read((#[trigger] v@[i]).memory),
            r matches Ok(v) ==> forall|i: int| 0 <= i < v.len() ==>
                passes_project_list(project_ids@, (#[trigger] v@[i]).project_ids@),
            r matches Ok(v) ==> exists|rows: Seq<Vec<SqlValue>>|
                #[trigger] answered(recent_query(view_opt_str(container_tag)), recent_params(limit, view_opt_str(container_tag)), rows)
                && loaded_list(first_ints(rows), project_ids@, v@),
            r is Err ==> r->Err_0 is Sqlite && query_failed(recent_query(view_opt_str(container_tag)), recent_params(limit, view_opt_str(container_tag))),
    {
        let ghost q = recent_query(view_opt_str(container_tag));
        let ghost pb = recent_params(limit, view_opt_str(container_tag));
        let rows = match container_tag {
            Some(ct) => {
                let params: Vec<SqlValue> = vec![SqlValue::Integer(limit as i64), SqlValue::Text(ct.to_owned())];
                assert(bound_all(params@) =~= pb);
                self.query_ok_rows(RECENT_IN_CONTAINER, params, 1)?
            },
            None => {
                let params: Vec<SqlValue> = vec![SqlValue::Integer(limit as i64)];
                assert(bound_all(params@) =~= pb);
                self.query_ok_rows(RECENT_MEMORIES, params, 1)?
            },
        };
        let ghost rv = rows@;
        let ids = ids_of_rows(rows);
        let r = self.memories_in_projects(&ids, project_ids);
        assert(answered(q, pb, rv) && loaded_list(first_ints(rv), project_ids@, r@));
        Ok(r)
    }

    /// Creates the next version of a memory: the parent stops being the
    /// latest; the new memory has the parent's version plus one, the
    /// parent's owner, and the parent's project and entity associations.
    pub fn create_version(&mut self, p: &CreateVersionParams) -> (r: Result<MemoryWithLinks, DbError>)
        ensures
            r matches Ok(x) ==> exists|t: Timestamp, parent_version: i32, owner: Seq<char>, new_id: i64|
                final(self).log() == old(self).log() + #[trigger] version_writes(*p, t, parent_version, owner, new_id)
                && parent_row(p.parent_memory_id, parent_version, owner)
                && inserted_rowid(old(self).log() + version_writes(*p, t, parent_version, owner, new_id).take(2), new_id)
                && memory_loaded(new_id, x),
            r matches Ok(x) ==> memory_read(x.memory),
            r matches Err(DbError::NotFound(RecordKind::ParentMemory, _)) ==> final(self).log() == old(self).log()
                && parent_missing(p.parent_memory_id),
            r matches Err(DbError::InvalidTimestamp) ==> final(self).log() == old(self).log(),
            r matches Err(e) ==> (e is Sqlite || e is InvalidTimestamp || e is NotFound),
            r matches Err(e) ==> (e is InvalidTimestamp || e matches DbError::NotFound(RecordKind::ParentMemory, _)
                || exists|t: Timestamp, parent_version: i32, owner: Seq<char>, new_id: i64, n: int|
                1 <= n <= 5 && parent_row(p.parent_memory_id, parent_version, owner)
                && final(self).log() == old(self).log() + #[trigger] version_writes(*p, t, parent_version, owner, new_id).take(n)
                && (n >= 3 ==> inserted_rowid(old(self).log() + version_writes(*p, t, parent_version, owner, new_id).take(2), new_id))
                && (e is NotFound ==> n == 5 && memory_unloadable(new_id))),
    {
        let params: Vec<SqlValue> = vec![SqlValue::Integer(p.parent_memory_id)];
        assert(bound_all(params@) =~= seq![Bound::Integer(p.parent_memory_id)]);
        let row = self.query_first(PARENT_ROW, params, 2);
        let ghost first = row;
        assert(first_answer(PARENT_ROW@, seq![Bound::Integer(p.parent_memory_id)], first));
        let (parent_version, parent_user_id) = match row {
            Some(r) => {
                let mut r = r;
                let ghost rv = r@;
                let user = as_text(r.pop().unwrap());
                let version = as_i32(r.pop().unwrap());
                assert(r@ =~= rv.take(0));
                match (version, user) {
                    (Some(v), Some(u)) => (v, u),
                    _ => { return Err(DbError::NotFound(RecordKind::ParentMemory, p.parent_memory_id)); },
                }
            },
            None => { return Err(DbError::NotFound(RecordKind::ParentMemory, p.parent_memory_id)); },
        };
        let (now, now_v) = now_value()?;
        let now_v2 = match &now_v { SqlValue::Text(t) => SqlValue::Text(t.clone()), _ => SqlValue::Null };
        let now_v3 = match &now_v { SqlValue::Text(t) => SqlValue::Text(t.clone()), _ => SqlValue::Null };
        let new_version = next_version(parent_version);
        let keywords_json = match json_encode_strings(&p.keywords) {
            Ok(s) => s,
            Err(e) => { return Err(DbError::Json(e)); },
        };
        let tags_json = match json_encode_strings(&p.tags) {
            Ok(s) => s,
            Err(e) => { return Err(DbError::Json(e)); },
        };
        let ghost start = self.log();
        let ghost owner = parent_user_id@;
        let stale = vec![now_v, SqlValue::Integer(p.parent_memory_id)];
        assert(bound_all(stale@) =~= seq![Bound::Text(clock_text(now)), Bound::Integer(p.parent_memory_id)]);
        assert(parent_row(p.parent_memory_id, parent_version, owner));
        let ghost head = version_writes(*p, now, parent_version, owner, 0);
        if let Err(e) = self.execute(PARENT_NOT_LATEST, stale) {
            assert(self.log() =~= start + head.take(1));
            return Err(e);
        }
        let insert = vec![
            SqlValue::Text(parent_user_id),
            SqlValue::Text(p.title.clone()),
            SqlValue::Text(p.content.clone()),
            SqlValue::Text(p.context.clone()),
            SqlValue::Text(keywords_json),
            SqlValue::Text(tags_json),
            SqlValue::Integer(p.importance as i64),
            SqlValue::Integer(new_version as i64),
            SqlValue::Integer(p.parent_memory_id),
            SqlValue::Integer(1),
            SqlValue::Text(p.relationship_type.clone()),
            SqlValue::Text(p.memory_type.clone()),
            now_v2,
            now_v3,
        ];
        assert(bound_all(insert@) =~= version_insert_bound(*p, now, parent_version, owner));
        let columns: Vec<&'static str> = vec![
            "user_id", "title", "content", "context", "keywords", "tags", "importance",
            "version", "parent_memory_id", "is_latest", "relationship_type", "memory_type",
            "created_at", "updated_at",
        ];
        assert(views(columns@) =~= version_insert_columns());
        let insert_sql_text = insert_statement("INSERT", "memories", &columns);
        if let Err(e) = self.execute(insert_sql_text.as_str(), insert) {
            assert(self.log() =~= start + head.take(2));
            return Err(e);
        }
        let new_id = self.last_insert_rowid();
        let ghost all = version_writes(*p, now, parent_version, owner, new_id);
        assert(self.log() =~= start + all.take(2));
        assert(inserted_rowid(old(self).log() + all.take(2), new_id));
        let copy = vec![SqlValue::Integer(new_id), SqlValue::Integer(p.parent_memory_id)];
        assert(bound_all(copy@) =~= seq![Bound::Integer(new_id), Bound::Integer(p.parent_memory_id)]);
        if let Err(e) = self.execute(COPY_PROJECTS, copy) {
            assert(self.log() =~= start + all.take(3));
            return Err(e);
        }
        let copy = vec![SqlValue::Integer(new_id), SqlValue::Integer(p.parent_memory_id)];
        assert(bound_all(copy@) =~= seq![Bound::Integer(new_id), Bound::Integer(p.parent_memory_id)]);
        if let Err(e) = self.execute(COPY_ENTITIES, copy) {
            assert(self.log() =~= start + all.take(4));
            return Err(e);
        }
        let logged = self.log_activity("memory", new_id, "create_version", None);
        assert(self.log() =~= start + all);
        assert(all.take(5) =~= all);
        if let Err(e) = logged {
            return Err(e);
        }
        self.get_memory_with_links_inner(new_id)
    }

    /// The parent of a memory, if it has one; a memory that cannot be read
    /// is not found.
    fn parent_of(&self, memory_id: i64) -> (r: Result<Option<i64>, DbError>)
        ensures
            r matches Ok(p) ==> parent_answered(memory_id, p),
            r is Err ==> exists|first: Option<Vec<SqlValue>>|
                #[trigger] first_answer(PARENT_OF@, seq![Bound::Integer(memory_id)], first)
                && (first matches Some(row) ==> opt_int_of(row@[0]) is None),
            r matches Err(e) ==> e == DbError::NotFound(RecordKind::Memory, memory_id),
    {
        let params: Vec<SqlValue> = vec![SqlValue::Integer(memory_id)];
        assert(bound_all(params@) =~= seq![Bound::Integer(memory_id)]);
        let row = self.query_first(PARENT_OF, params, 1);
        let ghost first = row;
        assert(first_answer(PARENT_OF@, seq![Bound::Integer(memory_id)], first));
        match row {
            Some(r) => {
                let mut r = r;
                let ghost rv = r@;
                let v = r.pop().unwrap();
                assert(v == rv[0]);
                match as_opt_int(v) {
                    Some(parent) => Ok(parent),
                    None => Err(DbError::NotFound(RecordKind::Memory, memory_id)),
                }
            },
            None => Err(DbError::NotFound(RecordKind::Memory, memory_id)),
        }
    }

    /// The whole version chain of a memory: from the memory, parent links
    /// are followed up to the first version; then that version and every
    /// version descending from it, by id. Parent links that lead back to a
    /// memory already passed are refused as a cycle.
    pub fn get_version_chain(&self, memory_id: i64) -> (r: Result<Vec<MemoryWithLinks>, DbError>)
        ensures
            r matches Ok(v) ==> forall|i: int| 0 <= i < v.len() ==> memory_read((#[trigger] v@[i]).memory),
            r matches Ok(v) ==> exists|path: Seq<i64>, rows: Seq<Vec<SqlValue>>|
                #[trigger] chain_from(memory_id, path, rows, v@),
            r matches Err(e) ==> (e is Sqlite || e is NotFound || e == DbError::VersionCycle(memory_id)),
            r matches Err(DbError::NotFound(_, id)) ==> exists|path: Seq<i64>|
                #[trigger] parent_path(path, memory_id, path.last()) && path.last() == id && parent_unreadable(id),
            r matches Err(DbError::VersionCycle(_)) ==> exists|path: Seq<i64>, parent: i64|
                #![trigger parent_path(path, memory_id, path.last()), parent_answered(path.last(), Some(parent))]
                parent_path(path, memory_id, path.last()) && parent_answered(path.last(), Some(parent))
                && (path.contains(parent) || path.len() > usize::MAX),
            r matches Err(DbError::Sqlite(_)) ==> exists|path: Seq<i64>|
                #[trigger] parent_path(path, memory_id, path.last()) && parent_answered(path.last(), None)
                && query_failed(VERSION_CHAIN@, seq![Bound::Integer(path.last())]),
    {
        let mut root_id = memory_id;
        let mut visited: Vec<i64> = Vec::new();
        let ghost mut path: Seq<i64> = seq![memory_id];
        loop
            invariant
                visited.len() <= usize::MAX,
                parent_path(path, memory_id, root_id),
                visited@ == path.drop_last(),
            ensures
                parent_path(path, memory_id, root_id),
                parent_answered(root_id, None),
            decreases usize::MAX - visited.len(),
        {
            let parent = match self.parent_of(root_id) {
                Ok(p) => p,
                Err(_) => {
                    assert(parent_path(path, memory_id, path.last()) && parent_unreadable(root_id));
                    return Err(DbError::NotFound(RecordKind::Memory, root_id));
                },
            };
            match parent {
                Some(pid) => {
                    if visited.len() == usize::MAX {
                        assert(parent_path(path, memory_id, path.last()) && parent_answered(path.last(), Some(pid)));
                        return Err(DbError::VersionCycle(memory_id));
                    }
                    visited.push(root_id);
                    assert(visited@ =~= path);
                    if contains_i64(&visited, pid) {
                        assert(parent_path(path, memory_id, path.last()) && parent_answered(path.last(), Some(pid)));
                        return Err(DbError::VersionCycle(memory_id));
                    }
                    proof {
                        let old_path = path;
                        path = path.push(pid);
                        assert(path.drop_last() =~= old_path);
                        assert forall|i: int| 0 <= i < path.len() - 1 implies #[trigger] parent_answered(path[i], Some(path[i + 1])) by {
                            if i < old_path.len() - 1 {
                                assert(path[i] == old_path[i] && path[i + 1] == old_path[i + 1]);
                            } else {
                                assert(path[i] == root_id && path[i + 1] == pid);
                            }
                        }
                    }
                    root_id = pid;
                },
                None => {
                    break;
                },
            }
        }
        let params: Vec<SqlValue> = vec![SqlValue::Integer(root_id)];
        assert(bound_all(params@) =~= seq![Bound::Integer(root_id)]);
        let rows = match self.query_ok_rows(VERSION_CHAIN, params, 1) {
            Ok(v) => v,
            Err(e) => {
                assert(parent_path(path, memory_id, path.last()));
                return Err(e);
            },
        };
        let ghost rv = rows@;
        let ids = ids_of_rows(rows);
        let none: Vec<i64> = Vec::new();
        let v = self.memories_in_projects(&ids, &none);
        assert(none@ =~= Seq::<i64>::empty());
        assert(chain_from(memory_id, path, rv, v@));
        Ok(v)
    }

    /// The memories most similar to one memory (at most `k`), by a search
    /// for the words of its title, content and keywords (see
    /// `similarity_text`) among the other memories that are neither
    /// obsolete nor forgotten.
    pub fn search_similar(&self, memory_id: i64, k: i32) -> (r: Result<Vec<MemoryWithLinks>, DbError>)
        ensures
            r matches Ok(v) ==> forall|i: int| 0 <= i < v.len() ==> memory_read((#[trigger] v@[i]).memory),
            r matches Ok(v) ==> exists|mem: MemoryWithLinks, rows: Seq<Vec<SqlValue>>|
                #[trigger] similar_from(memory_id, k, mem, rows, v@),
            r matches Err(e) && e is NotFound ==> memory_unloadable(memory_id),
            r matches Err(e) ==> (e is Sqlite || e == DbError::NotFound(RecordKind::Memory, memory_id)),
    {
        let mem = self.get_memory_with_links_inner(memory_id)?;
        let search_text = similarity_source(&mem.memory);
        let fts = build_fts_query(search_text.as_str(), None);
        let params: Vec<SqlValue> = vec![SqlValue::Text(fts), SqlValue::Integer(memory_id), SqlValue::Integer(k as i64)];
        let ghost pb = bound_all(params@);
        assert(pb =~= seq![
            Bound::Text(crate::text::fts_query(similarity_text(mem.memory), None)),
            Bound::Integer(memory_id),
            Bound::Integer(k as i64),
        ]);
        let rows = self.query_ok_rows(SIMILAR_MEMORIES, params, 1)?;
        let ghost rv = rows@;
        let ids = ids_of_rows(rows);
        let none: Vec<i64> = Vec::new();
        let v = self.memories_in_projects(&ids, &none);
        assert(none@ =~= Seq::<i64>::empty());
        assert(similar_from(memory_id, k, mem, rv, v@));
        Ok(v)
    }

    /// Links a memory to its three most similar memories.
    fn auto_link_memory(&mut self, memory_id: i64) -> (r: Result<(), DbError>)
        ensures
            r is Ok ==> exists|similar: Seq<MemoryWithLinks>| #[trigger] auto_linked(memory_id, similar)
                && final(self).log() == old(self).log() + link_writes(memory_id, memory_ids(similar)),
            r matches Err(e) ==> (e is Sqlite || e is NotFound),
            r matches Err(e) && e is NotFound ==> memory_unloadable(memory_id),
            r is Err ==> exists|ids: Seq<i64>, n: int| 0 <= n <= 2 * ids.len()
                && final(self).log() == old(self).log() + #[trigger] link_writes(memory_id, ids).take(n),
    {
        let similar = match self.search_similar(memory_id, 3) {
            Ok(v) => v,
            Err(e) => {
                assert(link_writes(memory_id, Seq::<i64>::empty()).take(0) =~= Seq::<Write>::empty());
                assert(self.log() =~= old(self).log() + link_writes(memory_id, Seq::<i64>::empty()).take(0));
                return Err(e);
            },
        };
        assert(self.log() =~= old(self).log() + link_writes(memory_id, Seq::<i64>::empty()));
        assert(auto_linked(memory_id, similar@));
        if similar.len() > 0 {
            let mut ids: Vec<i64> = Vec::new();
            let mut i: usize = 0;
            while i < similar.len()
                invariant
                    i <= similar.len(),
                    ids@ == memory_ids(similar@.take(i as int)),
                decreases similar.len() - i,
            {
                assert(memory_ids(similar@.take(i + 1)) =~= memory_ids(similar@.take(i as int)).push(similar@[i as int].memory.id));
                ids.push(similar[i].memory.id);
                i = i + 1;
            }
            assert(similar@.take(similar.len() as int) =~= similar@);
            self.link_memories(memory_id, &ids)?;
        } else {
            assert(memory_ids(similar@) =~= Seq::<i64>::empty());
        }
        Ok(())
    }
}

/// With project ids given, a memory must be in one of them.
pub open spec fn passes_project_list(wanted: Seq<i64>, have: Seq<i64>) -> bool {
    wanted.len() > 0 ==> crate::search::any_shared(wanted, have)
}
} // verus!
