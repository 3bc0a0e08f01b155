//! The local user and the profile gathered from memories.

use vstd::prelude::*;
use crate::columns::{as_text, text_of};
use crate::memory::now_value;
use crate::records::{decode_profile, decode_user, profile_from_row, profile_row_valid, user_from_row, user_row_valid, user_read, User, UserProfile};
use crate::sql::{json_encode_strings, json_string_list_text, DbError, SqlValue, Timestamp};
use crate::statements::{clock_text, insert_sql, insert_statement, inserts_value, lemma_insert_binds, views};
use crate::store::{default_user, inserted_rowid, all_have_width, answered, bound_all, first_answer, Bound, Database, Write};
use crate::text::{byte_len, is_truncation, push_char, truncate_str};
use vstd::utf8::encode_utf8;
use vstd::utf8::is_char_boundary;
use vstd::string::StringSliceAdditionalSpecFns;

verus! {

/// The longest content, in bytes, that a profile fact quotes in full.
pub open spec fn fact_content_limit() -> usize {
    200
}

/// The last character boundary of `bytes` at or before `b`.
pub open spec fn boundary_at_most(bytes: Seq<u8>, b: nat) -> nat
    decreases b,
{
    if b == 0 || is_char_boundary(bytes, b as int) {
        b
    } else {
        boundary_at_most(bytes, (b - 1) as nat)
    }
}

/// Where a profile fact cuts a content: after 200 bytes, or at the last
/// character boundary before that when a character straddles it.
pub open spec fn fact_cut(content: Seq<char>) -> usize {
    if byte_len(content) <= fact_content_limit() {
        fact_content_limit()
    } else {
        boundary_at_most(encode_utf8(content), fact_content_limit() as nat) as usize
    }
}

/// `f` states a memory as a profile fact: its title, `: `, and its content
/// cut where `fact_cut` says (see `is_truncation`).
pub open spec fn is_fact(title: Seq<char>, content: Seq<char>, f: Seq<char>) -> bool {
    let k = title.len() + 2int;
    &&& f.len() >= k
    &&& f.take(k) == title + seq![':', ' ']
    &&& is_truncation(content, fact_cut(content), f.skip(k))
}

/// The profile fact for a memory (see `is_fact`).
pub fn profile_fact(title: &str, content: &str) -> (r: String)
    ensures
        is_fact(title@, content@, r@),
{
    let mut cut: usize = 200;
    if content.len() > 200 {
        let ghost bytes = content.spec_bytes();
        assert(bytes == encode_utf8(content@));
        while cut > 0 && !content.is_char_boundary(cut)
            invariant
                cut <= 200,
                bytes == encode_utf8(content@),
                boundary_at_most(bytes, cut as nat) == boundary_at_most(bytes, 200),
            decreases cut,
        {
            cut = cut - 1;
        }
        proof {
            vstd::utf8::encode_utf8_valid_utf8(content@);
            vstd::utf8::is_char_boundary_start_end_of_seq(bytes);
        }
        assert(boundary_at_most(bytes, cut as nat) == cut);
        assert(is_char_boundary(bytes, cut as int));
    }
    assert(cut == fact_cut(content@));
    let cut_text = truncate_str(content, cut);
    let mut f = title.to_owned();
    push_char(&mut f, ':');
    push_char(&mut f, ' ');
    f.append(cut_text.as_str());
    let ghost k = title@.len() + 2int;
    assert(f@.take(k) =~= title@ + seq![':', ' ']);
    assert(f@.skip(k) =~= cut_text@);
    f
}

/// The (title, content) pairs of the rows whose two columns are both
/// texts, in order.
pub open spec fn text_pairs(rows: Seq<Vec<SqlValue>>) -> Seq<(Seq<char>, Seq<char>)>
    decreases rows.len(),
{
    if rows.len() == 0 {
        seq![]
    } else {
        let init = text_pairs(rows.drop_last());
        let row = rows.last()@;
        match (text_of(row[0]), text_of(row[1])) {
            (Some(t), Some(c)) => init.push((t, c)),
            _ => init,
        }
    }
}

/// `facts` states each pair as a profile fact, in order.
pub open spec fn facts_of_pairs(pairs: Seq<(Seq<char>, Seq<char>)>, facts: Seq<Seq<char>>) -> bool {
    &&& facts.len() == pairs.len()
    &&& forall|i: int| 0 <= i < pairs.len() ==> is_fact(pairs[i].0, pairs[i].1, #[trigger] facts[i])
}

/// The facts of the rows of (title, content) that are two texts (see
/// `text_pairs`).
fn facts_of_rows(rows: Vec<Vec<SqlValue>>) -> (r: Vec<String>)
    requires
        all_have_width(rows@, 2),
    ensures
        facts_of_pairs(text_pairs(rows@), r.deep_view()),
{
    let ghost all = rows@;
    let n = rows.len();
    let mut pending = crate::search::reversed(rows);
    let mut facts: Vec<String> = Vec::new();
    while pending.len() > 0
        invariant
            pending@.len() <= n,
            n == all.len(),
            all == rows@,
            all_have_width(all, 2),
            pending@ == all.skip(n - pending@.len()).reverse(),
            facts_of_pairs(text_pairs(all.take(n - pending@.len())), facts.deep_view()),
        decreases pending.len(),
    {
        let ghost k = n - pending@.len();
        let ghost before = facts.deep_view();
        let ghost prefix = all.take(k);
        let mut row = pending.pop().unwrap();
        assert(row == all[k]);
        assert(pending@ =~= all.skip(k + 1).reverse());
        assert(all.take(k + 1).drop_last() =~= prefix);
        assert(all.take(k + 1).last() == all[k]);
        assert(row.len() == 2);
        let content = as_text(row.pop().unwrap());
        let title = as_text(row.pop().unwrap());
        match (title, content) {
            (Some(t), Some(c)) => {
                assert(text_pairs(all.take(k + 1)) == text_pairs(prefix).push((t@, c@)));
                let f = profile_fact(t.as_str(), c.as_str());
                facts.push(f);
                assert(facts.deep_view() =~= before.push(f@));
            },
            _ => {
                assert(text_pairs(all.take(k + 1)) == text_pairs(prefix));
            },
        }
    }
    assert(all.take(n as int) =~= all);
    facts
}

pub const USER_NOTES_UPDATE: &'static str = "UPDATE users SET notes = ?1, updated_at = ?2 WHERE id = 'default'";

pub const PROFILE_DELETE: &'static str = "DELETE FROM user_profiles WHERE user_id = 'default'";

/// The columns of a stored profile, in the order their values are bound.
pub open spec fn profile_columns() -> Seq<Seq<char>> {
    seq!["user_id"@, "static_facts"@, "dynamic_facts"@, "generated_at"@, "updated_at"@]
}

/// Setting the user's notes at the time `t`.
pub open spec fn notes_write(notes: Seq<char>, t: Timestamp) -> Write {
    (USER_NOTES_UPDATE@, seq![Bound::Text(notes), Bound::Text(clock_text(t))])
}

/// Replacing the stored profile by one with these facts, made at the time `t`.
pub open spec fn profile_writes(static_facts: Seq<Seq<char>>, dynamic_facts: Seq<Seq<char>>, t: Timestamp) -> Seq<Write> {
    seq![
        (PROFILE_DELETE@, Seq::<Bound>::empty()),
        (insert_sql("INSERT"@, "user_profiles"@, profile_columns()), seq![
            Bound::Text(default_user()),
            Bound::Text(json_string_list_text(static_facts)),
            Bound::Text(json_string_list_text(dynamic_facts)),
            Bound::Text(clock_text(t)),
            Bound::Text(clock_text(t)),
        ]),
    ]
}

/// A stored profile keeps each list in its column: the insert that stores
/// it binds the default user to `user_id`, the JSON of the static facts to
/// `static_facts` and of the dynamic facts to `dynamic_facts`.
pub proof fn lemma_profile_write_columns(static_facts: Seq<Seq<char>>, dynamic_facts: Seq<Seq<char>>, t: Timestamp)
    ensures
        ({
            let w = profile_writes(static_facts, dynamic_facts, t)[1];
            let (verb, table) = ("INSERT"@, "user_profiles"@);
            &&& inserts_value(w, verb, table, "user_id"@, Bound::Text(default_user()))
            &&& inserts_value(w, verb, table, "static_facts"@, Bound::Text(json_string_list_text(static_facts)))
            &&& inserts_value(w, verb, table, "dynamic_facts"@, Bound::Text(json_string_list_text(dynamic_facts)))
        }),
{
    let w = profile_writes(static_facts, dynamic_facts, t)[1];
    let cols = profile_columns();
    reveal_strlit("user_id");
    reveal_strlit("static_facts");
    reveal_strlit("dynamic_facts");
    reveal_strlit("generated_at");
    reveal_strlit("updated_at");
    assert forall|i: int, j: int| 0 <= i < cols.len() && 0 <= j < cols.len() && i != j implies cols[i] != cols[j] by {
        if cols[i] == cols[j] {
            assert(cols[i][0] == cols[j][0]);
        }
    }
    lemma_insert_binds(w, "INSERT"@, "user_profiles"@, cols, 0);
    lemma_insert_binds(w, "INSERT"@, "user_profiles"@, cols, 1);
    lemma_insert_binds(w, "INSERT"@, "user_profiles"@, cols, 2);
}

pub const DEFAULT_USER: &'static str = "SELECT id, external_id, name, email, notes, created_at, updated_at FROM users WHERE id = 'default'";

/// `x` is the default user: what the first row SQLite answered for it
/// reads as.
pub open spec fn user_loaded(x: User) -> bool {
    exists|row: Vec<SqlValue>| #[trigger] first_answer(DEFAULT_USER@, Seq::<Bound>::empty(), Some(row))
        && user_row_valid(row@) && user_from_row(row@, x)
}

/// The default user cannot be read: SQLite answered no row for it, or a
/// row that does not read as a user.
pub open spec fn user_missing() -> bool {
    exists|first: Option<Vec<SqlValue>>| #[trigger] first_answer(DEFAULT_USER@, Seq::<Bound>::empty(), first)
        && (first matches Some(row) ==> !user_row_valid(row@))
}

pub const LATEST_PROFILE: &'static str = "SELECT id, user_id, static_facts, dynamic_facts, generated_at, updated_at FROM user_profiles WHERE user_id = 'default' ORDER BY updated_at DESC LIMIT 1";

pub const STATIC_FACTS: &'static str = "SELECT title, content FROM memories
             WHERE is_obsolete = 0 AND is_forgotten = 0 AND importance >= 7 AND memory_type = 'fact'
             ORDER BY importance DESC, updated_at DESC
             LIMIT 50";

pub const DYNAMIC_FACTS: &'static str = "SELECT title, content FROM memories
             WHERE is_obsolete = 0 AND is_forgotten = 0 AND memory_type IN ('preference', 'episode')
             ORDER BY updated_at DESC
             LIMIT 20";

/// `facts` are the facts made of the rows SQLite answered to `sql`.
pub open spec fn facts_answered(sql: Seq<char>, facts: Seq<Seq<char>>) -> bool {
    exists|rows: Seq<Vec<SqlValue>>|
        #[trigger] answered(sql, Seq::<Bound>::empty(), rows) && facts_of_pairs(text_pairs(rows), facts)
}

impl Database {
    /// The local user; an error when it cannot be read.
    pub fn get_user(&self) -> (r: Result<User, DbError>)
        ensures
            r matches Ok(x) ==> user_read(x),
            r matches Ok(x) ==> user_loaded(x),
            r is Err ==> user_missing(),
            r matches Err(e) ==> e is UserNotFound,
    {
        let params: Vec<SqlValue> = Vec::new();
        assert(bound_all(params@) =~= Seq::<Bound>::empty());
        let row = self.query_first(DEFAULT_USER, params, 7);
        let ghost first = row;
        assert(first_answer(DEFAULT_USER@, Seq::<Bound>::empty(), first));
        match row {
            Some(r) => {
                let ghost read = r@;
                match decode_user(r) {
                    Some(u) => {
                        assert(user_from_row(read, u));
                        Ok(u)
                    },
                    None => Err(DbError::UserNotFound),
                }
            },
            None => Err(DbError::UserNotFound),
        }
    }

    /// Replaces the notes of the local user and returns the user.
    pub fn update_user_notes(&mut self, notes: &str) -> (r: Result<User, DbError>)
        ensures
            r is Ok ==> exists|t: Timestamp| final(self).log() == old(self).log().push(#[trigger] notes_write(notes@, t)),
            r matches Ok(x) ==> user_read(x),
            r matches Ok(x) ==> user_loaded(x),
            r matches Err(DbError::UserNotFound) ==> user_missing(),
            r matches Err(e) ==> (e is Sqlite || e is InvalidTimestamp || e is UserNotFound),
            r matches Err(DbError::InvalidTimestamp) ==> final(self).log() == old(self).log(),
            r matches Err(e) ==> (e is InvalidTimestamp
                || exists|t: Timestamp| final(self).log() == old(self).log().push(#[trigger] notes_write(notes@, t))),
    {
        let (now, now_v) = now_value()?;
        let params = vec![SqlValue::Text(notes.to_owned()), now_v];
        assert(bound_all(params@) =~= notes_write(notes@, now).1);
        let done = self.execute(USER_NOTES_UPDATE, params);
        assert(self.log() == old(self).log().push(notes_write(notes@, now)));
        if let Err(e) = done {
            return Err(e);
        }
        self.get_user()
    }

    /// The latest profile of the local user; when there is none that can be
    /// read, a freshly gathered one.
    pub fn get_profile(&mut self) -> (r: Result<UserProfile, DbError>)
        ensures
            r matches Ok(pf) ==> final(self).log() == old(self).log()
                || exists|t: Timestamp| final(self).log() == old(self).log()
                    + #[trigger] profile_writes(pf.static_facts.deep_view(), pf.dynamic_facts.deep_view(), t)
                    && pf.generated_at == t && pf.updated_at == t
                    && inserted_rowid(final(self).log(), pf.id),
            r matches Ok(pf) ==> (final(self).log() == old(self).log() ==> exists|row: Vec<SqlValue>|
                #[trigger] first_answer(LATEST_PROFILE@, Seq::<Bound>::empty(), Some(row))
                && profile_row_valid(row@) && profile_from_row(row@, pf)),
            r is Ok && final(self).log() != old(self).log() ==> exists|first: Option<Vec<SqlValue>>|
                #[trigger] first_answer(LATEST_PROFILE@, Seq::<Bound>::empty(), first)
                && (first matches Some(row) ==> !profile_row_valid(row@)),
            r matches Ok(pf) ==> (final(self).log() != old(self).log() ==> {
                &&& pf.user_id@ == seq!['d', 'e', 'f', 'a', 'u', 'l', 't']
                &&& pf.generated_at == pf.updated_at
            }),
            r matches Err(e) ==> (e is Sqlite || e is InvalidTimestamp),
            r matches Err(e) ==> (e is Sqlite || final(self).log() == old(self).log()),
            r matches Err(DbError::Sqlite(_)) ==> final(self).log() == old(self).log()
                || exists|static_facts: Seq<Seq<char>>, dynamic_facts: Seq<Seq<char>>, t: Timestamp, n: int| 1 <= n <= 2
                && final(self).log() == old(self).log() + #[trigger] profile_writes(static_facts, dynamic_facts, t).take(n),
    {
        let params: Vec<SqlValue> = Vec::new();
        assert(bound_all(params@) =~= Seq::<Bound>::empty());
        let row = self.query_first(LATEST_PROFILE, params, 6);
        let ghost first = row;
        assert(first_answer(LATEST_PROFILE@, Seq::<Bound>::empty(), first));
        match row {
            Some(r) => {
                let ghost rv = r@;
                match decode_profile(r) {
                    Some(pf) => {
                        assert(profile_from_row(rv, pf));
                        Ok(pf)
                    },
                    None => self.refresh_profile(),
                }
            },
            None => self.refresh_profile(),
        }
    }

    /// Gathers the profile of the local user anew and stores it in place of
    /// the old one: as lasting facts, the important facts (importance at
    /// least 7; most important, then most recent, first; at most 50); as
    /// recent facts, the preferences and episodes (most recent first; at
    /// most 20); only memories neither obsolete nor forgotten.
    pub fn refresh_profile(&mut self) -> (r: Result<UserProfile, DbError>)
        ensures
            r matches Ok(pf) ==> exists|t: Timestamp| final(self).log() == old(self).log()
                + #[trigger] profile_writes(pf.static_facts.deep_view(), pf.dynamic_facts.deep_view(), t)
                && pf.generated_at == t && pf.updated_at == t
                && inserted_rowid(final(self).log(), pf.id),
            r matches Ok(pf) ==> {
                &&& pf.user_id@ == seq!['d', 'e', 'f', 'a', 'u', 'l', 't']
                &&& pf.generated_at == pf.updated_at
                &&& facts_answered(STATIC_FACTS@, pf.static_facts.deep_view())
                &&& facts_answered(DYNAMIC_FACTS@, pf.dynamic_facts.deep_view())
            },
            r matches Err(e) ==> (e is Sqlite || e is InvalidTimestamp),
            r matches Err(e) ==> (e is Sqlite || final(self).log() == old(self).log()),
            r matches Err(DbError::Sqlite(_)) ==> final(self).log() == old(self).log()
                || exists|static_facts: Seq<Seq<char>>, dynamic_facts: Seq<Seq<char>>, t: Timestamp, n: int| 1 <= n <= 2
                && final(self).log() == old(self).log() + #[trigger] profile_writes(static_facts, dynamic_facts, t).take(n),
    {
        let (now, now_v) = now_value()?;
        let now_v2 = match &now_v { SqlValue::Text(t) => SqlValue::Text(t.clone()), _ => SqlValue::Null };
        let no_params: Vec<SqlValue> = Vec::new();
        assert(bound_all(no_params@) =~= Seq::<Bound>::empty());
        let static_rows = self.query_ok_rows(STATIC_FACTS, no_params, 2)?;
        let ghost static_rows_seen = static_rows@;
        let static_facts = facts_of_rows(static_rows);
        let no_params: Vec<SqlValue> = Vec::new();
        assert(bound_all(no_params@) =~= Seq::<Bound>::empty());
        let dynamic_rows = self.query_ok_rows(DYNAMIC_FACTS, no_params, 2)?;
        let ghost dynamic_rows_seen = dynamic_rows@;
        let dynamic_facts = facts_of_rows(dynamic_rows);
        let static_json = match json_encode_strings(&static_facts) { Ok(s) => s, Err(e) => { return Err(DbError::Json(e)); } };
        let dynamic_json = match json_encode_strings(&dynamic_facts) { Ok(s) => s, Err(e) => { return Err(DbError::Json(e)); } };
        let none: Vec<SqlValue> = Vec::new();
        assert(bound_all(none@) =~= Seq::<Bound>::empty());
        let ghost all = profile_writes(static_facts.deep_view(), dynamic_facts.deep_view(), now);
        if let Err(e) = self.execute(PROFILE_DELETE, none) {
            assert(self.log() =~= old(self).log() + all.take(1));
            return Err(e);
        }
        let params = vec![SqlValue::Text(Database::default_user_id()), SqlValue::Text(static_json), SqlValue::Text(dynamic_json), now_v, now_v2];
        assert(bound_all(params@) =~= all[1].1);
        let columns: Vec<&'static str> = vec!["user_id", "static_facts", "dynamic_facts", "generated_at", "updated_at"];
        assert(views(columns@) =~= profile_columns());
        let insert = insert_statement("INSERT", "user_profiles", &columns);
        let done = self.execute(insert.as_str(), params);
        assert(self.log() =~= old(self).log() + all);
        assert(all.take(2) =~= all);
        if let Err(e) = done {
            return Err(e);
        }
        let id = self.last_insert_rowid();
        let profile = UserProfile {
            id,
            user_id: Database::default_user_id(),
            static_facts,
            dynamic_facts,
            generated_at: now,
            updated_at: now,
        };
        let out: Result<UserProfile, DbError> = Ok(profile);
        assert(facts_of_pairs(text_pairs(static_rows_seen), out->Ok_0.static_facts.deep_view()));
        assert(facts_of_pairs(text_pairs(dynamic_rows_seen), out->Ok_0.dynamic_facts.deep_view()));
        assert(answered(STATIC_FACTS@, Seq::<Bound>::empty(), static_rows_seen));
        assert(answered(DYNAMIC_FACTS@, Seq::<Bound>::empty(), dynamic_rows_seen));
        out
    }
}

} // verus!
