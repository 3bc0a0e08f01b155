//! The activity log.

use vstd::prelude::*;
use crate::sql::{DbError, SqlValue};
use crate::statements::{insert_sql, insert_statement, inserts_value, lemma_insert_binds, views};
use crate::store::{bound_all, default_user, opt_text_bound, Bound, Database, Write};

verus! {

/// The value bound for an optional text.
pub fn opt_text_value(o: Option<&str>) -> (r: SqlValue)
    ensures
        o is None ==> r is Null,
        o matches Some(s) ==> (r matches SqlValue::Text(t) && t@ == s@),
{
    match o {
        Some(s) => SqlValue::Text(s.to_owned()),
        None => SqlValue::Null,
    }
}

/// The columns of an entry of the activity log, in the order their values
/// are bound.
pub open spec fn activity_columns() -> Seq<Seq<char>> {
    seq!["user_id"@, "entity_type"@, "entity_id"@, "action"@, "changes"@, "snapshot"@, "actor"@]
}

pub open spec fn view_opt_str(o: Option<&str>) -> Option<Seq<char>> {
    match o {
        Some(s) => Some(s@),
        None => None,
    }
}

/// The entry the activity log gets when an agent does `action` to a record:
/// owned by the default user, with an empty snapshot and `agent` as actor.
pub open spec fn activity_write(entity_type: Seq<char>, entity_id: i64, action: Seq<char>, changes: Option<Seq<char>>) -> Write {
    (insert_sql("INSERT"@, "activity_log"@, activity_columns()), seq![
        Bound::Text(default_user()),
        Bound::Text(entity_type),
        Bound::Integer(entity_id),
        Bound::Text(action),
        opt_text_bound(changes),
        Bound::Text("{}"@),
        Bound::Text("agent"@),
    ])
}

/// An entry of the activity log keeps each part in its column: it binds the
/// default user to `user_id`, the kind of record to `entity_type`, its id to
/// `entity_id`, what was done to `action` and the changes to `changes`.
pub proof fn lemma_activity_write_columns(entity_type: Seq<char>, entity_id: i64, action: Seq<char>, changes: Option<Seq<char>>)
    ensures
        ({
            let w = activity_write(entity_type, entity_id, action, changes);
            let (verb, table) = ("INSERT"@, "activity_log"@);
            &&& inserts_value(w, verb, table, "user_id"@, Bound::Text(default_user()))
            &&& inserts_value(w, verb, table, "entity_type"@, Bound::Text(entity_type))
            &&& inserts_value(w, verb, table, "entity_id"@, Bound::Integer(entity_id))
            &&& inserts_value(w, verb, table, "action"@, Bound::Text(action))
            &&& inserts_value(w, verb, table, "changes"@, opt_text_bound(changes))
        }),
{
    let w = activity_write(entity_type, entity_id, action, changes);
    let cols = activity_columns();
    reveal_strlit("user_id");
    reveal_strlit("entity_type");
    reveal_strlit("entity_id");
    reveal_strlit("action");
    reveal_strlit("changes");
    reveal_strlit("snapshot");
    reveal_strlit("actor");
    assert forall|i: int, j: int| 0 <= i < cols.len() && 0 <= j < cols.len() && i != j implies cols[i] != cols[j] by {
        if cols[i] == cols[j] {
            assert(cols[i].len() == cols[j].len());
            assert(cols[i][0] == cols[j][0]);
            assert(cols[i][1] == cols[j][1]);
            assert(cols[i][cols[i].len() - 1] == cols[j][cols[j].len() - 1]);
        }
    }
    lemma_insert_binds(w, "INSERT"@, "activity_log"@, cols, 0);
    lemma_insert_binds(w, "INSERT"@, "activity_log"@, cols, 1);
    lemma_insert_binds(w, "INSERT"@, "activity_log"@, cols, 2);
    lemma_insert_binds(w, "INSERT"@, "activity_log"@, cols, 3);
    lemma_insert_binds(w, "INSERT"@, "activity_log"@, cols, 4);
}

impl Database {
    /// Records that an agent did `action` to a record.
    pub fn log_activity(&mut self, entity_type: &str, entity_id: i64, action: &str, changes: Option<&str>) -> (r: Result<(), DbError>)
        ensures
            final(self).log() == old(self).log().push(
                activity_write(entity_type@, entity_id, action@, view_opt_str(changes))),
            r is Err ==> r->Err_0 is Sqlite,
    {
        self.log_activity_inner(entity_type, entity_id, action, changes)
    }

    /// Inserts one entry into the activity log, owned by the default user,
    /// with an empty snapshot and `agent` as actor.
    pub fn log_activity_inner(&mut self, entity_type: &str, entity_id: i64, action: &str, changes: Option<&str>) -> (r: Result<(), DbError>)
        ensures
            final(self).log() == old(self).log().push(
                activity_write(entity_type@, entity_id, action@, view_opt_str(changes))),
            r is Err ==> r->Err_0 is Sqlite,
    {
        let user_id = Database::default_user_id();
        let params = vec![
            SqlValue::Text(user_id),
            SqlValue::Text(entity_type.to_owned()),
            SqlValue::Integer(entity_id),
            SqlValue::Text(action.to_owned()),
            opt_text_value(changes),
            SqlValue::Text("{}".to_owned()),
            SqlValue::Text("agent".to_owned()),
        ];
        assert(bound_all(params@) =~= activity_write(entity_type@, entity_id, action@, view_opt_str(changes)).1);
        let columns: Vec<&'static str> = vec!["user_id", "entity_type", "entity_id", "action", "changes", "snapshot", "actor"];
        assert(views(columns@) =~= activity_columns());
        let insert = insert_statement("INSERT", "activity_log", &columns);
        self.execute(insert.as_str(), params)?;
        Ok(())
    }
}

} // verus!
