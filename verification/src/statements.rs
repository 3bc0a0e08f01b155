//! The SQL text the store builds at run time.

use vstd::prelude::*;
use crate::text::{decimal_nat, push_decimal, decimal_int};
use crate::sql::{json_encode_strings, json_string_list_text, sql_datetime_text, DbError, Number, SqlValue, Timestamp};
use crate::memory::now_value;
use crate::store::{bound, bound_all, opt_number_bound, Bound, Database, Write};

verus! {

/// `, col = ?n` for each column, numbering the placeholders from `next`.
pub open spec fn set_list(cols: Seq<Seq<char>>, next: nat) -> Seq<char>
    decreases cols.len(),
{
    if cols.len() == 0 {
        seq![]
    } else {
        ", "@ + cols[0] + " = ?"@ + decimal_nat(next) + set_list(cols.drop_first(), next + 1)
    }
}

pub open spec fn views(cols: Seq<&str>) -> Seq<Seq<char>> {
    cols.map_values(|c: &str| c@)
}

/// `UPDATE table SET updated_at = ?1, c1 = ?2, ... WHERE id = ?k`: the
/// first placeholder takes the update time, the next ones the columns in
/// order, the last the id.
pub open spec fn update_sql(table: Seq<char>, cols: Seq<Seq<char>>) -> Seq<char> {
    "UPDATE "@ + table + " SET updated_at = ?1"@ + set_list(cols, 2)
        + " WHERE id = ?"@ + decimal_nat(cols.len() + 2)
}

/// Builds the statement that updates the given columns of one row.
pub fn update_statement(table: &str, cols: &Vec<&str>) -> (r: String)
    requires
        cols.len() + 2 <= i64::MAX,
    ensures
        r@ == update_sql(table@, views(cols@)),
{
    let mut out = String::new();
    out.append("UPDATE ");
    out.append(table);
    out.append(" SET updated_at = ?1");
    let n = cols.len();
    let mut i: usize = 0;
    assert(views(cols@).skip(0) =~= views(cols@));
    while i < n
        invariant
            n == cols.len(),
            n + 2 <= i64::MAX,
            i <= n,
            out@ + set_list(views(cols@).skip(i as int), (i + 2) as nat)
                == "UPDATE "@ + table@ + " SET updated_at = ?1"@ + set_list(views(cols@), 2),
        decreases n - i,
    {
        let ghost before = out@;
        let ghost rest = views(cols@).skip(i as int);
        assert(rest.drop_first() =~= views(cols@).skip(i + 1));
        assert(rest[0] == cols@[i as int]@);
        out.append(", ");
        out.append(cols[i]);
        out.append(" = ?");
        push_decimal(&mut out, i as i64 + 2);
        assert(decimal_int((i + 2) as int) == decimal_nat((i + 2) as nat));
        assert(out@ + set_list(views(cols@).skip(i + 1), (i + 3) as nat)
            =~= before + set_list(rest, (i + 2) as nat));
        i = i + 1;
    }
    assert(views(cols@).skip(n as int) =~= Seq::<Seq<char>>::empty());
    out.append(" WHERE id = ?");
    push_decimal(&mut out, n as i64 + 2);
    assert(decimal_int((n + 2) as int) == decimal_nat((n + 2) as nat));
    assert(out@ =~= update_sql(table@, views(cols@)));
    out
}

/// `, c` for each name, in order.
pub open spec fn more_names(cols: Seq<Seq<char>>) -> Seq<char>
    decreases cols.len(),
{
    if cols.len() == 0 {
        seq![]
    } else {
        ", "@ + cols[0] + more_names(cols.drop_first())
    }
}

/// The names separated by commas: `c1, c2, ...`.
pub open spec fn name_list(cols: Seq<Seq<char>>) -> Seq<char> {
    if cols.len() == 0 {
        seq![]
    } else {
        cols[0] + more_names(cols.drop_first())
    }
}

/// `, ?next, ?next+1, ...`, `k` placeholders in all.
pub open spec fn more_slots(next: nat, k: nat) -> Seq<char>
    decreases k,
{
    if k == 0 {
        seq![]
    } else {
        ", ?"@ + decimal_nat(next) + more_slots(next + 1, (k - 1) as nat)
    }
}

/// The placeholders `?1, ?2, ..., ?n`.
pub open spec fn slot_list(n: nat) -> Seq<char> {
    if n == 0 {
        seq![]
    } else {
        "?1"@ + more_slots(2, (n - 1) as nat)
    }
}

/// `verb INTO table (c1, ..., cn) VALUES (?1, ..., ?n)`: the i-th column
/// takes the i-th value bound.
pub open spec fn insert_sql(verb: Seq<char>, table: Seq<char>, cols: Seq<Seq<char>>) -> Seq<char> {
    verb + " INTO "@ + table + " ("@ + name_list(cols) + ") VALUES ("@ + slot_list(cols.len()) + ")"@
}

/// `SELECT c1, ..., cn FROM table`: the i-th value of a row is column `ci`.
pub open spec fn select_sql(table: Seq<char>, cols: Seq<Seq<char>>) -> Seq<char> {
    "SELECT "@ + name_list(cols) + " FROM "@ + table
}

/// `SELECT c1, ..., cn FROM rest`: the i-th value of a row is column `ci`.
pub open spec fn select_from(cols: Seq<Seq<char>>, rest: Seq<char>) -> Seq<char> {
    "SELECT "@ + name_list(cols) + " FROM "@ + rest
}

/// No name comes twice.
pub open spec fn distinct_names(cols: Seq<Seq<char>>) -> bool {
    forall|i: int, j: int| 0 <= i < cols.len() && 0 <= j < cols.len() && i != j ==> cols[i] != cols[j]
}

/// The statement `w` inserts into `table` (with `verb`, `INSERT` or
/// `INSERT OR IGNORE`) a row whose column `col` takes the value `v`: its
/// text names the columns, each once, with one placeholder each in order,
/// and the value bound at `col`'s place is `v`.
pub open spec fn inserts_value(w: Write, verb: Seq<char>, table: Seq<char>, col: Seq<char>, v: Bound) -> bool {
    exists|cols: Seq<Seq<char>>|
        #[trigger] insert_sql(verb, table, cols) == w.0
        && cols.len() == w.1.len()
        && distinct_names(cols)
        && cols.contains(col)
        && forall|i: int| 0 <= i < cols.len() && cols[i] == col ==> w.1[i] == v
}

/// The value a row read by `select` (`SELECT c1, ..., cn FROM table`) has
/// in column `col`.
pub open spec fn selected_value(select: Seq<char>, row: Seq<SqlValue>, col: Seq<char>, v: SqlValue) -> bool {
    exists|table: Seq<char>, cols: Seq<Seq<char>>|
        #[trigger] select_sql(table, cols) == select
        && cols.len() == row.len()
        && distinct_names(cols)
        && cols.contains(col)
        && forall|i: int| 0 <= i < cols.len() && cols[i] == col ==> row[i] == v
}

/// An insert built from named columns binds each column to the value at
/// its place.
pub proof fn lemma_insert_binds(w: Write, verb: Seq<char>, table: Seq<char>, cols: Seq<Seq<char>>, j: int)
    requires
        insert_sql(verb, table, cols) == w.0,
        cols.len() == w.1.len(),
        distinct_names(cols),
        0 <= j < cols.len(),
    ensures
        inserts_value(w, verb, table, cols[j], w.1[j]),
{
    assert(cols.contains(cols[j]));
}

/// A select of named columns gives each column at its place.
pub proof fn lemma_select_gives(select: Seq<char>, table: Seq<char>, cols: Seq<Seq<char>>, row: Seq<SqlValue>, j: int)
    requires
        select_sql(table, cols) == select,
        cols.len() == row.len(),
        distinct_names(cols),
        0 <= j < cols.len(),
    ensures
        selected_value(select, row, cols[j], row[j]),
{
    assert(cols.contains(cols[j]));
}

/// Builds `verb INTO table (c1, ..., cn) VALUES (?1, ..., ?n)`.
pub fn insert_statement(verb: &str, table: &str, cols: &Vec<&str>) -> (r: String)
    requires
        cols.len() + 1 <= i64::MAX,
    ensures
        r@ == insert_sql(verb@, table@, views(cols@)),
{
    let mut out = String::new();
    out.append(verb);
    out.append(" INTO ");
    out.append(table);
    out.append(" (");
    let ghost head = out@;
    let n = cols.len();
    if n > 0 {
        out.append(cols[0]);
        let mut i: usize = 1;
        assert(views(cols@).skip(1) =~= views(cols@).drop_first());
        while i < n
            invariant
                n == cols.len(),
                1 <= i <= n,
                out@ + more_names(views(cols@).skip(i as int)) == head + name_list(views(cols@)),
            decreases n - i,
        {
            let ghost before = out@;
            let ghost rest = views(cols@).skip(i as int);
            assert(rest.drop_first() =~= views(cols@).skip(i + 1));
            assert(rest[0] == cols@[i as int]@);
            out.append(", ");
            out.append(cols[i]);
            assert(out@ + more_names(views(cols@).skip(i + 1)) =~= before + more_names(rest));
            i = i + 1;
        }
        assert(views(cols@).skip(n as int) =~= Seq::<Seq<char>>::empty());
    }
    assert(out@ =~= head + name_list(views(cols@)));
    out.append(") VALUES (");
    let ghost mid = out@;
    if n > 0 {
        out.append("?1");
        let mut j: usize = 1;
        while j < n
            invariant
                n == cols.len(),
                n + 1 <= i64::MAX,
                1 <= j <= n,
                out@ + more_slots((j + 1) as nat, (n - j) as nat) == mid + slot_list(n as nat),
            decreases n - j,
        {
            let ghost before = out@;
            out.append(", ?");
            push_decimal(&mut out, j as i64 + 1);
            assert(decimal_int((j + 1) as int) == decimal_nat((j + 1) as nat));
            assert(out@ + more_slots((j + 2) as nat, (n - j - 1) as nat)
                =~= before + more_slots((j + 1) as nat, (n - j) as nat));
            j = j + 1;
        }
    }
    assert(out@ =~= mid + slot_list(n as nat));
    out.append(")");
    assert(out@ =~= insert_sql(verb@, table@, views(cols@)));
    out
}

/// Builds `SELECT c1, ..., cn FROM table`.
pub fn select_statement(table: &str, cols: &Vec<&str>) -> (r: String)
    ensures
        r@ == select_sql(table@, views(cols@)),
{
    let mut out = String::new();
    out.append("SELECT ");
    let ghost head = out@;
    let n = cols.len();
    if n > 0 {
        out.append(cols[0]);
        let mut i: usize = 1;
        assert(views(cols@).skip(1) =~= views(cols@).drop_first());
        while i < n
            invariant
                n == cols.len(),
                1 <= i <= n,
                out@ + more_names(views(cols@).skip(i as int)) == head + name_list(views(cols@)),
            decreases n - i,
        {
            let ghost before = out@;
            let ghost rest = views(cols@).skip(i as int);
            assert(rest.drop_first() =~= views(cols@).skip(i + 1));
            assert(rest[0] == cols@[i as int]@);
            out.append(", ");
            out.append(cols[i]);
            assert(out@ + more_names(views(cols@).skip(i + 1)) =~= before + more_names(rest));
            i = i + 1;
        }
        assert(views(cols@).skip(n as int) =~= Seq::<Seq<char>>::empty());
    }
    assert(out@ =~= head + name_list(views(cols@)));
    out.append(" FROM ");
    out.append(table);
    assert(out@ =~= select_sql(table@, views(cols@)));
    out
}

/// The insert of two named columns, written out.
pub proof fn lemma_insert_sql_two(verb: Seq<char>, table: Seq<char>, a: Seq<char>, b: Seq<char>)
    ensures
        insert_sql(verb, table, seq![a, b])
            == verb + " INTO "@ + table + " ("@ + a + ", "@ + b + ") VALUES (?1, ?2)"@,
{
    let cols = seq![a, b];
    assert(cols.drop_first() =~= seq![b]);
    assert(seq![b].drop_first() =~= Seq::<Seq<char>>::empty());
    assert(more_names(Seq::<Seq<char>>::empty()) == Seq::<char>::empty());
    assert(more_names(seq![b]) =~= ", "@ + b);
    assert(name_list(cols) =~= a + ", "@ + b);
    reveal_strlit("?1");
    reveal_strlit(", ?");
    reveal_strlit(") VALUES (?1, ?2)");
    reveal_strlit(") VALUES (");
    reveal_strlit(")");
    assert(decimal_nat(2) =~= seq!['2']);
    assert(more_slots(3, 0) == Seq::<char>::empty());
    assert(more_slots(2, 1) =~= ", ?"@ + seq!['2']);
    assert(slot_list(2) =~= "?1"@ + ", ?"@ + seq!['2']);
    assert(insert_sql(verb, table, cols)
        =~= verb + " INTO "@ + table + " ("@ + a + ", "@ + b + ") VALUES (?1, ?2)"@);
}

/// The insert of three named columns, written out.
pub proof fn lemma_insert_sql_three(verb: Seq<char>, table: Seq<char>, a: Seq<char>, b: Seq<char>, c: Seq<char>)
    ensures
        insert_sql(verb, table, seq![a, b, c])
            == verb + " INTO "@ + table + " ("@ + a + ", "@ + b + ", "@ + c + ") VALUES (?1, ?2, ?3)"@,
{
    let cols = seq![a, b, c];
    assert(cols.drop_first() =~= seq![b, c]);
    assert(seq![b, c].drop_first() =~= seq![c]);
    assert(seq![c].drop_first() =~= Seq::<Seq<char>>::empty());
    assert(more_names(Seq::<Seq<char>>::empty()) == Seq::<char>::empty());
    assert(more_names(seq![c]) =~= ", "@ + c);
    assert(more_names(seq![b, c]) =~= ", "@ + b + ", "@ + c);
    assert(name_list(cols) =~= a + ", "@ + b + ", "@ + c);
    reveal_strlit("?1");
    reveal_strlit(", ?");
    reveal_strlit(") VALUES (?1, ?2, ?3)");
    reveal_strlit(") VALUES (");
    reveal_strlit(")");
    assert(decimal_nat(2) =~= seq!['2']);
    assert(decimal_nat(3) =~= seq!['3']);
    assert(more_slots(4, 0) == Seq::<char>::empty());
    assert(more_slots(3, 1) =~= ", ?"@ + seq!['3']);
    assert(more_slots(2, 2) =~= ", ?"@ + seq!['2'] + ", ?"@ + seq!['3']);
    assert(slot_list(3) =~= "?1"@ + ", ?"@ + seq!['2'] + ", ?"@ + seq!['3']);
    assert(insert_sql(verb, table, cols)
        =~= verb + " INTO "@ + table + " ("@ + a + ", "@ + b + ", "@ + c + ") VALUES (?1, ?2, ?3)"@);
}

/// The select of two named columns, written out.
pub proof fn lemma_select_sql_two(table: Seq<char>, a: Seq<char>, b: Seq<char>)
    ensures
        select_sql(table, seq![a, b]) == "SELECT "@ + a + ", "@ + b + " FROM "@ + table,
{
    let cols = seq![a, b];
    assert(cols.drop_first() =~= seq![b]);
    assert(seq![b].drop_first() =~= Seq::<Seq<char>>::empty());
    assert(more_names(Seq::<Seq<char>>::empty()) == Seq::<char>::empty());
    assert(more_names(seq![b]) =~= ", "@ + b);
    assert(name_list(cols) =~= a + ", "@ + b);
    assert(select_sql(table, cols) =~= "SELECT "@ + a + ", "@ + b + " FROM "@ + table);
}

/// `SELECT val FROM table WHERE key = ?1`.
pub open spec fn assoc_sql(table: Seq<char>, key_col: Seq<char>, val_col: Seq<char>) -> Seq<char> {
    "SELECT "@ + val_col + " FROM "@ + table + " WHERE "@ + key_col + " = ?1"@
}

pub fn assoc_statement(table: &str, key_col: &str, val_col: &str) -> (r: String)
    ensures
        r@ == assoc_sql(table@, key_col@, val_col@),
{
    let mut out = String::new();
    out.append("SELECT ");
    out.append(val_col);
    out.append(" FROM ");
    out.append(table);
    out.append(" WHERE ");
    out.append(key_col);
    out.append(" = ?1");
    assert(out@ =~= assoc_sql(table@, key_col@, val_col@));
    out
}


/// ` AND col = ?n` for each column, numbering the placeholders from `next`.
pub open spec fn and_list(cols: Seq<Seq<char>>, next: nat) -> Seq<char>
    decreases cols.len(),
{
    if cols.len() == 0 {
        seq![]
    } else {
        " AND "@ + cols[0] + " = ?"@ + decimal_nat(next) + and_list(cols.drop_first(), next + 1)
    }
}

/// A point in time as the date-time text the store writes for it.
pub open spec fn clock_text(t: Timestamp) -> Seq<char> {
    sql_datetime_text(t).unwrap()
}

/// The update of one row: `updated_at` set to the time `t`, the columns to
/// the values, in order; the row found by its id.
pub open spec fn update_write(table: Seq<char>, cols: Seq<Seq<char>>, t: Timestamp, vals: Seq<Bound>, id: i64) -> Write {
    (update_sql(table, cols), seq![Bound::Text(clock_text(t))] + vals + seq![Bound::Integer(id)])
}

/// Sets the given columns of one row to the values, and its update time
/// to now.
pub fn run_update(db: &mut Database, table: &str, cols: &Vec<&'static str>, vals: Vec<SqlValue>, id: i64) -> (r: Result<(), DbError>)
    requires
        cols.len() + 2 <= i64::MAX,
    ensures
        !(r matches Err(DbError::InvalidTimestamp)) ==> exists|t: Timestamp| sql_datetime_text(t) is Some
            && final(db).log() == old(db).log().push(#[trigger] update_write(table@, views(cols@), t, bound_all(vals@), id)),
        r matches Err(DbError::InvalidTimestamp) ==> final(db).log() == old(db).log(),
        r matches Err(e) ==> (e is Sqlite || e is InvalidTimestamp),
{
    let ghost vals0 = vals@;
    let (now, now_v) = now_value()?;
    let sql = update_statement(table, cols);
    let mut params: Vec<SqlValue> = vec![now_v];
    let mut vals = vals;
    params.append(&mut vals);
    params.push(SqlValue::Integer(id));
    assert(bound_all(params@) =~= update_write(table@, views(cols@), now, bound_all(vals0), id).1);
    db.execute(sql.as_str(), params)?;
    assert(db.log() == old(db).log().push(update_write(table@, views(cols@), now, bound_all(vals0), id)));
    Ok(())
}

/// A query narrowed by equality on each given column, in order, with the
/// placeholders numbered from 1, then ordered.
pub open spec fn filter_sql(base: Seq<char>, cols: Seq<Seq<char>>, order: Seq<char>) -> Seq<char> {
    base + and_list(cols, 1) + order
}

pub fn filter_statement(base: &str, cols: &Vec<&str>, order: &str) -> (r: String)
    requires
        cols.len() + 1 <= i64::MAX,
    ensures
        r@ == filter_sql(base@, views(cols@), order@),
{
    let mut out = String::new();
    out.append(base);
    let n = cols.len();
    let mut i: usize = 0;
    assert(views(cols@).skip(0) =~= views(cols@));
    while i < n
        invariant
            n == cols.len(),
            n + 1 <= i64::MAX,
            i <= n,
            out@ + and_list(views(cols@).skip(i as int), (i + 1) as nat) == base@ + and_list(views(cols@), 1),
        decreases n - i,
    {
        let ghost before = out@;
        let ghost rest = views(cols@).skip(i as int);
        assert(rest.drop_first() =~= views(cols@).skip(i + 1));
        assert(rest[0] == cols@[i as int]@);
        out.append(" AND ");
        out.append(cols[i]);
        out.append(" = ?");
        push_decimal(&mut out, i as i64 + 1);
        assert(decimal_int((i + 1) as int) == decimal_nat((i + 1) as nat));
        assert(out@ + and_list(views(cols@).skip(i + 1), (i + 2) as nat)
            =~= before + and_list(rest, (i + 1) as nat));
        i = i + 1;
    }
    assert(views(cols@).skip(n as int) =~= Seq::<Seq<char>>::empty());
    out.append(order);
    assert(out@ =~= filter_sql(base@, views(cols@), order@));
    out
}

/// A column that is present in an update when its parameter was given.
pub open spec fn col_if(present: bool, name: Seq<char>) -> Seq<Seq<char>> {
    if present { seq![name] } else { seq![] }
}

/// A name is among the columns of one optional column exactly when it is
/// that column, present.
pub proof fn lemma_contains_col_if_alone(present: bool, name: Seq<char>)
    ensures
        forall|x: Seq<char>| #[trigger] col_if(present, name).contains(x) <==> (present && x == name),
{
    if present {
        assert(col_if(present, name)[0] == name);
    }
}

/// A name is among the columns after one more optional column exactly when
/// it was among them before or is that column, present.
pub proof fn lemma_contains_col_if(a: Seq<Seq<char>>, present: bool, name: Seq<char>)
    ensures
        forall|x: Seq<char>| #[trigger] (a + col_if(present, name)).contains(x)
            <==> (a.contains(x) || (present && x == name)),
{
    let b = a + col_if(present, name);
    assert forall|x: Seq<char>| #[trigger] b.contains(x) <==> (a.contains(x) || (present && x == name)) by {
        if present {
            assert(b[a.len() as int] == name);
            if a.contains(x) {
                let i = choose|i: int| 0 <= i < a.len() && a[i] == x;
                assert(b[i] == x);
            }
            if b.contains(x) {
                let i = choose|i: int| 0 <= i < b.len() && b[i] == x;
                if i < a.len() {
                    assert(a[i] == x);
                }
            }
        } else {
            assert(b =~= a);
        }
    }
}

/// The value bound for an optional value: one when it is given.
pub open spec fn val_if(v: Option<SqlValue>) -> Seq<Bound> {
    match v {
        Some(x) => seq![bound(x)],
        None => seq![],
    }
}

/// The value bound for an optional text: one when it is given.
pub open spec fn text_if(o: Option<String>) -> Seq<Bound> {
    match o {
        Some(s) => seq![Bound::Text(s@)],
        None => seq![],
    }
}

/// The value bound for an optional number: one when it is given.
pub open spec fn number_if(o: Option<Number>) -> Seq<Bound> {
    match o {
        Some(n) => seq![opt_number_bound(Some(n))],
        None => seq![],
    }
}

/// `b` is what is bound for an optional list: nothing when there is no
/// list; else its JSON text.
pub open spec fn list_if_ok(o: Option<Vec<String>>, b: Seq<Bound>) -> bool {
    match o {
        None => b.len() == 0,
        Some(l) => b == seq![Bound::Text(json_string_list_text(l.deep_view()))],
    }
}

/// Appends a column and its value when the value was given.
pub fn add_if(cols: &mut Vec<&'static str>, vals: &mut Vec<SqlValue>, name: &'static str, v: Option<SqlValue>)
    ensures
        views(final(cols)@) == views(old(cols)@) + col_if(v is Some, name@),
        final(vals).len() == old(vals).len() + (if v is Some { 1int } else { 0int }),
        final(vals)@.take(old(vals).len() as int) == old(vals)@,
        v matches Some(x) ==> final(vals)@.last() == x,
        bound_all(final(vals)@) == bound_all(old(vals)@) + val_if(v),
{
    match v {
        Some(x) => {
            cols.push(name);
            vals.push(x);
        },
        None => {},
    }
    assert(views(cols@) =~= views(old(cols)@) + col_if(v is Some, name@));
    assert(bound_all(vals@) =~= bound_all(old(vals)@) + val_if(v));
}

/// The value bound for an optional text, when given.
pub fn given_text(o: &Option<String>) -> (r: Option<SqlValue>)
    ensures
        r is Some == o is Some,
        o matches Some(s) ==> (r matches Some(SqlValue::Text(t)) && t@ == s@),
        val_if(r) == text_if(*o),
{
    match o {
        Some(s) => Some(SqlValue::Text(s.clone())),
        None => None,
    }
}

/// The JSON text stored for a list when given.
pub fn given_list(o: &Option<Vec<String>>) -> (r: Option<SqlValue>)
    ensures
        r is Some == o is Some,
        o matches Some(l) ==> (r matches Some(SqlValue::Text(s)) && s@ == json_string_list_text(l.deep_view())),
        list_if_ok(*o, val_if(r)),
{
    match o {
        Some(l) => match json_encode_strings(l) {
            Ok(s) => Some(SqlValue::Text(s)),
            Err(_) => Some(SqlValue::Text(String::new())),
        },
        None => None,
    }
}

} // verus!
