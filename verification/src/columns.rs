//! Reading typed values out of result columns, as rusqlite's `FromSql`
//! conversions do.

use vstd::prelude::*;
use crate::sql::{json_decode_strings, json_is_valid, json_text_is_valid, json_string_list_parse, parse_sql_datetime, sql_datetime_parse, Number, SqlValue, Timestamp};

verus! {

pub open spec fn view_opt(o: Option<String>) -> Option<Seq<char>> {
    match o {
        Some(s) => Some(s@),
        None => None,
    }
}

pub open spec fn view_opt_list(o: Option<Vec<String>>) -> Option<Seq<Seq<char>>> {
    match o {
        Some(l) => Some(l.deep_view()),
        None => None,
    }
}

/// A TEXT column read as a string.
pub open spec fn text_of(v: SqlValue) -> Option<Seq<char>> {
    match v {
        SqlValue::Text(s) => Some(s@),
        _ => None,
    }
}

/// An INTEGER column read as an `i64`.
pub open spec fn int_of(v: SqlValue) -> Option<i64> {
    match v {
        SqlValue::Integer(i) => Some(i),
        _ => None,
    }
}

/// An INTEGER column read as an `i32`: values out of its range are errors.
pub open spec fn i32_of(v: SqlValue) -> Option<i32> {
    match v {
        SqlValue::Integer(i) => if i32::MIN <= i <= i32::MAX { Some(i as i32) } else { None },
        _ => None,
    }
}

/// A flag stored as an integer: read as an `i32`, true when not zero.
pub open spec fn flag_of(v: SqlValue) -> Option<bool> {
    match i32_of(v) {
        Some(i) => Some(i != 0),
        None => None,
    }
}

/// A nullable TEXT column.
pub open spec fn opt_text_of(v: SqlValue) -> Option<Option<Seq<char>>> {
    match v {
        SqlValue::Null => Some(None),
        SqlValue::Text(s) => Some(Some(s@)),
        _ => None,
    }
}

/// A nullable INTEGER column.
pub open spec fn opt_int_of(v: SqlValue) -> Option<Option<i64>> {
    match v {
        SqlValue::Null => Some(None),
        SqlValue::Integer(i) => Some(Some(i)),
        _ => None,
    }
}

/// A date-time column, parsed as rusqlite parses `NaiveDateTime` text.
pub open spec fn datetime_of(v: SqlValue) -> Option<Timestamp> {
    match v {
        SqlValue::Text(s) => sql_datetime_parse(s@),
        _ => None,
    }
}

/// A nullable date-time column.
pub open spec fn opt_datetime_of(v: SqlValue) -> Option<Option<Timestamp>> {
    match v {
        SqlValue::Null => Some(None),
        SqlValue::Text(s) => match sql_datetime_parse(s@) {
            Some(t) => Some(Some(t)),
            None => None,
        },
        _ => None,
    }
}

/// A TEXT column holding a JSON list of strings; text that is no such list
/// reads as the empty list.
pub open spec fn string_list_of(v: SqlValue) -> Option<Seq<Seq<char>>> {
    match v {
        SqlValue::Text(s) => match json_string_list_parse(s@) {
            Some(l) => Some(l),
            None => Some(seq![]),
        },
        _ => None,
    }
}

/// A nullable TEXT column holding a JSON list of strings; text that is no
/// such list reads as no list.
pub open spec fn opt_string_list_of(v: SqlValue) -> Option<Option<Seq<Seq<char>>>> {
    match v {
        SqlValue::Null => Some(None),
        SqlValue::Text(s) => Some(json_string_list_parse(s@)),
        _ => None,
    }
}

/// A nullable REAL column: integers and reals are numbers.
pub open spec fn opt_number_of(v: SqlValue) -> Option<Option<Number>> {
    match v {
        SqlValue::Null => Some(None),
        SqlValue::Integer(i) => Some(Some(Number::Integer(i))),
        SqlValue::Real(r) => Some(Some(Number::Real(r))),
        _ => None,
    }
}

pub fn as_text(v: SqlValue) -> (r: Option<String>)
    ensures
        view_opt(r) == text_of(v),
{
    match v {
        SqlValue::Text(s) => Some(s),
        _ => None,
    }
}

pub fn as_int(v: SqlValue) -> (r: Option<i64>)
    ensures
        r == int_of(v),
{
    match v {
        SqlValue::Integer(i) => Some(i),
        _ => None,
    }
}

pub fn as_i32(v: SqlValue) -> (r: Option<i32>)
    ensures
        r == i32_of(v),
{
    match v {
        SqlValue::Integer(i) => if i32::MIN as i64 <= i && i <= i32::MAX as i64 { Some(i as i32) } else { None },
        _ => None,
    }
}

pub fn as_flag(v: SqlValue) -> (r: Option<bool>)
    ensures
        r == flag_of(v),
{
    match as_i32(v) {
        Some(i) => Some(i != 0),
        None => None,
    }
}

pub fn as_opt_text(v: SqlValue) -> (r: Option<Option<String>>)
    ensures
        match r {
            Some(o) => opt_text_of(v) == Some(view_opt(o)),
            None => opt_text_of(v) is None,
        },
{
    match v {
        SqlValue::Null => Some(None),
        SqlValue::Text(s) => Some(Some(s)),
        _ => None,
    }
}

pub fn as_opt_int(v: SqlValue) -> (r: Option<Option<i64>>)
    ensures
        r == opt_int_of(v),
{
    match v {
        SqlValue::Null => Some(None),
        SqlValue::Integer(i) => Some(Some(i)),
        _ => None,
    }
}

pub fn as_datetime(v: SqlValue) -> (r: Option<Timestamp>)
    ensures
        r == datetime_of(v),
{
    match v {
        SqlValue::Text(s) => parse_sql_datetime(s.as_str()),
        _ => None,
    }
}

pub fn as_opt_datetime(v: SqlValue) -> (r: Option<Option<Timestamp>>)
    ensures
        r == opt_datetime_of(v),
{
    match v {
        SqlValue::Null => Some(None),
        SqlValue::Text(s) => match parse_sql_datetime(s.as_str()) {
            Some(t) => Some(Some(t)),
            None => None,
        },
        _ => None,
    }
}

pub fn as_string_list(v: SqlValue) -> (r: Option<Vec<String>>)
    ensures
        view_opt_list(r) == string_list_of(v),
{
    match v {
        SqlValue::Text(s) => match json_decode_strings(s.as_str()) {
            Ok(l) => Some(l),
            Err(_) => {
                let empty: Vec<String> = Vec::new();
                assert(empty.deep_view() =~= Seq::<Seq<char>>::empty());
                Some(empty)
            },
        },
        _ => None,
    }
}

pub fn as_opt_string_list(v: SqlValue) -> (r: Option<Option<Vec<String>>>)
    ensures
        match r {
            Some(o) => opt_string_list_of(v) == Some(view_opt_list(o)),
            None => opt_string_list_of(v) is None,
        },
{
    match v {
        SqlValue::Null => Some(None),
        SqlValue::Text(s) => match json_decode_strings(s.as_str()) {
            Ok(l) => Some(Some(l)),
            Err(_) => Some(None),
        },
        _ => None,
    }
}

pub fn as_opt_number(v: SqlValue) -> (r: Option<Option<Number>>)
    ensures
        r == opt_number_of(v),
{
    match v {
        SqlValue::Null => Some(None),
        SqlValue::Integer(i) => Some(Some(Number::Integer(i))),
        SqlValue::Real(x) => Some(Some(Number::Real(x))),
        _ => None,
    }
}

/// Moves column `i` out of a row, leaving NULL in its place.
pub fn take_col(row: &mut Vec<SqlValue>, i: usize) -> (v: SqlValue)
    requires
        i < old(row).len(),
    ensures
        v == old(row)@[i as int],
        final(row)@ == old(row)@.update(i as int, SqlValue::Null),
{
    let v = row.remove(i);
    row.insert(i, SqlValue::Null);
    assert(row@ =~= old(row)@.update(i as int, SqlValue::Null));
    v
}

/// A nullable TEXT column holding JSON: text that is not JSON reads as none.
pub open spec fn opt_json_of(v: SqlValue) -> Option<Option<Seq<char>>> {
    match v {
        SqlValue::Null => Some(None),
        SqlValue::Text(s) => Some(if json_text_is_valid(s@) { Some(s@) } else { None }),
        _ => None,
    }
}

pub fn as_opt_json(v: SqlValue) -> (r: Option<Option<String>>)
    ensures
        match r {
            Some(o) => opt_json_of(v) == Some(view_opt(o)),
            None => opt_json_of(v) is None,
        },
{
    match v {
        SqlValue::Null => Some(None),
        SqlValue::Text(s) => if json_is_valid(s.as_str()) { Some(Some(s)) } else { Some(None) },
        _ => None,
    }
}

} // verus!
