//! The server database's schema upgrades: the columns added to tables that
//! an older server created, and the account made for a fresh database.

use crate::text::str_eq;
use vstd::prelude::*;

verus! {

/// The statements, in table order, for the columns of `table` (each a
/// column name and the statement that adds it) that are not present.
pub open spec fn missing_columns(table: Seq<(Seq<char>, Seq<char>)>, present: Seq<Seq<char>>) -> Seq<Seq<char>>
    decreases table.len(),
{
    if table.len() == 0 {
        Seq::empty()
    } else {
        let rest = missing_columns(table.drop_last(), present);
        if present.contains(table.last().0) {
            rest
        } else {
            rest.push(table.last().1)
        }
    }
}

/// The columns added to `hosts` since its first version.
pub open spec fn host_columns() -> Seq<(Seq<char>, Seq<char>)> {
    seq![
        ("client_unique_id"@, "ALTER TABLE hosts ADD COLUMN client_unique_id TEXT;"@),
        ("client_private_key"@, "ALTER TABLE hosts ADD COLUMN client_private_key TEXT;"@),
        ("client_certificate"@, "ALTER TABLE hosts ADD COLUMN client_certificate TEXT;"@),
        ("server_certificate"@, "ALTER TABLE hosts ADD COLUMN server_certificate TEXT;"@),
        (
            "server_codec_mode_support"@,
            "ALTER TABLE hosts ADD COLUMN server_codec_mode_support INTEGER DEFAULT 0;"@,
        ),
    ]
}

/// The columns added to `users` since its first version.
pub open spec fn user_columns() -> Seq<(Seq<char>, Seq<char>)> {
    seq![
        ("role"@, "ALTER TABLE users ADD COLUMN role TEXT NOT NULL DEFAULT 'user';"@),
        ("is_active"@, "ALTER TABLE users ADD COLUMN is_active INTEGER NOT NULL DEFAULT 1;"@),
        ("created_at"@, "ALTER TABLE users ADD COLUMN created_at TEXT;"@),
    ]
}

pub open spec fn strs_view(v: Seq<&str>) -> Seq<Seq<char>> {
    v.map_values(|s: &str| s@)
}

pub open spec fn pairs_view(v: Seq<(&str, &str)>) -> Seq<(Seq<char>, Seq<char>)> {
    v.map_values(|p: (&str, &str)| (p.0@, p.1@))
}

pub open spec fn names_view(v: Seq<String>) -> Seq<Seq<char>> {
    v.map_values(|s: String| s@)
}

fn has_column(present: &Vec<String>, name: &str) -> (res: bool)
    ensures
        res == names_view(present@).contains(name@),
{
    let ghost nv = names_view(present@);
    let mut i: usize = 0;
    while i < present.len()
        invariant
            i <= present@.len(),
            nv == names_view(present@),
            forall|j: int| 0 <= j < i ==> nv[j] != name@,
        decreases present@.len() - i,
    {
        if str_eq(present[i].as_str(), name) {
            assert(nv[i as int] == name@);
            return true;
        }
        i = i + 1;
    }
    false
}

fn missing_of(table: Vec<(&'static str, &'static str)>, present: &Vec<String>) -> (res: Vec<&'static str>)
    ensures
        strs_view(res@) == missing_columns(pairs_view(table@), names_view(present@)),
{
    let ghost tv = pairs_view(table@);
    let mut out: Vec<&'static str> = Vec::new();
    let mut i: usize = 0;
    while i < table.len()
        invariant
            i <= table@.len(),
            tv == pairs_view(table@),
            strs_view(out@) == missing_columns(tv.take(i as int), names_view(present@)),
        decreases table@.len() - i,
    {
        let (name, stmt) = table[i];
        assert(tv.take(i + 1).drop_last() =~= tv.take(i as int));
        if !has_column(present, name) {
            let ghost before = strs_view(out@);
            out.push(stmt);
            assert(strs_view(out@) =~= before.push(stmt@));
        }
        i = i + 1;
    }
    assert(tv.take(tv.len() as int) =~= tv);
    out
}

/// The statements that bring an older `hosts` table up to date, given its
/// columns.
pub fn host_migrations(present: &Vec<String>) -> (res: Vec<&'static str>)
    ensures
        strs_view(res@) == missing_columns(host_columns(), names_view(present@)),
{
    let table = vec![
        ("client_unique_id", "ALTER TABLE hosts ADD COLUMN client_unique_id TEXT;"),
        ("client_private_key", "ALTER TABLE hosts ADD COLUMN client_private_key TEXT;"),
        ("client_certificate", "ALTER TABLE hosts ADD COLUMN client_certificate TEXT;"),
        ("server_certificate", "ALTER TABLE hosts ADD COLUMN server_certificate TEXT;"),
        (
            "server_codec_mode_support",
            "ALTER TABLE hosts ADD COLUMN server_codec_mode_support INTEGER DEFAULT 0;",
        ),
    ];
    assert(pairs_view(table@) =~= host_columns());
    missing_of(table, present)
}

/// The statements that bring an older `users` table up to date, given its
/// columns.
pub fn user_migrations(present: &Vec<String>) -> (res: Vec<&'static str>)
    ensures
        strs_view(res@) == missing_columns(user_columns(), names_view(present@)),
{
    let table = vec![
        ("role", "ALTER TABLE users ADD COLUMN role TEXT NOT NULL DEFAULT 'user';"),
        ("is_active", "ALTER TABLE users ADD COLUMN is_active INTEGER NOT NULL DEFAULT 1;"),
        ("created_at", "ALTER TABLE users ADD COLUMN created_at TEXT;"),
    ];
    assert(pairs_view(table@) =~= user_columns());
    missing_of(table, present)
}

/// The account a fresh database gets: when it has no user, `admin` with
/// the password `admin123` and the admin role.
pub fn default_admin(user_count: i64) -> (res: Option<(&'static str, &'static str, &'static str)>)
    ensures
        user_count == 0 ==> (res matches Some(a) && a.0@ == "admin"@ && a.1@ == "admin123"@
            && a.2@ == "admin"@),
        user_count != 0 ==> res is None,
{
    if user_count == 0 {
        Some(("admin", "admin123", "admin"))
    } else {
        None
    }
}

} // verus!
