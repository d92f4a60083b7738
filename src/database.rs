//! Database administration statements, with the name check that keeps them
//! free of injected SQL.
use vstd::prelude::*;
use crate::drivers::MariaDbManager;
use crate::lines::{lines, text_lines};
use crate::pid::{trim_str, trimmed};
use crate::state::AppError;
use crate::templates::lower_of;
use crate::text::{contains, str_contains};

verus! {

/// A database, for listing.
#[derive(Clone, Debug)]
pub struct DatabaseEntry {
    pub name: String,
}

/// Whether `char::is_alphanumeric` holds of a character.
pub uninterp spec fn alphanumeric(c: char) -> bool;

/// Relies on `char::is_alphanumeric`: Unicode alphabetic or numeric; the
/// ASCII letters and digits are such.
#[verifier::external_body]
pub(crate) fn is_alphanumeric(c: char) -> (r: bool)
    ensures
        r == alphanumeric(c),
        ('a' <= c && c <= 'z') || ('A' <= c && c <= 'Z') || ('0' <= c && c <= '9') ==> r,
{
    c.is_alphanumeric()
}

/// A database name made of alphanumeric characters and underscores only.
pub open spec fn valid_db_name(name: Seq<char>) -> bool {
    forall|i: int| 0 <= i < name.len() ==> alphanumeric(#[trigger] name[i]) || name[i] == '_'
}

/// What a database statement does.
#[derive(Clone, Copy, Debug, PartialEq, Eq, Structural)]
pub enum DbAction {
    Create,
    Drop,
}

pub const CREATE_PREFIX: &'static str = "CREATE DATABASE `";
pub const DROP_PREFIX: &'static str = "DROP DATABASE `";
pub const STATEMENT_END: &'static str = "`;";

/// The statement for an action on a database.
pub open spec fn statement_text(action: DbAction, name: Seq<char>) -> Seq<char> {
    (if action == DbAction::Create {
        CREATE_PREFIX@
    } else {
        DROP_PREFIX@
    }) + name + STATEMENT_END@
}

impl MariaDbManager {
    /// Whether a name may be used for a database.
    pub fn is_valid_database_name(name: &str) -> (r: bool)
        ensures
            r == valid_db_name(name@),
    {
        let n = name.unicode_len();
        let mut i: usize = 0;
        while i < n
            invariant
                n == name@.len(),
                i <= n,
                forall|k: int| 0 <= k < i ==> alphanumeric(#[trigger] name@[k]) || name@[k] == '_',
            decreases n - i,
        {
            let c = name.get_char(i);
            if !(is_alphanumeric(c) || c == '_') {
                return false;
            }
            i = i + 1;
        }
        true
    }

    /// The statement that creates or drops database `name`; a name with
    /// anything but alphanumeric characters and underscores is refused.
    pub fn database_statement(action: DbAction, name: &str) -> (r: Result<String, AppError>)
        ensures
            r is Ok <==> valid_db_name(name@),
            r is Ok ==> r->Ok_0@ == statement_text(action, name@),
            r is Err ==> r->Err_0 is InvalidInput,
    {
        if !MariaDbManager::is_valid_database_name(name) {
            return Err(AppError::InvalidInput(String::from_str(
                "Database name can only contain alphanumeric characters and underscores",
            )));
        }
        let mut s = match action {
            DbAction::Create => String::from_str(CREATE_PREFIX),
            DbAction::Drop => String::from_str(DROP_PREFIX),
        };
        s.append(name);
        s.append(STATEMENT_END);
        Ok(s)
    }
}

/// The database names that `SHOW DATABASES` printed, one per line, empty
/// lines skipped.
pub open spec fn listed_databases(ls: Seq<Seq<char>>) -> Seq<Seq<char>>
    decreases ls.len(),
{
    if ls.len() == 0 {
        Seq::empty()
    } else if trimmed(ls[0]).len() == 0 {
        listed_databases(ls.drop_first())
    } else {
        seq![trimmed(ls[0])] + listed_databases(ls.drop_first())
    }
}

/// Whether the database initialiser failed: it exited with a failure, its
/// error output mentions an error, and no system database was created.
pub open spec fn init_failed(exit_ok: bool, stderr: Seq<char>, initialized: bool) -> bool {
    !exit_ok && contains(lower_of(stderr), "error"@) && !initialized
}

impl MariaDbManager {
    /// The databases listed by the client's `SHOW DATABASES` output.
    pub fn parse_database_list(stdout: &str) -> (r: Vec<DatabaseEntry>)
        ensures
            r@.map_values(|d: DatabaseEntry| d.name@) == listed_databases(text_lines(stdout@)),
    {
        let ls = lines(stdout);
        let ghost lv = text_lines(stdout@);
        let mut r: Vec<DatabaseEntry> = Vec::new();
        let mut i: usize = 0;
        proof {
            assert(lv.subrange(0, lv.len() as int) =~= lv);
        }
        while i < ls.len()
            invariant
                ls@.len() == lv.len(),
                forall|k: int| 0 <= k < ls@.len() ==> (#[trigger] ls@[k])@ == lv[k],
                i <= ls@.len(),
                listed_databases(lv) == r@.map_values(|d: DatabaseEntry| d.name@) + listed_databases(
                    lv.subrange(i as int, lv.len() as int),
                ),
            decreases ls@.len() - i,
        {
            let ghost rest = lv.subrange(i as int, lv.len() as int);
            proof {
                assert(rest[0] == lv[i as int]);
                assert(rest.drop_first() =~= lv.subrange(i + 1, lv.len() as int));
            }
            let t = trim_str(ls[i].as_str());
            if t.as_str().unicode_len() > 0 {
                let ghost before = r@;
                r.push(DatabaseEntry { name: t });
                proof {
                    assert(r@.map_values(|d: DatabaseEntry| d.name@) =~= before.map_values(
                        |d: DatabaseEntry| d.name@,
                    ).push(trimmed(lv[i as int])));
                }
            }
            i = i + 1;
        }
        proof {
            assert(lv.subrange(i as int, lv.len() as int) =~= Seq::<Seq<char>>::empty());
            assert(r@.map_values(|d: DatabaseEntry| d.name@) + Seq::empty() =~= r@.map_values(
                |d: DatabaseEntry| d.name@,
            ));
        }
        r
    }

    /// Whether the database initialiser failed, from its exit status, its
    /// error output as lowercased text, and whether the system database
    /// exists afterwards; warnings alone are no failure.
    pub fn init_failed_lowered(exit_ok: bool, stderr_lowered: &str, initialized: bool) -> (r: bool)
        ensures
            r == (!exit_ok && contains(stderr_lowered@, "error"@) && !initialized),
    {
        !exit_ok && str_contains(stderr_lowered, "error") && !initialized
    }

    /// Whether the database initialiser failed (see `init_failed`).
    pub fn initialization_failed(exit_ok: bool, stderr: &str, initialized: bool) -> (r: bool)
        ensures
            r == init_failed(exit_ok, stderr@, initialized),
    {
        let lowered = crate::templates::lowercase(stderr);
        MariaDbManager::init_failed_lowered(exit_ok, lowered.as_str(), initialized)
    }
}

} // verus!
