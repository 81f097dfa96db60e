//! Tenants: their names, the hosts that they are reached at, and the files that they are kept in.
use crate::cache::{looked_up, Caches, Remembered};
use crate::error::{joined, joined3, DbFailure, Error, Failure, StatusCode};
use crate::model::TenantRow;
use crate::text::{
    same_text, signed_decimal, signed_decimal_is_injective, signed_decimal_text, trim_end_matches,
    trimmed_end,
};
use vstd::prelude::*;
use vstd::string::StrSliceExecFns;

verus! {

/// The rule for tenant names.
pub const TENANT_NAME_PATTERN: &'static str = "^[a-z][a-z0-9-]{0,61}[a-z0-9]$";

/// The name of the tenant that stands for the administration of the service.
pub const ADMIN_TENANT: &'static str = "admin";

/// The directory of the tenants' databases, where it is not set.
pub const TENANT_DB_DIR: &'static str = "../tenant_db";

/// The schema that a new tenant's database is created with.
pub const TENANT_DB_SCHEMA_FILE_PATH: &'static str = "../sql/tenant/10_schema.sql";

/// A lower-case Latin letter.
pub open spec fn is_letter(c: char) -> bool {
    'a' <= c <= 'z'
}

/// A lower-case Latin letter or a decimal digit.
pub open spec fn is_letter_or_digit(c: char) -> bool {
    is_letter(c) || '0' <= c <= '9'
}

/// Whether a text is a tenant name: 2 to 63 letters, digits and hyphens, of which the first is a
/// letter and the last no hyphen.
pub open spec fn is_tenant_name(s: Seq<char>) -> bool {
    &&& 2 <= s.len() <= 63
    &&& is_letter(s[0])
    &&& is_letter_or_digit(s.last())
    &&& forall|i: int|
        0 < i < s.len() - 1 ==> (is_letter_or_digit(#[trigger] s[i]) || s[i] == '-')
}

/// Whether a text matches the rule for tenant names (`regex::Regex::new` and
/// `regex::Regex::is_match`): the expression is anchored at both ends, so it matches a letter, up
/// to 61 letters, digits and hyphens, and a letter or digit, with nothing before or after.
#[verifier::external_body]
fn matches_name_rule(pattern: &str, text: &str) -> (r: bool)
    requires
        pattern@ == TENANT_NAME_PATTERN@,
    ensures
        r == is_tenant_name(text@),
{
    regex::Regex::new(pattern).unwrap().is_match(text)
}

/// Accepts a tenant name that follows the rule.
pub fn validate_tenant_name(name: &str) -> (r: Result<(), Error>)
    ensures
        match r {
            Ok(()) => is_tenant_name(name@),
            Err(e) => !is_tenant_name(name@) && e@ == Failure::Custom(
                StatusCode::BadRequest,
                "invalid tenant name: "@ + name@,
            ),
        },
{
    if matches_name_rule(TENANT_NAME_PATTERN, name) {
        Ok(())
    } else {
        Err(Error::Custom(StatusCode::BadRequest, joined("invalid tenant name: ", name)))
    }
}

/// The text of a setting, or its default where it is not set.
pub open spec fn setting(value: Option<String>, default: Seq<char>) -> Seq<char> {
    match value {
        Some(set) => set@,
        None => default,
    }
}

/// A setting from the environment, or its default where it is not set.
pub fn get_env(value: Option<String>, default: &str) -> (r: String)
    ensures
        r@ == setting(value, default@),
{
    match value {
        Some(set) => set,
        None => default.to_owned(),
    }
}

/// The name of the file that holds a tenant's database.
pub open spec fn db_file_name(id: i64) -> Seq<char> {
    signed_decimal(id as int) + ".db"@
}

/// The name of the file that a tenant is locked by.
pub open spec fn lock_file_name(id: i64) -> Seq<char> {
    signed_decimal(id as int) + ".lock"@
}

/// The path of a file in a directory: a slash stands between the two, unless the directory is empty
/// or ends in one.
pub open spec fn path_in(dir: Seq<char>, file: Seq<char>) -> Seq<char> {
    if dir.len() == 0 || dir.last() == '/' {
        dir + file
    } else {
        dir + "/"@ + file
    }
}

fn join_path(dir: &str, file: &str) -> (r: String)
    ensures
        r@ == path_in(dir@, file@),
{
    let n: usize = dir.unicode_len();
    if n == 0 || dir.get_char(n - 1) == '/' {
        joined(dir, file)
    } else {
        joined3(dir, "/", file)
    }
}

/// The path of a tenant's database, in the directory of the tenants' databases.
pub fn tenant_db_path(dir: &str, id: i64) -> (r: String)
    ensures
        r@ == path_in(dir@, db_file_name(id)),
{
    let number = signed_decimal_text(id);
    let file = joined(number.as_str(), ".db");
    join_path(dir, file.as_str())
}

/// The path of the file that a tenant is locked by, in the directory of the tenants' databases.
pub fn lock_file_path(dir: &str, id: i64) -> (r: String)
    ensures
        r@ == path_in(dir@, lock_file_name(id)),
{
    let number = signed_decimal_text(id);
    let file = joined(number.as_str(), ".lock");
    join_path(dir, file.as_str())
}

/// The shell command that creates a database in the file at `path`.
pub open spec fn creation_command(path: Seq<char>) -> Seq<char> {
    "sqlite3 "@ + path + " < "@ + TENANT_DB_SCHEMA_FILE_PATH@
}

/// The shell command that creates a tenant's database in the file at `path`.
pub fn create_tenant_db_command(path: &str) -> (r: String)
    ensures
        r@ == creation_command(path@),
{
    let command = joined3("sqlite3 ", path, " < ");
    joined(command.as_str(), TENANT_DB_SCHEMA_FILE_PATH)
}

/// How a command went: it could not be started, or it ended and left some output.
pub enum CommandOutcome {
    NotStarted(String),
    Ended { success: bool, stdout: Vec<u8>, stderr: Vec<u8> },
}

/// The text that `String::from_utf8_lossy` makes of some bytes.
pub uninterp spec fn lossy_text_of(bytes: Seq<u8>) -> Seq<char>;

/// Bytes as text (`String::from_utf8_lossy`), where what is not UTF-8 is replaced. It depends on
/// the bytes alone.
#[verifier::external_body]
fn lossy_text(bytes: &Vec<u8>) -> (r: String)
    ensures
        r@ == lossy_text_of(bytes@),
{
    String::from_utf8_lossy(bytes).into_owned()
}

/// What a command's output adds to an error message.
pub open spec fn shown_output(stdout: Seq<u8>, stderr: Seq<u8>) -> Seq<char> {
    "out="@ + lossy_text_of(stdout) + ", err="@ + lossy_text_of(stderr)
}

/// What a command printed, for an error message.
pub fn show_texts(out: &str, err: &str) -> (r: String)
    ensures
        r@ == "out="@ + out@ + ", err="@ + err@,
{
    let start = joined3("out=", out, ", err=");
    joined(start.as_str(), err)
}

/// A command's output for an error message.
pub fn show_output(stdout: &Vec<u8>, stderr: &Vec<u8>) -> (r: String)
    ensures
        r@ == shown_output(stdout@, stderr@),
{
    let out = lossy_text(stdout);
    let err = lossy_text(stderr);
    show_texts(out.as_str(), err.as_str())
}

/// Why a tenant's database has not been created by a command that went this way.
pub open spec fn tenant_db_failure(path: Seq<char>, outcome: CommandOutcome) -> Option<Failure> {
    match outcome {
        CommandOutcome::NotStarted(cause) => Some(
            Failure::Internal(
                "failed to exec sqlite3 "@ + path + " < "@ + TENANT_DB_SCHEMA_FILE_PATH@ + (": "@
                    + cause@),
            ),
        ),
        CommandOutcome::Ended { success, stdout, stderr } => if success {
            None
        } else {
            Some(
                Failure::Internal(
                    "failed to exec sqlite "@ + path + " < "@ + TENANT_DB_SCHEMA_FILE_PATH@ + (
                    ", "@ + shown_output(stdout@, stderr@)),
                ),
            )
        },
    }
}

/// Whether a tenant's database has been created by a command that went this way.
pub fn create_tenant_db(path: &str, outcome: CommandOutcome) -> (r: Result<(), Error>)
    ensures
        match tenant_db_failure(path@, outcome) {
            Some(f) => r matches Err(e) && e@ == f,
            None => r is Ok,
        },
{
    match outcome {
        CommandOutcome::NotStarted(cause) => {
            let start = joined3("failed to exec sqlite3 ", path, " < ");
            let end = joined(": ", cause.as_str());
            Err(
                Error::Internal(
                    joined3(start.as_str(), TENANT_DB_SCHEMA_FILE_PATH, end.as_str()),
                ),
            )
        },
        CommandOutcome::Ended { success, stdout, stderr } => {
            if success {
                Ok(())
            } else {
                let start = joined3("failed to exec sqlite ", path, " < ");
                let output = show_output(&stdout, &stderr);
                let end = joined(", ", output.as_str());
                Err(
                    Error::Internal(
                        joined3(start.as_str(), TENANT_DB_SCHEMA_FILE_PATH, end.as_str()),
                    ),
                )
            }
        },
    }
}

/// The tenant that a host stands for, as far as it is known without asking the database.
pub enum HostTenant {
    Known(TenantRow),
    Unknown(String),
}

/// Whether a row is the one that stands for the administration of the service.
pub open spec fn is_admin_row(t: TenantRow) -> bool {
    &&& t.id == 0
    &&& t.name@ == "admin"@
    &&& t.display_name@ == "admin"@
    &&& t.created_at == 0
    &&& t.updated_at == 0
}

/// What is known of the tenant at a host: the administration, a tenant that is remembered under
/// the name in front of the base host, or else that name.
pub open spec fn host_tenant(
    m: Remembered,
    host: Seq<char>,
    base_host: Seq<char>,
    r: HostTenant,
) -> bool {
    let name = trimmed_end(host, base_host);
    if name == "admin"@ {
        r matches HostTenant::Known(t) && is_admin_row(t)
    } else {
        match looked_up(m.tenant_names, name) {
            Some(t) => r == HostTenant::Known(t),
            None => r matches HostTenant::Unknown(asked) && asked@ == name,
        }
    }
}

/// What is known of the tenant at a host.
pub fn retrieve_tenant_row_from_header(caches: &Caches, host: &str, base_host: &str) -> (r:
    HostTenant)
    ensures
        host_tenant(caches@, host@, base_host@, r),
{
    let name = trim_end_matches(host, base_host);
    if same_text(name.as_str(), ADMIN_TENANT) {
        HostTenant::Known(
            TenantRow {
                id: 0,
                name: ADMIN_TENANT.to_owned(),
                display_name: ADMIN_TENANT.to_owned(),
                created_at: 0,
                updated_at: 0,
            },
        )
    } else {
        match caches.tenant_named(name.as_str()) {
            Some(t) => HostTenant::Known(t),
            None => HostTenant::Unknown(name),
        }
    }
}

/// What becomes of the caches and of a tenant lookup once the database has answered: a tenant that
/// was found is remembered under the name that was asked for.
pub open spec fn tenant_by_name_found(
    before: Remembered,
    name: Seq<char>,
    reply: Result<Option<TenantRow>, DbFailure>,
    after: Remembered,
    r: Result<Option<TenantRow>, Error>,
) -> bool {
    match reply {
        Err(f) => after == before && (r matches Err(e) && e@ == Failure::Sqlx(f.text@)),
        Ok(None) => after == before && r == Ok::<Option<TenantRow>, Error>(None),
        Ok(Some(t)) => after == (Remembered {
            tenant_names: before.tenant_names.insert(name, t),
            ..before
        }) && r == Ok::<Option<TenantRow>, Error>(Some(t)),
    }
}

/// Takes the database's answer to a lookup of a tenant by its name.
pub fn get_tenant_row_from_name(
    caches: &mut Caches,
    name: &str,
    reply: Result<Option<TenantRow>, DbFailure>,
) -> (r: Result<Option<TenantRow>, Error>)
    ensures
        tenant_by_name_found(old(caches)@, name@, reply, final(caches)@, r),
{
    match reply {
        Err(f) => Err(f.into_error()),
        Ok(None) => Ok(None),
        Ok(Some(t)) => {
            caches.keep_tenant_named(name, t.clone());
            Ok(Some(t))
        },
    }
}

/// A text without a character that `suffix` starts with ends in no copy of it.
proof fn nothing_to_trim(s: Seq<char>, suffix: Seq<char>)
    requires
        suffix.len() > 0,
        !s.contains(suffix[0]),
    ensures
        trimmed_end(s, suffix) == s,
{
    if suffix.len() <= s.len() && s.skip(s.len() - suffix.len()) == suffix {
        assert(s[s.len() - suffix.len()] == s.skip(s.len() - suffix.len())[0]);
    }
}

/// A tenant is reached at the host that is its name in front of a base host that starts with a dot:
/// of that host, the name is what is left.
pub proof fn tenants_are_reached_under_their_names(name: Seq<char>, base_host: Seq<char>)
    requires
        is_tenant_name(name),
        base_host.len() > 0,
        base_host[0] == '.',
    ensures
        trimmed_end(name + base_host, base_host) == name,
{
    let host = name + base_host;
    assert(host.skip(name.len() as int) =~= base_host);
    assert(host.take(name.len() as int) =~= name);
    assert(!name.contains('.')) by {
        if name.contains('.') {
            let i = choose|i: int| 0 <= i < name.len() && name[i] == '.';
            assert(i == 0 || i == name.len() - 1 || is_letter_or_digit(name[i]) || name[i] == '-');
        }
    }
    nothing_to_trim(name, base_host);
}

/// No two tenants share a database file or a lock file, and no tenant's database is another's lock,
/// whatever the directory is.
pub proof fn tenants_share_no_files(dir: Seq<char>, id1: i64, id2: i64)
    ensures
        id1 != id2 ==> path_in(dir, db_file_name(id1)) != path_in(dir, db_file_name(id2)),
        id1 != id2 ==> path_in(dir, lock_file_name(id1)) != path_in(dir, lock_file_name(id2)),
        path_in(dir, db_file_name(id1)) != path_in(dir, lock_file_name(id2)),
{
    reveal_strlit(".db");
    reveal_strlit(".lock");
    let n1 = signed_decimal(id1 as int);
    let n2 = signed_decimal(id2 as int);
    if path_in(dir, db_file_name(id1)) == path_in(dir, db_file_name(id2)) {
        paths_tell_files_apart(dir, db_file_name(id1), db_file_name(id2));
        same_start(n1, n2, ".db"@);
        signed_decimal_is_injective(id1 as int, id2 as int);
    }
    if path_in(dir, lock_file_name(id1)) == path_in(dir, lock_file_name(id2)) {
        paths_tell_files_apart(dir, lock_file_name(id1), lock_file_name(id2));
        same_start(n1, n2, ".lock"@);
        signed_decimal_is_injective(id1 as int, id2 as int);
    }
    if path_in(dir, db_file_name(id1)) == path_in(dir, lock_file_name(id2)) {
        paths_tell_files_apart(dir, db_file_name(id1), lock_file_name(id2));
        assert(db_file_name(id1).last() == 'b');
        assert(lock_file_name(id2).last() == 'k');
    }
}

/// Different files in a directory have different paths.
proof fn paths_tell_files_apart(dir: Seq<char>, a: Seq<char>, b: Seq<char>)
    requires
        path_in(dir, a) == path_in(dir, b),
    ensures
        a == b,
{
    let start = if dir.len() == 0 || dir.last() == '/' {
        dir
    } else {
        dir + "/"@
    };
    assert(a =~= path_in(dir, a).skip(start.len() as int));
    assert(b =~= path_in(dir, b).skip(start.len() as int));
}

proof fn same_start(a: Seq<char>, b: Seq<char>, end: Seq<char>)
    requires
        a + end == b + end,
    ensures
        a == b,
{
    assert((a + end).len() == a.len() + end.len());
    assert((b + end).len() == b.len() + end.len());
    assert(a =~= (a + end).take(a.len() as int));
    assert(b =~= (b + end).take(b.len() as int));
}

} // verus!
