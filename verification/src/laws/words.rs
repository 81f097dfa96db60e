//! Numbers, texts, ids and errors.
use crate::db::{create_index_if_not_exists, drop_unique_index_if_exists};
use crate::error::{
    internal, joined, joined3, refusal, DbFailure, Error, ErrorBody, StatusCode,
};
use crate::ids::{dispense_id, id_number, id_text};
use crate::question::{Answer, Config};
use crate::rnd::{gen, gen_bool, gen_fraction, gen_from, gen_range, init, seeded};
use crate::scores::{all_digits, digits_value, i64_parse_failure_of, i64_value, parse_score};
use crate::tenant::{
    create_tenant_db, create_tenant_db_command, db_file_name, get_env, is_tenant_name,
    lock_file_name, lock_file_path, lossy_text_of, path_in, show_output, show_texts,
    tenant_db_path, validate_tenant_name, CommandOutcome,
};
use crate::text::{
    decimal, decimal_text, digit, same_text, signed_decimal, signed_decimal_text,
    trim_end_matches, trimmed_end,
};
use crate::viewer::Role;
use vstd::prelude::*;

verus! {

/// The number that a row of decimal digits stands for.
pub open spec fn number_in(s: Seq<char>) -> int
    decreases s.len(),
{
    if s.len() == 0 {
        0
    } else {
        10 * number_in(s.take(s.len() - 1)) + (s[s.len() - 1] as int - 48)
    }
}

/// Whether a text is a natural number in decimal, with no digit too many.
pub open spec fn is_natural(s: Seq<char>, n: int) -> bool {
    &&& s.len() > 0
    &&& forall|i: int| 0 <= i < s.len() ==> '0' <= #[trigger] s[i] <= '9'
    &&& s.len() > 1 ==> s[0] != '0'
    &&& number_in(s) == n
}

/// Whether a text is an integer in decimal, with a sign only below zero.
pub open spec fn is_decimal(s: Seq<char>, i: int) -> bool {
    if i < 0 {
        s.len() > 0 && s[0] == '-' && is_natural(s.skip(1), -i)
    } else {
        is_natural(s, i)
    }
}

pub(crate) proof fn decimals_are_natural(n: nat)
    ensures
        is_natural(decimal(n), n as int),
        n > 0 ==> decimal(n)[0] != '0',
    decreases n,
{
    let s = decimal(n);
    if n < 10 {
        assert(s.len() == 1);
        assert(s[0] == digit(n));
        assert(s.take(0) =~= Seq::<char>::empty());
        assert(number_in(s.take(0)) == 0);
    } else {
        decimals_are_natural(n / 10);
        assert(s.take(s.len() - 1) =~= decimal(n / 10));
        assert(s[s.len() - 1] == digit(n % 10));
        assert(s[0] == decimal(n / 10)[0]);
    }
}

pub(crate) proof fn signed_decimals_are_decimal(i: int)
    ensures
        is_decimal(signed_decimal(i), i),
{
    if i < 0 {
        decimals_are_natural((-i) as nat);
        assert(signed_decimal(i).skip(1) =~= decimal((-i) as nat));
    } else {
        decimals_are_natural(i as nat);
    }
}

/// A number's text is that number in decimal.
pub proof fn numbers_are_written_in_decimal(n: u128, r: String)
    requires
        call_ensures(decimal_text, (n,), r),
    ensures
        is_natural(r@, n as int),
{
    decimals_are_natural(n as nat);
}

/// A signed number's text is that number in decimal.
pub proof fn signed_numbers_are_written_in_decimal(i: i64, r: String)
    requires
        call_ensures(signed_decimal_text, (i,), r),
    ensures
        is_decimal(r@, i as int),
{
    signed_decimals_are_decimal(i as int);
}

/// Whether a text is some digits with at most one sign in front, and which integer that is.
pub open spec fn reads_as(s: Seq<char>, i: int) -> bool {
    ||| all_digits_in(s) && number_in(s) == i
    ||| s.len() > 0 && s[0] == '+' && all_digits_in(s.skip(1)) && number_in(s.skip(1)) == i
    ||| s.len() > 0 && s[0] == '-' && all_digits_in(s.skip(1)) && number_in(s.skip(1)) == -i
}

/// Whether a text is one or more decimal digits.
pub open spec fn all_digits_in(s: Seq<char>) -> bool {
    s.len() > 0 && forall|k: int| 0 <= k < s.len() ==> '0' <= #[trigger] s[k] <= '9'
}

proof fn digits_are_numbers(s: Seq<char>)
    ensures
        digits_value(s) == number_in(s),
    decreases s.len(),
{
    if s.len() > 0 {
        assert(s.take(s.len() - 1) =~= s.drop_last());
        digits_are_numbers(s.drop_last());
        assert('0' as int == 48);
    }
}

pub(crate) proof fn integers_read_as(s: Seq<char>)
    ensures
        i64_value(s) matches Some(i) ==> reads_as(s, i as int),
        i64_value(s) is None ==> forall|i: int| i64::MIN <= i <= i64::MAX ==> !#[trigger] reads_as(
            s,
            i,
        ),
{
    digits_are_numbers(s);
    if s.len() > 0 {
        assert(s.skip(1) =~= s.drop_first());
        digits_are_numbers(s.drop_first());
        assert(all_digits_in(s) == all_digits(s));
        assert(all_digits_in(s.skip(1)) == all_digits(s.drop_first()));
        if all_digits_in(s) {
            assert('0' <= s[0] <= '9');
        }
    }
}

/// The text of a score is read as the integer that it is, where that fits, and refused else.
pub proof fn scores_are_read_as_they_are(text: &str, r: Result<i64, Error>)
    requires
        call_ensures(parse_score, (text,), r),
    ensures
        match r {
            Ok(score) => reads_as(text@, score as int),
            Err(e) => (forall|i: int|
                i64::MIN <= i <= i64::MAX ==> !#[trigger] reads_as(text@, i)) && (
            e matches Error::Custom(code, words) && code == StatusCode::BadRequest && words@
                == "error parse: score_str="@ + text@ + ", "@ + i64_parse_failure_of(text@)),
        },
{
    integers_read_as(text@);
}

/// Whether an id is a time and a number in decimal, with a hyphen between them.
pub open spec fn is_id(id: Seq<char>, time: int, number: int) -> bool {
    exists|t: Seq<char>, n: Seq<char>|
        is_natural(t, time) && is_natural(n, number) && id == #[trigger] (t + seq!['-'] + n)
}

/// One step of the generator: two shifts, each of them mixed in.
pub open spec fn steps_to(a: usize, b: usize) -> bool {
    let t = a ^ (a << 7usize);
    b == t ^ (t >> 9usize)
}

pub(crate) proof fn ids_are_times_and_numbers(time: nat, state: usize)
    ensures
        is_id(id_text(time, id_number(state)), time as int, state % 999_999 + 1),
{
    let number = id_number(state);
    decimals_are_natural(time);
    decimals_are_natural(number);
    reveal_strlit("-");
    assert("-"@ =~= seq!['-']);
    assert(id_text(time, number) == decimal(time) + seq!['-'] + decimal(number));
}

/// An id tells the nanoseconds, and a number from 1 up to 999999 that comes from the next state of
/// the generator.
pub proof fn an_id_tells_time_and_number(state: &mut usize, nanos: u128, r: String)
    requires
        call_ensures(dispense_id, (state, nanos), r),
    ensures
        is_id(r@, nanos as int, *final(state) % 999_999 + 1),
        *old(state) != 0 ==> steps_to(*old(state), *final(state)),
{
    ids_are_times_and_numbers(nanos as nat, *final(state));
}

/// The generator steps from the state that it has, or from the random word where it has none.
pub proof fn the_generator_steps(state: usize, random: usize, r: usize)
    requires
        call_ensures(gen_from, (state, random), r),
    ensures
        state != 0 ==> steps_to(state, r),
        state == 0 ==> steps_to(random, r),
{
}

/// A seed is taken as it is, and a seed of zero gives way to the random word.
pub proof fn seeds_are_taken_as_they_are(
    seed: usize,
    random: usize,
    r: usize,
    state: &mut usize,
    done: (),
)
    requires
        call_ensures(seeded, (seed, random), r),
        call_ensures(init, (state, seed), done),
    ensures
        seed != 0 ==> r == seed && *final(state) == seed,
        seed == 0 ==> r == random,
{
}

/// What is drawn comes from the next word: the word itself, a number of a range, its lowest bit, or
/// its last nine digits.
pub proof fn draws_come_from_the_next_word(
    s1: &mut usize,
    word: usize,
    s2: &mut usize,
    a: usize,
    b: usize,
    number: usize,
    s3: &mut usize,
    bit: bool,
    s4: &mut usize,
    fraction: usize,
)
    requires
        a < b,
        call_ensures(gen, (s1,), word),
        call_ensures(gen_range, (s2, a, b), number),
        call_ensures(gen_bool, (s3,), bit),
        call_ensures(gen_fraction, (s4,), fraction),
    ensures
        word == *final(s1),
        *old(s1) != 0 ==> steps_to(*old(s1), *final(s1)),
        a <= number < b,
        (*final(s2) as int - (number as int - a as int)) % (b - a) == 0,
        *old(s2) != 0 ==> steps_to(*old(s2), *final(s2)),
        bit <==> *final(s3) % 2 == 1,
        *old(s3) != 0 ==> steps_to(*old(s3), *final(s3)),
        fraction < 1_000_000_000,
        (*final(s4) - fraction) % 1_000_000_000 == 0,
        *old(s4) != 0 ==> steps_to(*old(s4), *final(s4)),
{
    let w = *final(s2) as int;
    let d = b - a;
    assert((w - w % d) % d == 0) by (nonlinear_arith)
        requires
            d > 0,
    {
        vstd::arithmetic::div_mod::lemma_fundamental_div_mod(w, d);
        vstd::arithmetic::div_mod::lemma_mod_multiples_basic(w / d, d);
        assert(w - w % d == (w / d) * d);
    }
}

/// Two texts are the same where they are as long and have the same characters.
pub proof fn texts_are_compared_by_their_characters(a: &str, b: &str, r: bool)
    requires
        call_ensures(same_text, (a, b), r),
    ensures
        r <==> a@.len() == b@.len() && forall|i: int|
            0 <= i < a@.len() ==> #[trigger] a@[i] == b@[i],
{
    if a@.len() == b@.len() && forall|i: int| 0 <= i < a@.len() ==> #[trigger] a@[i] == b@[i] {
        assert(a@ =~= b@);
    }
}

/// Whether `rest` is what is left of a text once copies of `suffix` are taken from its end, as many
/// as there are.
pub open spec fn is_trimmed(s: Seq<char>, suffix: Seq<char>, rest: Seq<char>) -> bool {
    &&& rest.len() <= s.len()
    &&& forall|i: int| 0 <= i < rest.len() ==> #[trigger] rest[i] == s[i]
    &&& suffix.len() == 0 ==> rest.len() == s.len()
    &&& suffix.len() > 0 ==> {
        &&& (s.len() - rest.len()) % suffix.len() as int == 0
        &&& forall|i: int|
            rest.len() <= i < s.len() ==> #[trigger] s[i] == suffix[(i - rest.len())
                % suffix.len() as int]
        &&& suffix.len() <= rest.len() ==> exists|i: int|
            0 <= i < suffix.len() && #[trigger] suffix[i] != rest[rest.len() - suffix.len() + i]
    }
}

pub(crate) proof fn trimming_trims(s: Seq<char>, suffix: Seq<char>)
    ensures
        is_trimmed(s, suffix, trimmed_end(s, suffix)),
    decreases s.len(),
{
    let n = suffix.len() as int;
    let rest = trimmed_end(s, suffix);
    if 0 < n <= s.len() && s.skip(s.len() - n) == suffix {
        let t = s.take(s.len() - n);
        trimming_trims(t, suffix);
        let m = t.len() - rest.len();
        assert((m + n) % n == 0) by {
            vstd::arithmetic::div_mod::lemma_mod_add_multiples_vanish(m, n);
        }
        assert forall|i: int| rest.len() <= i < s.len() implies #[trigger] s[i] == suffix[(i
            - rest.len()) % n] by {
            if i < t.len() {
                assert(t[i] == s[i]);
            } else {
                let j = i - t.len();
                assert(s.skip(s.len() - n)[j] == s[i]);
                assert((j + m) % n == j) by {
                    vstd::arithmetic::div_mod::lemma_fundamental_div_mod(m, n);
                    vstd::arithmetic::div_mod::lemma_mod_multiples_vanish(m / n, j, n);
                    vstd::arithmetic::div_mod::lemma_small_mod(j as nat, n as nat);
                    assert(n * (m / n) == m);
                }
            }
        }
    } else if 0 < n {
        vstd::arithmetic::div_mod::lemma_small_mod(0, n as nat);
    }
    if 0 < n <= s.len() && s.skip(s.len() - n) != suffix {
        let end = s.skip(s.len() - n);
        assert(exists|i: int| 0 <= i < n && #[trigger] suffix[i] != s[s.len() - n + i]) by {
            if forall|i: int| 0 <= i < n ==> #[trigger] suffix[i] == s[s.len() - n + i] {
                assert(end =~= suffix);
            }
        }
    }
}

/// Trimming takes every copy of the suffix from the end, and nothing else.
pub proof fn every_copy_at_the_end_is_trimmed(s: &str, suffix: &str, r: String)
    requires
        call_ensures(trim_end_matches, (s, suffix), r),
    ensures
        is_trimmed(s@, suffix@, r@),
{
    trimming_trims(s@, suffix@);
}

/// The codes are the HTTP ones, refusals have their own, and everything else is a failure inside
/// the service. No answer to a failed request tells more than that it failed.
pub proof fn errors_are_told_by_their_status(
    e: &Error,
    status: StatusCode,
    number: u16,
    response: (StatusCode, ErrorBody),
    words: String,
)
    requires
        call_ensures(Error::status_code, (e,), status),
        call_ensures(StatusCode::as_u16, (status,), number),
        call_ensures(Error::error_response, (e,), response),
        call_ensures(Error::text, (e,), words),
    ensures
        status == (if *e is Custom {
            e->Custom_0
        } else {
            StatusCode::InternalServerError
        }),
        response.0 == status && !response.1.status,
        status is Success ==> number == 200,
        status is BadRequest ==> number == 400,
        status is Unauthorized ==> number == 401,
        status is Forbidden ==> number == 403,
        status is NotFound ==> number == 404,
        status is InternalServerError ==> number == 500,
        match *e {
            Error::Flock(cause) => words@ == "flock error: "@ + cause@,
            Error::Sqlx(cause) => words@ == "SQLx error: "@ + cause@,
            Error::Multipart(cause) => words@ == "Multipart error: "@ + cause@,
            Error::Csv(cause) => words@ == "CSV error: "@ + cause@,
            Error::Custom(_, message) => words@ == message@,
            Error::Internal(message) => words@ == message@,
        },
{
}

/// A failure of the database is told in its own words.
pub proof fn database_failures_keep_their_words(f: DbFailure, r: Error)
    requires
        call_ensures(DbFailure::into_error, (f,), r),
    ensures
        r matches Error::Sqlx(text) && text@ == f.text@,
{
}

/// Every answer is a success but for the one that says that the competition is finished.
pub proof fn answers_succeed_unless_they_complain(
    a: &Answer,
    status: StatusCode,
    words: Option<&'static str>,
)
    requires
        call_ensures(Answer::status_code, (a,), status),
        call_ensures(Answer::complaint, (a,), words),
    ensures
        *a is CompetitionIsFinished ==> status == StatusCode::BadRequest && (
        words matches Some(text) && text@ == "competition is finished"@),
        *a !is CompetitionIsFinished ==> status == StatusCode::Success && words is None,
{
}

/// Whether a text is a tenant name: it starts with a small letter, ends with a small letter or a
/// digit, has only these and hyphens, and is 2 to 63 characters long.
pub open spec fn is_good_name(s: Seq<char>) -> bool {
    &&& 2 <= s.len() <= 63
    &&& 'a' <= s[0] <= 'z'
    &&& s[s.len() - 1] != '-'
    &&& forall|i: int|
        0 <= i < s.len() ==> 'a' <= #[trigger] s[i] <= 'z' || '0' <= s[i] <= '9' || s[i] == '-'
}

pub(crate) proof fn tenant_names_are_good(s: Seq<char>)
    ensures
        is_tenant_name(s) == is_good_name(s),
{
    if is_tenant_name(s) {
        assert forall|i: int| 0 <= i < s.len() implies 'a' <= #[trigger] s[i] <= 'z' || '0' <= s[i]
            <= '9' || s[i] == '-' by {
            if i == s.len() - 1 {
                assert(s.last() == s[i]);
            }
        }
    }
    if is_good_name(s) {
        assert(s.last() == s[s.len() - 1]);
    }
}

/// A name is accepted where it is a tenant name, and refused as a bad request else.
pub proof fn good_names_are_accepted(name: &str, r: Result<(), Error>)
    requires
        call_ensures(validate_tenant_name, (name,), r),
    ensures
        r is Ok <==> is_good_name(name@),
        r matches Err(e) ==> (e matches Error::Custom(code, words) && code
            == StatusCode::BadRequest && words@ == "invalid tenant name: "@ + name@),
{
    tenant_names_are_good(name@);
}

/// A setting is what the environment says, or its default.
pub proof fn settings_come_from_the_environment(
    value: Option<String>,
    default: &str,
    r: String,
    base: Option<String>,
    admin: Option<String>,
    key: Option<String>,
    config: Config,
)
    requires
        call_ensures(get_env, (value, default), r),
        call_ensures(Config::new, (base, admin, key), config),
    ensures
        value matches Some(set) ==> r@ == set@,
        value is None ==> r@ == default@,
        base matches Some(set) ==> config.base_host@ == set@,
        base is None ==> config.base_host@ == ".t.isucon.local"@,
        admin matches Some(set) ==> config.admin_host@ == set@,
        admin is None ==> config.admin_host@ == "admin.t.isucon.local"@,
        key matches Some(set) ==> config.key_file@ == set@,
        key is None ==> config.key_file@ == "../public.pem"@,
{
}

/// Whether a path leads to a file named by a number and an ending, in a directory.
pub open spec fn is_path(path: Seq<char>, dir: Seq<char>, id: i64, ending: Seq<char>) -> bool {
    exists|number: Seq<char>|
        is_decimal(number, id as int) && (path == #[trigger] (dir + number + ending) && (dir.len()
            == 0 || dir[dir.len() - 1] == '/') || path == dir + "/"@ + number + ending
            && dir.len() > 0 && dir[dir.len() - 1] != '/')
}

pub(crate) proof fn database_paths_are_paths(dir: Seq<char>, id: i64)
    ensures
        is_path(path_in(dir, db_file_name(id)), dir, id, ".db"@),
        is_path(path_in(dir, lock_file_name(id)), dir, id, ".lock"@),
{
    let number = signed_decimal(id as int);
    signed_decimals_are_decimal(id as int);
    assert(dir + number + ".db"@ =~= dir + (number + ".db"@));
    assert(dir + "/"@ + number + ".db"@ =~= dir + "/"@ + (number + ".db"@));
    assert(dir + number + ".lock"@ =~= dir + (number + ".lock"@));
    assert(dir + "/"@ + number + ".lock"@ =~= dir + "/"@ + (number + ".lock"@));
}

/// A tenant's files are named by its id and stand in the directory of the tenants' databases.
pub proof fn files_are_named_by_the_tenant(dir: &str, id: i64, db: String, lock: String)
    requires
        call_ensures(tenant_db_path, (dir, id), db),
        call_ensures(lock_file_path, (dir, id), lock),
    ensures
        is_path(db@, dir@, id, ".db"@),
        is_path(lock@, dir@, id, ".lock"@),
{
    database_paths_are_paths(dir@, id);
}

/// A database is created by feeding the schema to SQLite, and it has been where the command ended
/// well.
pub proof fn databases_are_created_from_the_schema(
    path: &str,
    command: String,
    outcome: CommandOutcome,
    r: Result<(), Error>,
)
    requires
        call_ensures(create_tenant_db_command, (path,), command),
        call_ensures(create_tenant_db, (path, outcome), r),
    ensures
        command@ == "sqlite3 "@ + path@ + " < "@ + "../sql/tenant/10_schema.sql"@,
        r is Ok <==> outcome is Ended && outcome->success,
        r matches Err(e) ==> e is Internal,
        outcome matches CommandOutcome::NotStarted(cause) ==> (r matches Err(Error::Internal(text))
            && text@ == "failed to exec sqlite3 "@ + path@ + " < "@
            + "../sql/tenant/10_schema.sql"@ + (": "@ + cause@)),
        outcome matches CommandOutcome::Ended { success, stdout, stderr } ==> !success ==> (
        r matches Err(Error::Internal(text)) && text@ == "failed to exec sqlite "@ + path@ + " < "@
            + "../sql/tenant/10_schema.sql"@ + (", "@ + ("out="@ + lossy_text_of(stdout@)
            + ", err="@ + lossy_text_of(stderr@)))),
{
}

/// An index that is there already is as good as created, and only an index that is there is
/// dropped.
pub proof fn indexes_are_created_and_dropped_once(
    outcome: Result<(), DbFailure>,
    r: Result<(), DbFailure>,
    table: &str,
    index: &str,
    count: i64,
    sql: Option<String>,
)
    requires
        call_ensures(create_index_if_not_exists, (outcome,), r),
        call_ensures(drop_unique_index_if_exists, (table, index, count), sql),
    ensures
        outcome is Ok ==> r is Ok,
        outcome matches Err(f) ==> (r is Ok <==> f.number == Some(1060u16) || f.number == Some(
            1061u16,
        )),
        r is Err ==> r == outcome,
        count > 0 ==> (sql matches Some(text) && text@ == "ALTER TABLE "@ + table@
            + " DROP INDEX "@ + (index@ + ";"@)),
        count <= 0 ==> sql is None,
{
}

/// The three roles have the names that tokens call them by, and no other name stands for one.
pub proof fn roles_go_by_their_names(role: Role, name: &'static str, text: &str, r: Option<Role>)
    requires
        call_ensures(Role::name, (role,), name),
        call_ensures(Role::named, (text,), r),
    ensures
        role is Admin ==> name@ == "admin"@,
        role is Organizer ==> name@ == "organizer"@,
        role is Player ==> name@ == "player"@,
        r == Some(Role::Admin) <==> text@ == "admin"@,
        r == Some(Role::Organizer) <==> text@ == "organizer"@,
        r == Some(Role::Player) <==> text@ == "player"@,
{
    role_names_differ();
}

pub(crate) proof fn role_names_differ()
    ensures
        "admin"@ != "organizer"@,
        "admin"@ != "player"@,
        "organizer"@ != "player"@,
        "admin"@ != "none"@,
{
    reveal_strlit("admin");
    reveal_strlit("organizer");
    reveal_strlit("player");
    reveal_strlit("none");
    assert("admin"@[0] == 'a');
    assert("organizer"@[0] == 'o');
    assert("player"@[0] == 'p');
    assert("none"@[0] == 'n');
}

/// Texts are put one after another, and errors hold the words that they are made of.
pub proof fn texts_are_put_together(
    a: &str,
    b: &str,
    c: &str,
    two: String,
    three: String,
    status: StatusCode,
    refused: Error,
    failed: Error,
)
    requires
        call_ensures(joined, (a, b), two),
        call_ensures(joined3, (a, b, c), three),
        call_ensures(refusal, (status, a), refused),
        call_ensures(internal, (a,), failed),
    ensures
        two@ == a@ + b@,
        three@ == a@ + b@ + c@,
        refused matches Error::Custom(code, words) && code == status && words@ == a@,
        failed matches Error::Internal(words) && words@ == a@,
{
}

/// The output of a command is told in full, first what it printed and then its errors.
pub proof fn output_is_told_in_full(
    out: &str,
    err: &str,
    texts: String,
    stdout: &Vec<u8>,
    stderr: &Vec<u8>,
    output: String,
)
    requires
        call_ensures(show_texts, (out, err), texts),
        call_ensures(show_output, (stdout, stderr), output),
    ensures
        texts@ == "out="@ + out@ + ", err="@ + err@,
        output@ == "out="@ + lossy_text_of(stdout@) + ", err="@ + lossy_text_of(stderr@),
{
}

} // verus!
