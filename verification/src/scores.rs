//! Uploaded scores: the CSV data, the numbers in it, and the rows that are kept of it.
use crate::error::{joined, joined3, refusal, Error, Failure, StatusCode};
use crate::model::PlayerScoreRow;
use crate::text::{decimal, decimal_is_digits, digit, is_digit, same_text, signed_decimal};
use vstd::hash_set::StringHashSet;
use vstd::prelude::*;

verus! {

/// The characters of a list of texts.
pub open spec fn texts(list: Seq<String>) -> Seq<Seq<char>> {
    list.map_values(|s: String| s@)
}

/// A CSV record in characters: its fields, or in words why it could not be read.
pub open spec fn record_texts(record: Result<Vec<String>, String>) -> Result<
    Seq<Seq<char>>,
    Seq<char>,
> {
    match record {
        Ok(fields) => Ok(texts(fields@)),
        Err(cause) => Err(cause@),
    }
}

/// The records of a table in characters.
pub open spec fn table_texts(records: Seq<Result<Vec<String>, String>>) -> Seq<
    Result<Seq<Seq<char>>, Seq<char>>,
> {
    records.map_values(|record: Result<Vec<String>, String>| record_texts(record))
}

/// The header record that `csv::Reader::headers` gives for some CSV data.
pub uninterp spec fn csv_headers_of(data: Seq<u8>) -> Result<Seq<Seq<char>>, Seq<char>>;

/// The records that `csv::Reader::into_records` gives for some CSV data once its header has been
/// read.
pub uninterp spec fn csv_records_of(data: Seq<u8>) -> Seq<Result<Seq<Seq<char>>, Seq<char>>>;

/// How `csv::StringRecord` is shown for debugging.
pub uninterp spec fn csv_record_debug_of(fields: Seq<Seq<char>>) -> Seq<char>;

/// The words in which `str::parse::<i64>` says why it did not accept a text.
pub uninterp spec fn i64_parse_failure_of(s: Seq<char>) -> Seq<char>;

/// The header of CSV data (`csv::Reader::headers`), or the reader's words where it cannot be read.
/// It depends on the data alone.
#[verifier::external_body]
fn csv_headers(data: &[u8]) -> (r: Result<Vec<String>, String>)
    ensures
        record_texts(r) == csv_headers_of(data@),
{
    match csv::Reader::from_reader(data).headers() {
        Ok(record) => Ok(record.iter().map(str::to_owned).collect()),
        Err(e) => Err(e.to_string()),
    }
}

/// The records of CSV data (`csv::Reader::into_records`, on a reader that has read the header with
/// `csv::Reader::headers` and counts positions from there), each with the reader's words where it
/// cannot be read. They depend on the data alone.
#[verifier::external_body]
fn csv_records(data: &[u8]) -> (r: Vec<Result<Vec<String>, String>>)
    ensures
        table_texts(r@) == csv_records_of(data@),
{
    let mut reader = csv::Reader::from_reader(data);
    let _ = reader.headers();
    reader.into_records().map(|record| match record {
        Ok(fields) => Ok(fields.iter().map(str::to_owned).collect()),
        Err(e) => Err(e.to_string()),
    }).collect()
}

/// How a CSV record is shown for debugging (`csv::StringRecord`, formatted with `{:?}`). It depends
/// on the fields alone.
#[verifier::external_body]
fn csv_record_debug(fields: &Vec<String>) -> (r: String)
    ensures
        r@ == csv_record_debug_of(texts(fields@)),
{
    format!("{:?}", csv::StringRecord::from(fields.as_slice()))
}

/// Whether a text is one or more decimal digits.
pub open spec fn all_digits(s: Seq<char>) -> bool {
    s.len() > 0 && forall|i: int| 0 <= i < s.len() ==> is_digit(#[trigger] s[i])
}

/// The number that a row of decimal digits stands for.
pub open spec fn digits_value(s: Seq<char>) -> int
    decreases s.len(),
{
    if s.len() == 0 {
        0
    } else {
        digits_value(s.drop_last()) * 10 + (s.last() as int - '0' as int)
    }
}

/// The integer that a text stands for: decimal digits, with or without one sign in front.
pub open spec fn integer_value(s: Seq<char>) -> Option<int> {
    if all_digits(s) {
        Some(digits_value(s))
    } else if s.len() > 0 && s[0] == '+' && all_digits(s.drop_first()) {
        Some(digits_value(s.drop_first()))
    } else if s.len() > 0 && s[0] == '-' && all_digits(s.drop_first()) {
        Some(-digits_value(s.drop_first()))
    } else {
        None
    }
}

/// The 64-bit integer that a text stands for.
pub open spec fn i64_value(s: Seq<char>) -> Option<i64> {
    match integer_value(s) {
        Some(i) => if i64::MIN <= i <= i64::MAX {
            Some(i as i64)
        } else {
            None
        },
        None => None,
    }
}

/// Reads an integer (`str::parse::<i64>`): an optional sign and decimal digits, within 64 bits. A
/// text that is not one is refused with words that depend on the text alone.
#[verifier::external_body]
fn parse_i64(s: &str) -> (r: Result<i64, String>)
    ensures
        match r {
            Ok(i) => i64_value(s@) == Some(i),
            Err(cause) => i64_value(s@) is None && cause@ == i64_parse_failure_of(s@),
        },
{
    match s.parse::<i64>() {
        Ok(i) => Ok(i),
        Err(e) => Err(e.to_string()),
    }
}

/// Whether a header names the two columns of a score table.
pub open spec fn is_score_header(fields: Seq<Seq<char>>) -> bool {
    fields == seq!["player_id"@, "score"@]
}

/// Why a header is refused: it could not be read, or it does not name the two columns of a score
/// table.
pub open spec fn header_flaw(header: Result<Seq<Seq<char>>, Seq<char>>) -> Option<Failure> {
    match header {
        Err(cause) => Some(Failure::Csv(cause)),
        Ok(fields) => if is_score_header(fields) {
            None
        } else {
            Some(Failure::Custom(StatusCode::BadRequest, "invalid CSV headers"@))
        },
    }
}

/// Accepts the header of a score table, and refuses any other.
pub fn check_header(header: Result<Vec<String>, String>) -> (r: Result<(), Error>)
    ensures
        match header_flaw(record_texts(header)) {
            Some(f) => r matches Err(e) && e@ == f,
            None => r is Ok,
        },
{
    match header {
        Err(cause) => Err(Error::Csv(cause)),
        Ok(fields) => {
            if fields.len() == 2 && same_text(fields[0].as_str(), "player_id") && same_text(
                fields[1].as_str(),
                "score",
            ) {
                assert(texts(fields@) =~= seq!["player_id"@, "score"@]);
                Ok(())
            } else {
                assert(!is_score_header(texts(fields@))) by {
                    if is_score_header(texts(fields@)) {
                        assert(texts(fields@)[0] == "player_id"@);
                        assert(texts(fields@)[1] == "score"@);
                        assert(texts(fields@).len() == 2);
                    }
                }
                Err(refusal(StatusCode::BadRequest, "invalid CSV headers"))
            }
        },
    }
}

/// The records of an uploaded score table, or why it is refused.
pub fn read_score_table(data: &[u8]) -> (r: Result<Vec<Result<Vec<String>, String>>, Error>)
    ensures
        match header_flaw(csv_headers_of(data@)) {
            Some(f) => r matches Err(e) && e@ == f,
            None => r matches Ok(records) && table_texts(records@) == csv_records_of(data@),
        },
{
    match check_header(csv_headers(data)) {
        Ok(()) => Ok(csv_records(data)),
        Err(e) => Err(e),
    }
}

/// What a record of a score table names: a player and the text of a score.
#[derive(Debug)]
pub struct ScoreLine {
    pub player_id: String,
    pub score: String,
}

/// Why a record is refused: it could not be read, or it does not have two fields.
pub open spec fn line_flaw(record: Result<Seq<Seq<char>>, Seq<char>>) -> Option<Failure> {
    match record {
        Err(cause) => Some(Failure::Csv(cause)),
        Ok(fields) => if fields.len() == 2 {
            None
        } else {
            Some(
                Failure::Internal("row must have tow columns: "@ + csv_record_debug_of(fields)),
            )
        },
    }
}

/// The error for a record that does not have two fields and is shown like this.
pub fn wrong_columns(shown: &str) -> (r: Error)
    ensures
        r@ == Failure::Internal("row must have tow columns: "@ + shown@),
{
    Error::Internal(joined("row must have tow columns: ", shown))
}

/// The player and the score text that a record of a score table names.
pub fn score_line(record: &Result<Vec<String>, String>) -> (r: Result<ScoreLine, Error>)
    ensures
        match line_flaw(record_texts(*record)) {
            Some(f) => r matches Err(e) && e@ == f,
            None => r matches Ok(line) && record_texts(*record) == Ok::<
                Seq<Seq<char>>,
                Seq<char>,
            >(seq![line.player_id@, line.score@]),
        },
{
    match record {
        Err(cause) => Err(Error::Csv(cause.clone())),
        Ok(fields) => {
            if fields.len() != 2 {
                let shown = csv_record_debug(fields);
                Err(wrong_columns(shown.as_str()))
            } else {
                assert(texts(fields@) =~= seq![fields@[0]@, fields@[1]@]);
                Ok(ScoreLine { player_id: fields[0].clone(), score: fields[1].clone() })
            }
        },
    }
}

/// Why the text of a score is refused: it does not stand for a 64-bit integer.
pub open spec fn score_flaw(text: Seq<char>) -> Option<Failure> {
    match i64_value(text) {
        Some(_) => None,
        None => Some(
            Failure::Custom(
                StatusCode::BadRequest,
                "error parse: score_str="@ + text + ", "@ + i64_parse_failure_of(text),
            ),
        ),
    }
}

/// The error for the text of a score that stands for no number, for this reason.
pub fn wrong_score(text: &str, cause: &str) -> (r: Error)
    ensures
        r@ == Failure::Custom(
            StatusCode::BadRequest,
            "error parse: score_str="@ + text@ + ", "@ + cause@,
        ),
{
    let message = joined3("error parse: score_str=", text, ", ");
    Error::Custom(StatusCode::BadRequest, joined(message.as_str(), cause))
}

/// The score that a text stands for.
pub fn parse_score(text: &str) -> (r: Result<i64, Error>)
    ensures
        match score_flaw(text@) {
            Some(f) => r matches Err(e) && e@ == f,
            None => r == Ok::<i64, Error>(i64_value(text@)->0),
        },
{
    match parse_i64(text) {
        Ok(score) => Ok(score),
        Err(cause) => Err(wrong_score(text, cause.as_str())),
    }
}

/// Whether some row has this player.
pub open spec fn has_player(rows: Seq<PlayerScoreRow>, player_id: Seq<char>) -> bool {
    exists|i: int| 0 <= i < rows.len() && (#[trigger] rows[i]).player_id@ == player_id
}

/// The rows that no later row of the same player replaces.
pub open spec fn last_rows(rows: Seq<PlayerScoreRow>) -> Seq<PlayerScoreRow>
    decreases rows.len(),
{
    if rows.len() == 0 {
        rows
    } else if has_player(rows.drop_first(), rows[0].player_id@) {
        last_rows(rows.drop_first())
    } else {
        seq![rows[0]] + last_rows(rows.drop_first())
    }
}

/// Keeps the last row of each player.
pub fn keep_last_rows(rows: Vec<PlayerScoreRow>) -> (r: Vec<PlayerScoreRow>)
    ensures
        r@ == last_rows(rows@),
{
    let ghost all = rows@;
    let mut rest = rows;
    let mut seen = StringHashSet::new();
    let mut kept: Vec<PlayerScoreRow> = Vec::new();
    assert(all.skip(all.len() as int) =~= Seq::empty());
    assert(kept@.reverse() =~= Seq::empty());
    loop
        invariant
            rest.len() <= all.len(),
            rest@ == all.take(rest@.len() as int),
            kept@.reverse() == last_rows(all.skip(rest@.len() as int)),
            forall|id: Seq<char>|
                seen@.contains(id) == #[trigger] has_player(all.skip(rest@.len() as int), id),
        ensures
            kept@.reverse() == last_rows(all),
        decreases rest.len(),
    {
        let ghost n = rest@.len() as int;
        match rest.pop() {
            None => {
                assert(all.skip(0) =~= all);
                break;
            },
            Some(row) => {
                let ghost shorter = all.skip(n);
                let ghost longer = all.skip(n - 1);
                let ghost before = kept@;
                assert(row == longer[0]);
                assert(longer.drop_first() =~= shorter);
                let fresh: bool = seen.insert(row.player_id.clone());
                assert(has_player(shorter, row.player_id@) == !fresh);
                if fresh {
                    kept.push(row);
                    assert(kept@.reverse() =~= seq![row] + before.reverse());
                }
                proof {
                    assert forall|id: Seq<char>|
                        seen@.contains(id) == #[trigger] has_player(longer, id) by {
                        if has_player(shorter, id) {
                            let i = choose|i: int|
                                0 <= i < shorter.len() && (#[trigger] shorter[i]).player_id@ == id;
                            assert(longer[i + 1].player_id@ == id);
                        }
                        if has_player(longer, id) {
                            let i = choose|i: int|
                                0 <= i < longer.len() && (#[trigger] longer[i]).player_id@ == id;
                            if i > 0 {
                                assert(shorter[i - 1].player_id@ == id);
                            }
                        }
                        if id == row.player_id@ {
                            assert(longer[0].player_id@ == id);
                        }
                    }
                }
            },
        }
    }
    let ghost wanted = kept@.reverse();
    let mut r: Vec<PlayerScoreRow> = Vec::new();
    loop
        invariant
            r@ + kept@.reverse() == wanted,
        ensures
            r@ == wanted,
        decreases kept.len(),
    {
        let ghost before = kept@;
        let ghost done = r@;
        match kept.pop() {
            None => {
                assert(r@ + kept@.reverse() =~= r@);
                break;
            },
            Some(row) => {
                r.push(row);
                assert(r@ + kept@.reverse() =~= done + before.reverse());
            },
        }
    }
    r
}

/// No two of the rows that are kept belong to the same player.
pub proof fn kept_rows_have_distinct_players(rows: Seq<PlayerScoreRow>)
    ensures
        forall|i: int, j: int|
            0 <= i < j < last_rows(rows).len() ==> (#[trigger] last_rows(rows)[i]).player_id@ != (
            #[trigger] last_rows(rows)[j]).player_id@,
    decreases rows.len(),
{
    if rows.len() > 0 {
        let tail = rows.drop_first();
        let kept = last_rows(rows);
        kept_rows_have_distinct_players(tail);
        if !has_player(tail, rows[0].player_id@) {
            every_player_keeps_a_row(tail, rows[0].player_id@);
            assert forall|i: int, j: int| 0 <= i < j < kept.len() implies (
            #[trigger] kept[i]).player_id@ != (#[trigger] kept[j]).player_id@ by {
                assert(kept[j] == last_rows(tail)[j - 1]);
                if i > 0 {
                    assert(kept[i] == last_rows(tail)[i - 1]);
                }
            }
        }
    }
}

/// Each row that is kept is the last one of its player.
pub proof fn kept_rows_are_the_last(rows: Seq<PlayerScoreRow>)
    ensures
        forall|i: int|
            0 <= i < last_rows(rows).len() ==> exists|k: int|
                0 <= k < rows.len() && rows[k] == #[trigger] last_rows(rows)[i] && !has_player(
                    #[trigger] rows.skip(k + 1),
                    rows[k].player_id@,
                ),
    decreases rows.len(),
{
    if rows.len() > 0 {
        let tail = rows.drop_first();
        let kept = last_rows(rows);
        kept_rows_are_the_last(tail);
        assert forall|i: int| 0 <= i < kept.len() implies exists|k: int|
            0 <= k < rows.len() && rows[k] == #[trigger] kept[i] && !has_player(
                #[trigger] rows.skip(k + 1),
                rows[k].player_id@,
            ) by {
            let at = if has_player(tail, rows[0].player_id@) {
                i
            } else {
                i - 1
            };
            if at < 0 {
                assert(rows.skip(0int + 1) =~= tail);
            } else {
                assert(last_rows(tail)[at] == kept[i]);
                let k = choose|k: int|
                    0 <= k < tail.len() && tail[k] == last_rows(tail)[at] && !has_player(
                        #[trigger] tail.skip(k + 1),
                        tail[k].player_id@,
                    );
                assert(rows.skip(k + 1 + 1) =~= tail.skip(k + 1));
                assert(rows[k + 1] == tail[k]);
            }
        }
    }
}

/// Every player with a row keeps one.
pub proof fn every_player_keeps_a_row(rows: Seq<PlayerScoreRow>, player_id: Seq<char>)
    ensures
        has_player(rows, player_id) == has_player(last_rows(rows), player_id),
    decreases rows.len(),
{
    if rows.len() > 0 {
        let tail = rows.drop_first();
        let kept = last_rows(rows);
        every_player_keeps_a_row(tail, player_id);
        if has_player(rows, player_id) {
            let k = choose|k: int|
                0 <= k < rows.len() && (#[trigger] rows[k]).player_id@ == player_id;
            if k > 0 {
                assert(tail[k - 1].player_id@ == player_id);
            }
            if has_player(last_rows(tail), player_id) {
                let i = choose|i: int|
                    0 <= i < last_rows(tail).len() && (#[trigger] last_rows(tail)[i]).player_id@
                        == player_id;
                if has_player(tail, rows[0].player_id@) {
                    assert(kept[i].player_id@ == player_id);
                } else {
                    assert(kept[i + 1].player_id@ == player_id);
                }
            } else {
                assert(kept[0].player_id@ == player_id);
            }
        }
        if has_player(kept, player_id) {
            let i = choose|i: int|
                0 <= i < kept.len() && (#[trigger] kept[i]).player_id@ == player_id;
            if has_player(tail, rows[0].player_id@) {
                assert(last_rows(tail)[i].player_id@ == player_id);
                assert(has_player(tail, player_id));
            } else if i > 0 {
                assert(last_rows(tail)[i - 1].player_id@ == player_id);
                assert(has_player(tail, player_id));
            } else {
                assert(rows[0].player_id@ == player_id);
            }
            if has_player(tail, player_id) {
                let k = choose|k: int|
                    0 <= k < tail.len() && (#[trigger] tail[k]).player_id@ == player_id;
                assert(rows[k + 1].player_id@ == player_id);
            }
        }
    }
}

/// The decimal text of a score is read back as that score.
pub proof fn decimal_score_is_read_back(i: i64)
    ensures
        i64_value(signed_decimal(i as int)) == Some(i),
{
    let s = signed_decimal(i as int);
    if i < 0 {
        decimal_is_digits((-i) as nat);
        decimal_value((-i) as nat);
        assert(s[0] == '-');
        assert(s.drop_first() =~= decimal((-i) as nat));
        assert(!is_digit(s[0]));
    } else {
        decimal_is_digits(i as nat);
        decimal_value(i as nat);
    }
}

proof fn decimal_value(n: nat)
    ensures
        digits_value(decimal(n)) == n,
    decreases n,
{
    let s = decimal(n);
    if n < 10 {
        assert(s.drop_last() =~= Seq::empty());
        assert(digits_value(s.drop_last()) == 0);
        assert(s.last() == digit(n));
    } else {
        decimal_value(n / 10);
        assert(s.drop_last() =~= decimal(n / 10));
        assert(s.last() == digit(n % 10));
    }
}

} // verus!
