//! Scores that an organizer uploads for a competition.
use crate::cache::{looked_up, Remembered};
use crate::error::{internal, joined, refusal, DbFailure, Error, Failure, StatusCode};
use crate::model::{CompetitionRow, PlayerScoreRow};
use crate::question::{
    answer_complaint, fails, Answer, ClockNext, Field, FindPlayer, Moment, NextField, PlayerNext,
    ReadClock, ReadField, ReplaceScores, Service, Step, Upload,
};
use crate::scores::{
    csv_headers_of, csv_records_of, every_player_keeps_a_row, has_player, header_flaw, i64_value,
    keep_last_rows, kept_rows_are_the_last, kept_rows_have_distinct_players, last_rows, line_flaw,
    parse_score, read_score_table, record_texts, score_flaw, score_line, table_texts,
};
use crate::text::same_text;
use vstd::prelude::*;

verus! {

/// What an upload for a competition starts with: the competition has to be there, and not finished.
pub open spec fn upload_open(
    tenant_id: i64,
    competition_id: String,
    comp: Option<CompetitionRow>,
    r: Step,
) -> bool {
    match comp {
        None => fails(r, Failure::Custom(StatusCode::NotFound, "competition not found"@)),
        Some(c) => if c.finished_at is Some {
            r == Step::Finish(Ok(Answer::CompetitionIsFinished))
        } else {
            r == Step::NextField(NextField { tenant_id, competition_id })
        },
    }
}

/// Starts an upload for a competition that was looked up.
pub fn open_upload(tenant_id: i64, competition_id: String, comp: Option<CompetitionRow>) -> (r:
    Step)
    ensures
        upload_open(tenant_id, competition_id, comp, r),
{
    match comp {
        None => Step::Finish(Err(refusal(StatusCode::NotFound, "competition not found"))),
        Some(c) => {
            if c.finished_at.is_some() {
                Step::Finish(Ok(Answer::CompetitionIsFinished))
            } else {
                Step::NextField(NextField { tenant_id, competition_id })
            }
        },
    }
}

impl NextField {
    /// Takes the next field of the body. Only the first field named `scores` is read.
    pub fn resume(self, field: Field) -> (r: Step)
        ensures
            match field {
                Field::End => fails(r, Failure::Internal("scores field does not exist"@)),
                Field::Failed(cause) => fails(r, Failure::Multipart(cause@)),
                Field::Named(name) => if name@ == "scores"@ {
                    r == Step::ReadField(
                        ReadField {
                            tenant_id: self.tenant_id,
                            competition_id: self.competition_id,
                        },
                    )
                } else {
                    r == Step::NextField(self)
                },
            },
    {
        match field {
            Field::End => Step::Finish(Err(internal("scores field does not exist"))),
            Field::Failed(cause) => Step::Finish(Err(Error::Multipart(cause))),
            Field::Named(name) => {
                if same_text(name.as_str(), "scores") {
                    Step::ReadField(
                        ReadField {
                            tenant_id: self.tenant_id,
                            competition_id: self.competition_id,
                        },
                    )
                } else {
                    Step::NextField(self)
                }
            },
        }
    }
}

/// What becomes of the score that a record gives an existing player.
pub open spec fn score_taken(u: Upload, player_id: Seq<char>, score: Seq<char>, r: Step) -> bool {
    match score_flaw(score) {
        Some(f) => fails(r, f),
        None => r matches Step::ReadClock(q) && (q.next matches ClockNext::Upload {
            upload,
            player_id: id,
            score: number,
        } && upload == u && id@ == player_id && Some(number) == i64_value(score)),
    }
}

/// What becomes of the next record of an upload. It has to name an existing player and a score;
/// once there is a row for each record, the last row of each player replaces the scores of the
/// competition.
pub open spec fn record_taken(m: Remembered, u: Upload, r: Step) -> bool {
    let n = u.rows@.len() as int;
    if n < u.records@.len() {
        match line_flaw(record_texts(u.records@[n])) {
            Some(f) => fails(r, f),
            None => {
                let fields = record_texts(u.records@[n])->Ok_0;
                match looked_up(m.players, fields[0]) {
                    Some(_) => score_taken(u, fields[0], fields[1], r),
                    None => r matches Step::FindPlayer(q) && q.id@ == fields[0] && (
                    q.next matches PlayerNext::Upload { upload, score } && upload == u && score@
                        == fields[1]),
                }
            },
        }
    } else {
        r matches Step::ReplaceScores(q) && q.tenant_id == u.tenant_id && q.competition_id
            == u.competition_id && q.rows@ == last_rows(u.rows@) && q.count == n as i64
    }
}

fn take_score(u: Upload, player_id: String, score: &str) -> (r: Step)
    ensures
        score_taken(u, player_id@, score@, r),
{
    match parse_score(score) {
        Err(e) => Step::Finish(Err(e)),
        Ok(number) => Step::ReadClock(
            ReadClock { next: ClockNext::Upload { upload: u, player_id, score: number } },
        ),
    }
}

/// Takes the next record of an upload.
pub fn take_record(svc: &Service, u: Upload) -> (r: Step)
    ensures
        record_taken(svc.caches@, u, r),
{
    let n: usize = u.rows.len();
    if n < u.records.len() {
        match score_line(&u.records[n]) {
            Err(e) => Step::Finish(Err(e)),
            Ok(line) => match svc.caches.player(line.player_id.as_str()) {
                Some(_) => take_score(u, line.player_id, line.score.as_str()),
                None => Step::FindPlayer(
                    FindPlayer {
                        id: line.player_id,
                        next: PlayerNext::Upload { upload: u, score: line.score },
                    },
                ),
            },
        }
    } else {
        let count: i64 = n as i64;
        Step::ReplaceScores(
            ReplaceScores {
                tenant_id: u.tenant_id,
                competition_id: u.competition_id,
                rows: keep_last_rows(u.rows),
                count,
            },
        )
    }
}

/// Whether this is an upload of these records of which none has been taken yet.
pub open spec fn is_fresh(
    u: Upload,
    tenant_id: i64,
    competition_id: String,
    records: Seq<Result<Seq<Seq<char>>, Seq<char>>>,
) -> bool {
    &&& u.tenant_id == tenant_id
    &&& u.competition_id == competition_id
    &&& u.records@.len() == records.len()
    &&& forall|i: int|
        0 <= i < records.len() ==> record_texts(#[trigger] u.records@[i]) == records[i]
    &&& u.rows@.len() == 0
}

/// Takes the records of a score table, or the error with which it is refused.
pub fn take_table(
    svc: &Service,
    tenant_id: i64,
    competition_id: String,
    table: Result<Vec<Result<Vec<String>, String>>, Error>,
) -> (r: Step)
    ensures
        match table {
            Err(e) => r == Step::Finish(Err(e)),
            Ok(records) => exists|u: Upload|
                is_fresh(u, tenant_id, competition_id, table_texts(records@))
                    && #[trigger] record_taken(svc.caches@, u, r),
        },
{
    match table {
        Err(e) => Step::Finish(Err(e)),
        Ok(records) => {
            let u = Upload { tenant_id, competition_id, records, rows: Vec::new() };
            let ghost fresh = u;
            let r = take_record(svc, u);
            assert(is_fresh(fresh, tenant_id, competition_id, table_texts(records@)));
            assert(record_taken(svc.caches@, fresh, r));
            r
        },
    }
}

impl ReadField {
    /// Takes the contents of the field, which are a score table, or why they could not be read.
    pub fn resume(self, svc: &Service, reply: Result<Vec<u8>, String>) -> (r: Step)
        ensures
            match reply {
                Err(cause) => fails(r, Failure::Multipart(cause@)),
                Ok(data) => match header_flaw(csv_headers_of(data@)) {
                    Some(f) => fails(r, f),
                    None => exists|u: Upload|
                        is_fresh(u, self.tenant_id, self.competition_id, csv_records_of(data@))
                            && #[trigger] record_taken(svc.caches@, u, r),
                },
            },
    {
        match reply {
            Err(cause) => Step::Finish(Err(Error::Multipart(cause))),
            Ok(data) => {
                let table = read_score_table(data.as_slice());
                take_table(svc, self.tenant_id, self.competition_id, table)
            },
        }
    }
}

/// What becomes of an upload once the player of its next record has been looked up.
pub open spec fn uploaded_player_found(
    u: Upload,
    player_id: Seq<char>,
    found: bool,
    score: Seq<char>,
    r: Step,
) -> bool {
    if found {
        score_taken(u, player_id, score, r)
    } else {
        fails(r, Failure::Custom(StatusCode::BadRequest, "player not found: "@ + player_id))
    }
}

/// Goes on with an upload once the player of its next record has been looked up.
pub fn take_uploaded_player(u: Upload, player_id: String, found: bool, score: String) -> (r: Step)
    ensures
        uploaded_player_found(u, player_id@, found, score@, r),
{
    if found {
        take_score(u, player_id, score.as_str())
    } else {
        let message = joined("player not found: ", player_id.as_str());
        Step::Finish(Err(Error::Custom(StatusCode::BadRequest, message)))
    }
}

/// Whether `after` is the upload `before` with one more row, made at `at` under `id`. Rows are
/// numbered in the order of the records.
pub open spec fn row_added(
    before: Upload,
    player_id: String,
    score: i64,
    at: Moment,
    id: Seq<char>,
    after: Upload,
) -> bool {
    let row = after.rows@.last();
    &&& after.tenant_id == before.tenant_id
    &&& after.competition_id == before.competition_id
    &&& after.records == before.records
    &&& after.rows@ == before.rows@.push(row)
    &&& row.tenant_id == before.tenant_id
    &&& row.id@ == id
    &&& row.player_id == player_id
    &&& row.competition_id == before.competition_id
    &&& row.score == score
    &&& row.row_num == before.rows@.len() as i64
    &&& row.created_at == at.now
    &&& row.updated_at == at.now
}

/// Adds a row to an upload.
pub fn add_row(u: Upload, player_id: String, score: i64, at: Moment, id: String) -> (r: Upload)
    ensures
        row_added(u, player_id, score, at, id@, r),
{
    let mut u = u;
    let row_num: i64 = u.rows.len() as i64;
    let competition_id = u.competition_id.clone();
    u.rows.push(
        PlayerScoreRow {
            tenant_id: u.tenant_id,
            id,
            player_id,
            competition_id,
            score,
            row_num,
            created_at: at.now,
            updated_at: at.now,
        },
    );
    u
}

impl ReplaceScores {
    /// Takes whether the scores were replaced.
    pub fn resume(self, reply: Result<(), DbFailure>) -> (r: Step)
        ensures
            match reply {
                Err(f) => fails(r, Failure::Sqlx(f.text@)),
                Ok(()) => r == Step::Finish(Ok(Answer::Score { rows: self.count })),
            },
    {
        match reply {
            Err(f) => Step::Finish(Err(f.into_error())),
            Ok(()) => Step::Finish(Ok(Answer::Score { rows: self.count })),
        }
    }
}

/// A finished competition takes no scores: the answer says so, and nothing is read or written.
pub proof fn finished_competitions_take_no_scores(
    tenant_id: i64,
    competition_id: String,
    comp: CompetitionRow,
    r: Step,
)
    requires
        comp.finished_at is Some,
        upload_open(tenant_id, competition_id, Some(comp), r),
    ensures
        r matches Step::Finish(Ok(a)) && answer_complaint(a) == Some(
            "competition is finished"@,
        ),
{
}

/// Whether a row holds what a record says: its player and its score.
pub open spec fn row_follows(record: Result<Vec<String>, String>, row: PlayerScoreRow) -> bool {
    record_texts(record) matches Ok(fields) && fields.len() == 2 && row.player_id@ == fields[0]
        && i64_value(fields[1]) == Some(row.score)
}

/// Whether each row of an upload holds what the record of the same number says, in the competition
/// and the tenant that the upload is for.
pub open spec fn rows_follow(u: Upload) -> bool {
    &&& u.rows@.len() <= u.records@.len()
    &&& forall|i: int|
        0 <= i < u.rows@.len() ==> {
            let row = #[trigger] u.rows@[i];
            &&& row_follows(u.records@[i], row)
            &&& row.row_num == i as i64
            &&& row.tenant_id == u.tenant_id
            &&& row.competition_id == u.competition_id
        }
}

/// An upload of which nothing has been taken yet has no row that does not follow its record.
pub proof fn fresh_uploads_follow(
    u: Upload,
    tenant_id: i64,
    competition_id: String,
    records: Seq<Result<Seq<Seq<char>>, Seq<char>>>,
)
    requires
        is_fresh(u, tenant_id, competition_id, records),
    ensures
        rows_follow(u),
{
}

/// An upload whose rows follow their records does so with one more row that follows its own.
proof fn rows_follow_with_one_more(before: Upload, after: Upload)
    requires
        rows_follow(before),
        before.rows@.len() < before.records@.len(),
        row_follows(before.records@[before.rows@.len() as int], after.rows@.last()),
        exists|player_id: String, score: i64, at: Moment, id: Seq<char>|
            #[trigger] row_added(before, player_id, score, at, id, after),
    ensures
        rows_follow(after),
{
    let n = before.rows@.len() as int;
    assert forall|i: int| 0 <= i < after.rows@.len() implies ({
        let row = #[trigger] after.rows@[i];
        &&& row_follows(after.records@[i], row)
        &&& row.row_num == i as i64
        &&& row.tenant_id == after.tenant_id
        &&& row.competition_id == after.competition_id
    }) by {
        if i < n {
            assert(after.rows@[i] == before.rows@[i]);
        }
    }
}

/// Each row that is added follows its record, where the player of the record is remembered.
pub proof fn added_rows_follow(
    m: Remembered,
    u: Upload,
    r: Step,
    at: Moment,
    id: Seq<char>,
    after: Upload,
)
    requires
        rows_follow(u),
        record_taken(m, u, r),
        r matches Step::ReadClock(q) && (q.next matches ClockNext::Upload {
            upload,
            player_id,
            score,
        } && row_added(upload, player_id, score, at, id, after)),
    ensures
        rows_follow(after),
{
    rows_follow_with_one_more(u, after);
}

/// Each row that is added follows its record, where the player of the record was looked up first.
pub proof fn added_rows_of_found_players_follow(
    m: Remembered,
    u: Upload,
    asked: Step,
    r: Step,
    at: Moment,
    id: Seq<char>,
    after: Upload,
)
    requires
        rows_follow(u),
        record_taken(m, u, asked),
        asked matches Step::FindPlayer(f) && (f.next matches PlayerNext::Upload { upload, score }
            && uploaded_player_found(upload, f.id@, true, score@, r)),
        r matches Step::ReadClock(q) && (q.next matches ClockNext::Upload {
            upload,
            player_id,
            score,
        } && row_added(upload, player_id, score, at, id, after)),
    ensures
        rows_follow(after),
{
    rows_follow_with_one_more(u, after);
}

/// Scores are replaced only once every record has its row, and then by at most one row for each
/// player: the last one. The answer counts all of the records.
pub proof fn all_records_or_none(m: Remembered, u: Upload, r: Step)
    requires
        rows_follow(u),
        record_taken(m, u, r),
        r is ReplaceScores,
    ensures
        u.rows@.len() == u.records@.len(),
        r->ReplaceScores_0.count == u.records@.len() as i64,
        forall|i: int, j: int|
            0 <= i < j < r->ReplaceScores_0.rows@.len() ==> (
            #[trigger] r->ReplaceScores_0.rows@[i]).player_id@ != (
            #[trigger] r->ReplaceScores_0.rows@[j]).player_id@,
{
    kept_rows_have_distinct_players(u.rows@);
}

/// The last record of each player decides their score: one of the rows that replace the scores of
/// the competition follows it, under its number.
pub proof fn the_last_record_counts(m: Remembered, u: Upload, r: Step, i: int)
    requires
        rows_follow(u),
        record_taken(m, u, r),
        r is ReplaceScores,
        0 <= i < u.records@.len(),
        forall|j: int|
            i < j < u.records@.len() ==> record_texts(#[trigger] u.records@[j])->Ok_0[0]
                != record_texts(u.records@[i])->Ok_0[0],
    ensures
        exists|k: int|
            0 <= k < r->ReplaceScores_0.rows@.len() && row_follows(
                u.records@[i],
                #[trigger] r->ReplaceScores_0.rows@[k],
            ) && r->ReplaceScores_0.rows@[k].row_num == i as i64,
{
    let rows = u.rows@;
    let kept = last_rows(rows);
    let player = rows[i].player_id@;
    every_player_keeps_a_row(rows, player);
    kept_rows_are_the_last(rows);
    let k = choose|k: int| 0 <= k < kept.len() && (#[trigger] kept[k]).player_id@ == player;
    let n = choose|n: int|
        0 <= n < rows.len() && rows[n] == kept[k] && !has_player(
            #[trigger] rows.skip(n + 1),
            rows[n].player_id@,
        );
    if n < i {
        assert(rows.skip(n + 1)[i - n - 1] == rows[i]);
    }
    if n > i {
        assert(row_follows(u.records@[n], rows[n]));
        assert(row_follows(u.records@[i], rows[i]));
    }
    assert(row_follows(u.records@[i], kept[k]));
}

/// Whether two rows give the same player the same score under the same number.
pub open spec fn alike(a: PlayerScoreRow, b: PlayerScoreRow) -> bool {
    a.player_id@ == b.player_id@ && a.score == b.score && a.row_num == b.row_num
}

/// Whether two lists of rows are alike, row by row.
pub open spec fn all_alike(a: Seq<PlayerScoreRow>, b: Seq<PlayerScoreRow>) -> bool {
    &&& a.len() == b.len()
    &&& forall|i: int| 0 <= i < a.len() ==> alike(#[trigger] a[i], b[i])
}

proof fn same_players(a: Seq<PlayerScoreRow>, b: Seq<PlayerScoreRow>, player_id: Seq<char>)
    requires
        all_alike(a, b),
        has_player(a, player_id),
    ensures
        has_player(b, player_id),
{
    let i = choose|i: int| 0 <= i < a.len() && (#[trigger] a[i]).player_id@ == player_id;
    assert(alike(a[i], b[i]));
    assert(b[i].player_id@ == player_id);
}

proof fn last_rows_stay_alike(a: Seq<PlayerScoreRow>, b: Seq<PlayerScoreRow>)
    requires
        all_alike(a, b),
    ensures
        all_alike(last_rows(a), last_rows(b)),
    decreases a.len(),
{
    if a.len() > 0 {
        let rest_a = a.drop_first();
        let rest_b = b.drop_first();
        assert(alike(a[0], b[0]));
        assert forall|i: int| 0 <= i < rest_a.len() implies alike(
            #[trigger] rest_a[i],
            rest_b[i],
        ) by {
            assert(alike(a[i + 1], b[i + 1]));
        }
        last_rows_stay_alike(rest_a, rest_b);
        let player = a[0].player_id@;
        if has_player(rest_a, player) {
            same_players(rest_a, rest_b, player);
        } else {
            if has_player(rest_b, player) {
                assert forall|i: int| 0 <= i < rest_b.len() implies alike(
                    #[trigger] rest_b[i],
                    rest_a[i],
                ) by {
                    assert(alike(rest_a[i], rest_b[i]));
                }
                same_players(rest_b, rest_a, player);
            }
            let kept_a = last_rows(a);
            let kept_b = last_rows(b);
            assert forall|i: int| 0 <= i < kept_a.len() implies alike(
                #[trigger] kept_a[i],
                kept_b[i],
            ) by {
                if i > 0 {
                    assert(alike(last_rows(rest_a)[i - 1], last_rows(rest_b)[i - 1]));
                }
            }
        }
    }
}

/// The same records give the same rows: in two uploads that are complete, the rows that are kept
/// are as many and give the same players the same scores under the same numbers.
pub proof fn same_records_give_the_same_rows(u: Upload, w: Upload)
    requires
        rows_follow(u),
        rows_follow(w),
        u.rows@.len() == u.records@.len(),
        w.rows@.len() == w.records@.len(),
        table_texts(u.records@) == table_texts(w.records@),
    ensures
        all_alike(last_rows(u.rows@), last_rows(w.rows@)),
{
    let texts = table_texts(u.records@);
    assert(texts.len() == u.records@.len() && texts.len() == w.records@.len());
    assert forall|i: int| 0 <= i < u.rows@.len() implies alike(
        #[trigger] u.rows@[i],
        w.rows@[i],
    ) by {
        assert(texts[i] == record_texts(u.records@[i]));
        assert(table_texts(w.records@)[i] == record_texts(w.records@[i]));
        assert(row_follows(u.records@[i], u.rows@[i]));
        assert(row_follows(w.records@[i], w.rows@[i]));
    }
    last_rows_stay_alike(u.rows@, w.rows@);
}

/// Uploading the same table again changes nothing but ids and times: the scores of the competition
/// are replaced by the same players, scores and numbers, and the same number of records is
/// answered, whatever was remembered each time.
pub proof fn uploading_again_changes_nothing(
    m1: Remembered,
    u: Upload,
    first: Step,
    m2: Remembered,
    w: Upload,
    second: Step,
)
    requires
        rows_follow(u),
        rows_follow(w),
        table_texts(u.records@) == table_texts(w.records@),
        u.tenant_id == w.tenant_id,
        u.competition_id == w.competition_id,
        record_taken(m1, u, first),
        record_taken(m2, w, second),
        first is ReplaceScores,
        second is ReplaceScores,
    ensures
        ({
            let a = first->ReplaceScores_0;
            let b = second->ReplaceScores_0;
            &&& a.tenant_id == b.tenant_id
            &&& a.competition_id == b.competition_id
            &&& a.count == b.count
            &&& all_alike(a.rows@, b.rows@)
        }),
{
    assert(table_texts(u.records@).len() == u.records@.len());
    assert(table_texts(w.records@).len() == w.records@.len());
    same_records_give_the_same_rows(u, w);
}

} // verus!
