//! What becomes of uploaded scores.
use crate::cache::Remembered;
use crate::error::{DbFailure, Error, StatusCode};
use crate::laws::outcome::{breaks_off, fails_inside, is_turned_away};
use crate::laws::words::{ids_are_times_and_numbers, integers_read_as, is_id, reads_as, steps_to};
use crate::lookup::dispensed;
use crate::model::{CompetitionRow, PlayerRow, PlayerScoreRow};
use crate::question::{
    Answer, ClockNext, Connect, Connected, Field, FindCompetition, FindPlayer,
    Moment, NextField, OrganizerTask, PlayerNext, ReadClock, ReadField, ReplaceScores, Service,
    Step, Upload,
};
use crate::scores::{
    check_header, csv_headers_of, csv_record_debug_of, csv_records_of, has_player,
    i64_parse_failure_of, is_score_header, keep_last_rows, last_rows, read_score_table,
    record_texts, score_line, table_texts, texts, wrong_columns, wrong_score, ScoreLine,
};
use crate::upload::{
    add_row, is_fresh, open_upload, record_taken, row_added, score_taken, take_record, take_table,
    take_uploaded_player,
};
use vstd::prelude::*;

verus! {

/// A CSV record in characters: its fields, or in words why it could not be read.
pub type Line = Result<Seq<Seq<char>>, Seq<char>>;

/// Whether a record has exactly these fields, or failed in exactly these words.
pub open spec fn is_line(record: Result<Vec<String>, String>, line: Line) -> bool {
    match record {
        Ok(fields) => line is Ok && fields@.len() == line->Ok_0.len() && forall|j: int|
            0 <= j < fields@.len() ==> (#[trigger] fields@[j])@ == line->Ok_0[j],
        Err(cause) => line is Err && cause@ == line->Err_0,
    }
}

/// Whether an upload holds exactly these lines, one for one.
pub open spec fn holds_lines(u: Upload, lines: Seq<Line>) -> bool {
    &&& u.records@.len() == lines.len()
    &&& forall|i: int| 0 <= i < lines.len() ==> is_line(#[trigger] u.records@[i], lines[i])
}

proof fn texts_are_lines(record: Result<Vec<String>, String>)
    ensures
        is_line(record, record_texts(record)),
        forall|line: Line| #[trigger] is_line(record, line) ==> line == record_texts(record),
{
    assert forall|line: Line| #[trigger] is_line(record, line) implies line == record_texts(
        record,
    ) by {
        if record is Ok {
            assert(line->Ok_0 =~= record_texts(record)->Ok_0);
        }
    }
}

/// Whether rows are, of some others, the last of each player, all of these and only these, in the
/// same order.
pub open spec fn are_last_of_each(rows: Seq<PlayerScoreRow>, kept: Seq<PlayerScoreRow>) -> bool {
    exists|places: Seq<int>| #[trigger] are_last_at(rows, kept, places)
}

/// Whether these are the places of the last row of each player, and the rows that stand there.
pub open spec fn are_last_at(
    rows: Seq<PlayerScoreRow>,
    kept: Seq<PlayerScoreRow>,
    places: Seq<int>,
) -> bool {
    &&& kept.len() == places.len()
    &&& forall|j: int, k: int|
        0 <= j < k < places.len() ==> #[trigger] places[j] < #[trigger] places[k]
    &&& forall|k: int|
        0 <= k < kept.len() ==> 0 <= #[trigger] places[k] < rows.len() && kept[k] == rows[places[k]]
            && is_last_of(rows, places[k])
    &&& forall|i: int|
        0 <= i < rows.len() && #[trigger] is_last_of(rows, i) ==> places.contains(i)
}

/// Whether no later row is of the same player.
pub open spec fn is_last_of(rows: Seq<PlayerScoreRow>, i: int) -> bool {
    forall|j: int| i < j < rows.len() ==> (#[trigger] rows[j]).player_id@ != rows[i].player_id@
}

proof fn last_in_the_rest(rows: Seq<PlayerScoreRow>, i: int)
    requires
        0 < i < rows.len(),
    ensures
        is_last_of(rows, i) == is_last_of(rows.drop_first(), i - 1),
{
    let rest = rows.drop_first();
    if is_last_of(rows, i) {
        assert forall|j: int| i - 1 < j < rest.len() implies (#[trigger] rest[j]).player_id@
            != rest[i - 1].player_id@ by {
            assert(rest[j] == rows[j + 1]);
        }
    }
    if is_last_of(rest, i - 1) {
        assert forall|j: int| i < j < rows.len() implies (#[trigger] rows[j]).player_id@
            != rows[i].player_id@ by {
            assert(rest[j - 1] == rows[j]);
        }
    }
}

proof fn last_rows_have_places(rows: Seq<PlayerScoreRow>) -> (places: Seq<int>)
    ensures
        are_last_at(rows, last_rows(rows), places),
    decreases rows.len(),
{
    if rows.len() == 0 {
        Seq::empty()
    } else {
        let rest = rows.drop_first();
        let after = last_rows_have_places(rest);
        let moved = after.map_values(|i: int| i + 1);
        let again = has_player(rest, rows[0].player_id@);
        if again {
            let j = choose|j: int|
                0 <= j < rest.len() && (#[trigger] rest[j]).player_id@ == rows[0].player_id@;
            assert(rows[j + 1].player_id@ == rows[0].player_id@);
            assert(!is_last_of(rows, 0));
        } else {
            assert forall|j: int| 0 < j < rows.len() implies (#[trigger] rows[j]).player_id@
                != rows[0].player_id@ by {
                assert(rest[j - 1] == rows[j]);
            }
            assert(is_last_of(rows, 0));
        }
        let places = if again {
            moved
        } else {
            seq![0int] + moved
        };
        let first: int = if again {
            0
        } else {
            1
        };
        let kept = last_rows(rows);
        assert forall|k: int| 0 <= k < kept.len() implies 0 <= #[trigger] places[k] < rows.len()
            && kept[k] == rows[places[k]] && is_last_of(rows, places[k]) by {
            if first <= k {
                let n = after[k - first];
                assert(places[k] == n + 1);
                last_in_the_rest(rows, n + 1);
                assert(rest[n] == rows[n + 1]);
            }
        }
        assert forall|i: int|
            0 <= i < rows.len() && #[trigger] is_last_of(rows, i) implies places.contains(i) by {
            if i == 0 {
                assert(places[0] == 0);
            } else {
                last_in_the_rest(rows, i);
                let k = choose|k: int| 0 <= k < after.len() && after[k] == i - 1;
                assert(places[k + first] == i);
            }
        }
        assert forall|j: int, k: int| 0 <= j < k < places.len() implies #[trigger] places[j]
            < #[trigger] places[k] by {
            if first <= j {
                assert(after[j - first] < after[k - first]);
            }
        }
        places
    }
}

proof fn last_rows_are_last(rows: Seq<PlayerScoreRow>)
    ensures
        are_last_of_each(rows, last_rows(rows)),
{
    let places = last_rows_have_places(rows);
    assert(are_last_at(rows, last_rows(rows), places));
}

/// Of rows, the last of each player are kept, and nothing else.
pub proof fn the_last_rows_are_kept(rows: Vec<PlayerScoreRow>, r: Vec<PlayerScoreRow>)
    requires
        call_ensures(keep_last_rows, (rows,), r),
    ensures
        are_last_of_each(rows@, r@),
{
    last_rows_are_last(rows@);
}

/// Whether an upload is this one: for this tenant and competition, with these lines, and these rows
/// made of the first of them.
pub open spec fn is_upload(
    u: Upload,
    tenant_id: i64,
    competition_id: String,
    lines: Seq<Line>,
    rows: Seq<PlayerScoreRow>,
) -> bool {
    &&& u.tenant_id == tenant_id
    &&& u.competition_id == competition_id
    &&& holds_lines(u, lines)
    &&& u.rows@ == rows
}

/// Whether the time is read for a row with this player and the score that this text reads as, or
/// the text is refused.
pub open spec fn takes_score(
    tenant_id: i64,
    competition_id: String,
    lines: Seq<Line>,
    rows: Seq<PlayerScoreRow>,
    player: Seq<char>,
    text: Seq<char>,
    r: Step,
) -> bool {
    match r {
        Step::ReadClock(c) => match c.next {
            ClockNext::Upload { upload, player_id, score } => is_upload(
                upload,
                tenant_id,
                competition_id,
                lines,
                rows,
            ) && player_id@ == player && reads_as(text, score as int),
            _ => false,
        },
        _ => is_turned_away(
            r,
            StatusCode::BadRequest,
            "error parse: score_str="@ + text + ", "@ + i64_parse_failure_of(text),
        ) && forall|i: int| i64::MIN <= i <= i64::MAX ==> !#[trigger] reads_as(text, i),
    }
}

/// Whether an upload goes on with the line after those that have a row: its player is looked up
/// where they are not remembered, then its score is read. Once there is a row for every line, the
/// last row of each player replaces the scores, and all lines are counted.
pub open spec fn takes_next_line(
    m: Remembered,
    tenant_id: i64,
    competition_id: String,
    lines: Seq<Line>,
    rows: Seq<PlayerScoreRow>,
    r: Step,
) -> bool {
    if rows.len() >= lines.len() {
        r matches Step::ReplaceScores(q) && q.tenant_id == tenant_id && q.competition_id
            == competition_id && q.count == rows.len() as i64 && are_last_of_each(rows, q.rows@)
    } else {
        match lines[rows.len() as int] {
            Err(cause) => r matches Step::Finish(Err(Error::Csv(text))) && text@ == cause,
            Ok(fields) => if fields.len() != 2 {
                fails_inside(r, "row must have tow columns: "@ + csv_record_debug_of(fields))
            } else if m.players.contains_key(fields[0]) {
                takes_score(tenant_id, competition_id, lines, rows, fields[0], fields[1], r)
            } else {
                r matches Step::FindPlayer(f) && f.id@ == fields[0] && (
                f.next matches PlayerNext::Upload { upload, score } && score@ == fields[1]
                    && is_upload(upload, tenant_id, competition_id, lines, rows))
            },
        }
    }
}

proof fn scores_are_taken(
    u: Upload,
    lines: Seq<Line>,
    player: Seq<char>,
    text: Seq<char>,
    r: Step,
)
    requires
        holds_lines(u, lines),
        score_taken(u, player, text, r),
    ensures
        takes_score(u.tenant_id, u.competition_id, lines, u.rows@, player, text, r),
{
    integers_read_as(text);
}

proof fn next_lines_are_taken(m: Remembered, u: Upload, lines: Seq<Line>, r: Step)
    requires
        holds_lines(u, lines),
        record_taken(m, u, r),
    ensures
        takes_next_line(m, u.tenant_id, u.competition_id, lines, u.rows@, r),
{
    let n = u.rows@.len() as int;
    if n < lines.len() {
        assert(is_line(u.records@[n], lines[n]));
        texts_are_lines(u.records@[n]);
        assert(record_texts(u.records@[n]) == lines[n]);
        if lines[n] is Ok && lines[n]->Ok_0.len() == 2 && m.players.contains_key(
            lines[n]->Ok_0[0],
        ) {
            scores_are_taken(u, lines, lines[n]->Ok_0[0], lines[n]->Ok_0[1], r);
        }
    } else {
        last_rows_are_last(u.rows@);
    }
}

/// The lines of a table in characters.
pub open spec fn lines_of(records: Seq<Result<Vec<String>, String>>) -> Seq<Line> {
    Seq::new(
        records.len(),
        |i: int|
            match records[i] {
                Ok(fields) => Ok(Seq::new(fields@.len(), |j: int| fields@[j]@)),
                Err(cause) => Err(cause@),
            },
    )
}

proof fn fresh_uploads_hold_their_lines(u: Upload, lines: Seq<Line>)
    requires
        u.records@.len() == lines.len(),
        forall|i: int|
            0 <= i < lines.len() ==> record_texts(#[trigger] u.records@[i]) == lines[i],
    ensures
        holds_lines(u, lines),
{
    assert forall|i: int| 0 <= i < lines.len() implies is_line(#[trigger] u.records@[i], lines[i])
        by {
        texts_are_lines(u.records@[i]);
    }
}

/// An upload of a table begins with all of its records, one for one, and no rows.
pub proof fn an_upload_begins_with_all_records(
    svc: &Service,
    tenant_id: i64,
    competition_id: String,
    table: Result<Vec<Result<Vec<String>, String>>, Error>,
    r: Step,
)
    requires
        call_ensures(take_table, (svc, tenant_id, competition_id, table), r),
    ensures
        match table {
            Err(e) => r == Step::Finish(Err(e)),
            Ok(records) => takes_next_line(
                svc.caches@,
                tenant_id,
                competition_id,
                lines_of(records@),
                Seq::empty(),
                r,
            ),
        },
{
    if table is Ok {
        let records = table->Ok_0@;
        let u = choose|u: Upload|
            is_fresh(u, tenant_id, competition_id, table_texts(records))
                && #[trigger] record_taken(svc.caches@, u, r);
        let lines = lines_of(records);
        assert forall|i: int| 0 <= i < lines.len() implies record_texts(#[trigger] u.records@[i])
            == lines[i] by {
            assert(table_texts(records)[i] == record_texts(records[i]));
            texts_are_lines(records[i]);
            assert(is_line(records[i], lines[i]));
        }
        fresh_uploads_hold_their_lines(u, lines);
        next_lines_are_taken(svc.caches@, u, lines, r);
        assert(u.rows@ =~= Seq::empty());
    }
}

/// The table in an uploaded field is taken with all of the records that the CSV data has after its
/// header, where that names the two columns. Any other header is refused, and so is a field that
/// cannot be read.
pub proof fn an_upload_takes_the_whole_table(
    q: ReadField,
    svc: &Service,
    reply: Result<Vec<u8>, String>,
    r: Step,
)
    requires
        call_ensures(ReadField::resume, (q, svc, reply), r),
    ensures
        match reply {
            Err(cause) => r matches Step::Finish(Err(Error::Multipart(text))) && text@ == cause@,
            Ok(data) => match csv_headers_of(data@) {
                Err(cause) => r matches Step::Finish(Err(Error::Csv(text))) && text@ == cause,
                Ok(fields) => if fields.len() == 2 && fields[0] == "player_id"@ && fields[1]
                    == "score"@ {
                    takes_next_line(
                        svc.caches@,
                        q.tenant_id,
                        q.competition_id,
                        csv_records_of(data@),
                        Seq::empty(),
                        r,
                    )
                } else {
                    is_turned_away(r, StatusCode::BadRequest, "invalid CSV headers"@)
                },
            },
        },
{
    if reply is Ok {
        let data = reply->Ok_0@;
        if csv_headers_of(data) is Ok {
            let fields = csv_headers_of(data)->Ok_0;
            headers_are_compared(fields);
            if fields.len() == 2 && fields[0] == "player_id"@ && fields[1] == "score"@ {
                let u = choose|u: Upload|
                    is_fresh(u, q.tenant_id, q.competition_id, csv_records_of(data))
                        && #[trigger] record_taken(svc.caches@, u, r);
                fresh_uploads_hold_their_lines(u, csv_records_of(data));
                next_lines_are_taken(svc.caches@, u, csv_records_of(data), r);
                assert(u.rows@ =~= Seq::empty());
            }
        }
    }
}

proof fn headers_are_compared(fields: Seq<Seq<char>>)
    ensures
        is_score_header(fields) <==> fields.len() == 2 && fields[0] == "player_id"@
            && fields[1] == "score"@,
{
    if fields.len() == 2 && fields[0] == "player_id"@ && fields[1] == "score"@ {
        assert(fields =~= seq!["player_id"@, "score"@]);
    }
}

/// A table is read where its header names the two columns, and then with all of its records.
pub proof fn tables_are_read_whole(
    data: &[u8],
    r: Result<Vec<Result<Vec<String>, String>>, Error>,
    header: Result<Vec<String>, String>,
    checked: Result<(), Error>,
)
    requires
        call_ensures(read_score_table, (data,), r),
        call_ensures(check_header, (header,), checked),
    ensures
        r is Ok <==> csv_headers_of(data@) is Ok && csv_headers_of(data@)->Ok_0.len() == 2
            && csv_headers_of(data@)->Ok_0[0] == "player_id"@ && csv_headers_of(data@)->Ok_0[1]
            == "score"@,
        r matches Ok(records) ==> records@.len() == csv_records_of(data@).len() && forall|i: int|
            0 <= i < records@.len() ==> is_line(
                #[trigger] records@[i],
                csv_records_of(data@)[i],
            ),
        r matches Err(e) ==> match csv_headers_of(data@) {
            Err(cause) => e matches Error::Csv(text) && text@ == cause,
            Ok(_) => e matches Error::Custom(code, text) && code == StatusCode::BadRequest && text@
                == "invalid CSV headers"@,
        },
        checked is Ok <==> header is Ok && header->Ok_0@.len() == 2 && header->Ok_0@[0]@
            == "player_id"@ && header->Ok_0@[1]@ == "score"@,
        checked matches Err(e) ==> match header {
            Err(cause) => e matches Error::Csv(text) && text@ == cause@,
            Ok(_) => e matches Error::Custom(code, text) && code == StatusCode::BadRequest && text@
                == "invalid CSV headers"@,
        },
{
    if csv_headers_of(data@) is Ok {
        headers_are_compared(csv_headers_of(data@)->Ok_0);
    }
    if r is Ok {
        let records = r->Ok_0@;
        assert(table_texts(records).len() == records.len());
        assert forall|i: int| 0 <= i < records.len() implies is_line(
            #[trigger] records[i],
            csv_records_of(data@)[i],
        ) by {
            texts_are_lines(records[i]);
            assert(table_texts(records)[i] == record_texts(records[i]));
        }
    }
    if header is Ok {
        let fields = header->Ok_0@;
        headers_are_compared(texts(fields));
        assert(fields.len() == 2 ==> texts(fields)[0] == fields[0]@
            && texts(fields)[1] == fields[1]@);
    }
}

/// A record names a player and a score where it has two fields, and is refused else.
pub proof fn records_name_player_and_score(
    record: &Result<Vec<String>, String>,
    r: Result<ScoreLine, Error>,
)
    requires
        call_ensures(score_line, (record,), r),
    ensures
        r is Ok <==> *record is Ok && (*record)->Ok_0@.len() == 2,
        r matches Ok(line) ==> line.player_id@ == (*record)->Ok_0@[0]@ && line.score@ == (
        *record)->Ok_0@[1]@,
        r matches Err(e) ==> (*record is Err ==> (e matches Error::Csv(text) && text@ == (
        *record)->Err_0@)) && (*record is Ok ==> e is Internal && exists|fields: Seq<Seq<char>>|
            #[trigger] is_line(*record, Ok(fields)) && e->Internal_0@
                == "row must have tow columns: "@ + csv_record_debug_of(fields)),
{
    texts_are_lines(*record);
}

/// The errors of a table say what is wrong with it.
pub proof fn errors_say_what_is_wrong(shown: &str, e1: Error, text: &str, cause: &str, e2: Error)
    requires
        call_ensures(wrong_columns, (shown,), e1),
        call_ensures(wrong_score, (text, cause), e2),
    ensures
        e1 matches Error::Internal(words) && words@ == "row must have tow columns: "@ + shown@,
        e2 matches Error::Custom(code, words) && code == StatusCode::BadRequest && words@
            == "error parse: score_str="@ + text@ + ", "@ + cause@,
{
}

/// An upload goes on with the line after those that have a row.
pub proof fn the_next_line_is_taken(svc: &Service, upload: Upload, lines: Seq<Line>, r: Step)
    requires
        holds_lines(upload, lines),
        call_ensures(take_record, (svc, upload), r),
    ensures
        takes_next_line(
            svc.caches@,
            upload.tenant_id,
            upload.competition_id,
            lines,
            upload.rows@,
            r,
        ),
{
    next_lines_are_taken(svc.caches@, upload, lines, r);
}

/// A line whose player is there leads on to its score, and one whose player is not refuses the
/// whole upload.
pub proof fn every_line_needs_its_player(
    upload: Upload,
    player_id: String,
    found: bool,
    score: String,
    lines: Seq<Line>,
    r: Step,
)
    requires
        holds_lines(upload, lines),
        call_ensures(take_uploaded_player, (upload, player_id, found, score), r),
    ensures
        if found {
            takes_score(
                upload.tenant_id,
                upload.competition_id,
                lines,
                upload.rows@,
                player_id@,
                score@,
                r,
            )
        } else {
            is_turned_away(r, StatusCode::BadRequest, "player not found: "@ + player_id@)
        },
{
    if found {
        scores_are_taken(upload, lines, player_id@, score@, r);
    }
}

/// A row is added behind those that are there, and nothing else of the upload changes.
pub proof fn rows_are_added_at_the_end(
    upload: Upload,
    player_id: String,
    score: i64,
    at: Moment,
    id: String,
    r: Upload,
)
    requires
        call_ensures(add_row, (upload, player_id, score, at, id), r),
    ensures
        r.tenant_id == upload.tenant_id,
        r.competition_id == upload.competition_id,
        r.records == upload.records,
        r.rows@.len() == upload.rows@.len() + 1,
        forall|i: int| 0 <= i < upload.rows@.len() ==> #[trigger] r.rows@[i] == upload.rows@[i],
        is_row(r.rows@[upload.rows@.len() as int], upload, player_id, score, at),
        r.rows@[upload.rows@.len() as int].id@ == id@,
{
}

/// Scores are let in for a competition that is handed in and goes on.
pub proof fn competitions_that_go_on_take_scores(
    tenant_id: i64,
    competition_id: String,
    comp: Option<CompetitionRow>,
    r: Step,
)
    requires
        call_ensures(open_upload, (tenant_id, competition_id, comp), r),
    ensures
        lets_scores_in(tenant_id, competition_id, comp, r),
{
}

/// A player of a line who was looked up leads on to the score, and one who is not there refuses the
/// whole upload.
pub proof fn every_line_needs_an_existing_player(
    q: FindPlayer,
    upload: Upload,
    score: String,
    lines: Seq<Line>,
    svc: &mut Service,
    reply: Result<Option<PlayerRow>, DbFailure>,
    r: Step,
)
    requires
        q.next == (PlayerNext::Upload { upload, score }),
        holds_lines(upload, lines),
        call_ensures(FindPlayer::resume, (q, svc, reply), r),
    ensures
        match reply {
            Err(f) => breaks_off(r, f),
            Ok(None) => is_turned_away(
                r,
                StatusCode::BadRequest,
                "player not found: "@ + q.id@,
            ),
            Ok(Some(_)) => takes_score(
                upload.tenant_id,
                upload.competition_id,
                lines,
                upload.rows@,
                q.id@,
                score@,
                r,
            ),
        },
{
    if reply matches Ok(Some(_)) {
        scores_are_taken(upload, lines, q.id@, score@, r);
    }
}

/// Whether a row is this player's score at this place, made at this time.
pub open spec fn is_row(
    row: PlayerScoreRow,
    upload: Upload,
    player_id: String,
    score: i64,
    at: Moment,
) -> bool {
    &&& row.tenant_id == upload.tenant_id
    &&& row.competition_id == upload.competition_id
    &&& row.player_id == player_id
    &&& row.score == score
    &&& row.row_num == upload.rows@.len() as i64
    &&& row.created_at == at.now
    &&& row.updated_at == at.now
}

/// Each line becomes a row behind those before it, under an id of its own, and then comes the next
/// line.
pub proof fn every_line_becomes_a_row(
    q: ReadClock,
    upload: Upload,
    player_id: String,
    score: i64,
    lines: Seq<Line>,
    svc: &mut Service,
    at: Moment,
    r: Step,
)
    requires
        q.next == (ClockNext::Upload { upload, player_id, score }),
        holds_lines(upload, lines),
        call_ensures(ReadClock::resume, (q, svc, at), r),
    ensures
        final(svc).caches@ == old(svc).caches@,
        old(svc).rnd != 0 ==> steps_to(old(svc).rnd, final(svc).rnd),
        exists|row: PlayerScoreRow| #[trigger]
            is_row(row, upload, player_id, score, at) && is_id(
                row.id@,
                at.nanos as int,
                final(svc).rnd % 999_999 + 1,
            ) && takes_next_line(
                old(svc).caches@,
                upload.tenant_id,
                upload.competition_id,
                lines,
                upload.rows@ + seq![row],
                r,
            ),
{
    let m = old(svc).caches@;
    let u = choose|u: Upload|
        row_added(upload, player_id, score, at, u.rows@.last().id@, u) && dispensed(
            old(svc).rnd,
            final(svc).rnd,
            at,
            u.rows@.last().id@,
        ) && #[trigger] record_taken(m, u, r);
    let row = u.rows@.last();
    assert(holds_lines(u, lines));
    next_lines_are_taken(m, u, lines, r);
    assert(u.rows@ =~= upload.rows@ + seq![row]);
    assert(is_row(row, upload, player_id, score, at));
    ids_are_times_and_numbers(at.nanos as nat, final(svc).rnd);
}

/// Whether a row has the player, the score and the place of a line.
pub open spec fn is_of_line(row: PlayerScoreRow, line: Line, place: int) -> bool {
    &&& line is Ok && line->Ok_0.len() == 2
    &&& row.player_id@ == line->Ok_0[0]
    &&& reads_as(line->Ok_0[1], row.score as int)
    &&& row.row_num == place as i64
}

/// Whether the rows made so far are those of the first lines: player, score and place of each.
pub open spec fn rows_are_of_lines(rows: Seq<PlayerScoreRow>, lines: Seq<Line>) -> bool {
    &&& rows.len() <= lines.len()
    &&& forall|i: int| 0 <= i < rows.len() ==> is_of_line(#[trigger] rows[i], lines[i], i)
}

/// The rows stay those of the first lines with every row that a line becomes, whether its player
/// was remembered or looked up.
pub proof fn rows_stay_those_of_the_lines(
    m: Remembered,
    lines: Seq<Line>,
    upload: Upload,
    asked: Step,
    read: Step,
    at: Moment,
    row: PlayerScoreRow,
)
    requires
        holds_lines(upload, lines),
        rows_are_of_lines(upload.rows@, lines),
        upload.rows@.len() < lines.len(),
        takes_next_line(
            m,
            upload.tenant_id,
            upload.competition_id,
            lines,
            upload.rows@,
            asked,
        ),
        match asked {
            Step::FindPlayer(f) => f.next matches PlayerNext::Upload { upload: u, score }
                && takes_score(
                u.tenant_id,
                u.competition_id,
                lines,
                u.rows@,
                f.id@,
                score@,
                read,
            ),
            _ => read == asked,
        },
        read matches Step::ReadClock(c) && (c.next matches ClockNext::Upload {
            upload: u,
            player_id,
            score,
        } && is_row(row, u, player_id, score, at)),
    ensures
        rows_are_of_lines(upload.rows@ + seq![row], lines),
{
    let rows = upload.rows@ + seq![row];
    let n = upload.rows@.len() as int;
    assert(is_of_line(row, lines[n], n));
    assert forall|i: int| 0 <= i < rows.len() implies is_of_line(
        #[trigger] rows[i],
        lines[i],
        i,
    ) by {
        if i < n {
            assert(rows[i] == upload.rows@[i]);
        }
    }
}

/// Once the scores are replaced, every line has been counted, and the last line of each player is
/// in a row with its score and its place.
pub proof fn the_last_line_of_each_player_is_in(
    m: Remembered,
    tenant_id: i64,
    competition_id: String,
    lines: Seq<Line>,
    rows: Seq<PlayerScoreRow>,
    r: Step,
    i: int,
)
    requires
        rows_are_of_lines(rows, lines),
        takes_next_line(m, tenant_id, competition_id, lines, rows, r),
        r is ReplaceScores,
        0 <= i < lines.len(),
        forall|j: int|
            i < j < lines.len() ==> (#[trigger] lines[j])->Ok_0[0] != lines[i]->Ok_0[0],
    ensures
        r->ReplaceScores_0.count == lines.len() as i64,
        exists|k: int|
            0 <= k < r->ReplaceScores_0.rows@.len() && is_of_line(
                #[trigger] r->ReplaceScores_0.rows@[k],
                lines[i],
                i,
            ),
{
    if rows.len() < lines.len() {
        assert(lines[rows.len() as int] is Ok || lines[rows.len() as int] is Err);
    }
    assert(rows.len() == lines.len());
    assert forall|j: int| i < j < rows.len() implies (#[trigger] rows[j]).player_id@
        != rows[i].player_id@ by {
        assert(lines[j]->Ok_0[0] != lines[i]->Ok_0[0]);
        assert(is_of_line(rows[j], lines[j], j));
        assert(is_of_line(rows[i], lines[i], i));
    }
    assert(is_last_of(rows, i));
    let kept = r->ReplaceScores_0.rows@;
    let places = choose|places: Seq<int>| #[trigger] are_last_at(rows, kept, places);
    let k = choose|k: int| 0 <= k < places.len() && places[k] == i;
    assert(is_of_line(kept[k], lines[i], i));
}

/// The number of all lines is answered once the scores were replaced.
pub proof fn all_lines_are_answered(q: ReplaceScores, reply: Result<(), DbFailure>, r: Step)
    requires
        call_ensures(ReplaceScores::resume, (q, reply), r),
    ensures
        match reply {
            Err(f) => breaks_off(r, f),
            Ok(()) => r matches Step::Finish(Ok(Answer::Score { rows })) && rows == q.count,
        },
{
}

/// Whether an upload is let in: the competition is there and goes on.
pub open spec fn lets_scores_in(
    tenant_id: i64,
    competition_id: String,
    comp: Option<CompetitionRow>,
    r: Step,
) -> bool {
    match comp {
        None => is_turned_away(r, StatusCode::NotFound, "competition not found"@),
        Some(c) => if c.finished_at is Some {
            r matches Step::Finish(Ok(Answer::CompetitionIsFinished))
        } else {
            r matches Step::NextField(f) && f.tenant_id == tenant_id && f.competition_id
                == competition_id
        },
    }
}

/// Scores are let in for a competition that goes on. One that is remembered is not looked up.
pub proof fn running_competitions_take_scores(
    q: Connect,
    id: String,
    svc: &Service,
    reply: Result<(), DbFailure>,
    r: Step,
)
    requires
        q.next == Connected::Organizer(OrganizerTask::CompetitionScore(id)),
        call_ensures(Connect::resume, (q, svc, reply), r),
    ensures
        match reply {
            Err(f) => breaks_off(r, f),
            Ok(()) => if svc.caches@.competitions.contains_key((q.tenant_id, id@)) {
                lets_scores_in(
                    q.tenant_id,
                    id,
                    Some(svc.caches@.competitions[(q.tenant_id, id@)]),
                    r,
                )
            } else {
                r matches Step::FindCompetition(f) && f.tenant_id == q.tenant_id && f.id == id
                    && f.next is Upload
            },
        },
{
}

/// Scores are let in for a competition that was looked up and goes on.
pub proof fn competitions_that_are_there_take_scores(
    q: FindCompetition,
    svc: &mut Service,
    reply: Result<Option<CompetitionRow>, DbFailure>,
    r: Step,
)
    requires
        q.next is Upload,
        call_ensures(FindCompetition::resume, (q, svc, reply), r),
    ensures
        match reply {
            Err(f) => breaks_off(r, f),
            Ok(comp) => lets_scores_in(q.tenant_id, q.id, comp, r),
        },
{
}

/// The first field of the body that is named `scores` is read; other fields are passed over, and a
/// body without it, or one that breaks off, fails the request.
pub proof fn the_scores_field_is_read(q: NextField, field: Field, r: Step)
    requires
        call_ensures(NextField::resume, (q, field), r),
    ensures
        match field {
            Field::End => fails_inside(r, "scores field does not exist"@),
            Field::Failed(cause) => r matches Step::Finish(Err(Error::Multipart(text))) && text@
                == cause@,
            Field::Named(name) => if name@ == "scores"@ {
                r matches Step::ReadField(f) && f.tenant_id == q.tenant_id && f.competition_id
                    == q.competition_id
            } else {
                r matches Step::NextField(f) && f.tenant_id == q.tenant_id && f.competition_id
                    == q.competition_id
            },
        },
{
}

} // verus!
