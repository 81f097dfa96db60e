//! What players see.
use crate::cache::Remembered;
use crate::error::{DbFailure, StatusCode};
use crate::laws::outcome::{breaks_off, fails_inside, is_turned_away};
use crate::model::{
    CompetitionDetail, CompetitionRank, CompetitionRow, PlayerDetail, PlayerRow,
    PlayerScoreDetail, PlayerScoreRow, TenantDetail, TenantRow,
};
use crate::player::{
    authorize_player, begin_introduction, competitions_upto, introduce, known_competitions,
    known_players, next_rank, next_title, open_ranking, play, players_upto, ranked_player_found,
    ranking, ranking_page, show, take_ranked_player, take_title, title_found, titling,
    update_visit,
};
use crate::question::{
    Answer, BeginVisit, ClockNext, CommitVisit, CompetitionNext, Connect,
    Connected, FindCompetition, FindPlayer, FindTenantById, InsertVisit, ListRanking, ListScores,
    PlayerNext, PlayerScores, PlayerTask, Ranking, RankingEntry, Service, Step,
};
use vstd::prelude::*;

verus! {

/// The first hundred of some scores, or all where there are no more.
pub open spec fn first_hundred(rows: Seq<PlayerScoreRow>) -> Seq<PlayerScoreRow> {
    rows.subrange(
        0,
        if rows.len() < 100 {
            rows.len() as int
        } else {
            100
        },
    )
}

/// Whether this is what is shown of a competition.
pub open spec fn shows_competition(c: CompetitionRow, d: CompetitionDetail) -> bool {
    d.id == c.id && d.title == c.title && (d.is_finished <==> c.finished_at is Some)
}

/// Whether this is what is shown of a player.
pub open spec fn shows_player(p: PlayerRow, d: PlayerDetail) -> bool {
    d.id == p.id && d.display_name == p.display_name && d.is_disqualified == p.is_disqualified
}

/// Whether the players `found` are those remembered for the rows from place `from` up to place
/// `to`.
pub open spec fn are_remembered(
    m: Remembered,
    rows: Seq<PlayerScoreRow>,
    found: Seq<PlayerRow>,
    from: int,
    to: int,
) -> bool {
    forall|i: int|
        from <= i < to ==> m.players.contains_key((#[trigger] rows[i]).player_id@) && found[i]
            == m.players[rows[i].player_id@]
}

/// Whether the lines of a ranking tell rank, score, and the name of the player of the same place.
pub open spec fn is_board(
    rows: Seq<PlayerScoreRow>,
    players: Seq<PlayerRow>,
    lines: Seq<CompetitionRank>,
) -> bool {
    &&& lines.len() == rows.len() <= players.len()
    &&& forall|i: int|
        0 <= i < lines.len() ==> (#[trigger] lines[i]).rank == (i + 1) as i64 && lines[i].score
            == rows[i].score && lines[i].player_id == players[i].id
            && lines[i].player_display_name == players[i].display_name && lines[i].row_num == 0
}

/// Whether a ranking of these scores goes on: the players of the first scores are those found so
/// far, and those of the others are the remembered ones. Where all are there, every score is shown
/// with its player. Else the first who is not remembered is looked up.
pub open spec fn goes_on_ranking(
    m: Remembered,
    competition: CompetitionRow,
    rows: Seq<PlayerScoreRow>,
    so_far: Seq<PlayerRow>,
    r: Step,
) -> bool {
    match r {
        Step::Finish(Ok(Answer::Ranking { competition: shown, ranks })) => shows_competition(
            competition,
            shown,
        ) && exists|players: Seq<PlayerRow>|
            so_far.is_prefix_of(players) && are_remembered(
                m,
                rows,
                players,
                so_far.len() as int,
                rows.len() as int,
            ) && #[trigger] is_board(rows, players, ranks@),
        Step::FindPlayer(f) => match f.next {
            PlayerNext::Ranking(t) => {
                &&& t.competition == competition
                &&& t.rows@ == rows
                &&& so_far.is_prefix_of(t.found@)
                &&& t.found@.len() < rows.len()
                &&& f.id == rows[t.found@.len() as int].player_id
                &&& !m.players.contains_key(f.id@)
                &&& are_remembered(m, rows, t.found@, so_far.len() as int, t.found@.len() as int)
            },
            _ => false,
        },
        _ => false,
    }
}

proof fn known_players_end(m: Remembered, rows: Seq<PlayerScoreRow>, n: nat)
    ensures
        n <= known_players(m, rows, n),
        n <= rows.len() ==> known_players(m, rows, n) <= rows.len(),
        forall|i: int|
            n <= i < known_players(m, rows, n) ==> m.players.contains_key(
                (#[trigger] rows[i]).player_id@,
            ),
        known_players(m, rows, n) < rows.len() ==> !m.players.contains_key(
            rows[known_players(m, rows, n) as int].player_id@,
        ),
    decreases rows.len() - n,
{
    if n < rows.len() && m.players.contains_key(rows[n as int].player_id@) {
        known_players_end(m, rows, n + 1);
    }
}

proof fn rankings_go_on(m: Remembered, k: Ranking, r: Step)
    requires
        ranking(m, k, r),
    ensures
        goes_on_ranking(m, k.competition, k.rows@, k.found@, r),
{
    let rows = k.rows@;
    let so_far = k.found@;
    known_players_end(m, rows, so_far.len());
    let players = players_upto(m, k, known_players(m, rows, so_far.len()));
    assert(so_far.is_prefix_of(players)) by {
        assert(players.subrange(0, so_far.len() as int) =~= so_far);
    }
    if let Step::Finish(Ok(Answer::Ranking { competition, ranks })) = r {
        assert(is_board(rows, players, ranks@));
    }
}

/// A ranking shows each score with its own player, those found so far before those remembered.
pub proof fn each_score_is_shown_with_its_own_player(svc: &Service, k: Ranking, r: Step)
    requires
        call_ensures(next_rank, (svc, k), r),
    ensures
        goes_on_ranking(svc.caches@, k.competition, k.rows@, k.found@, r),
{
    rankings_go_on(svc.caches@, k, r);
}

/// A ranking shows the first hundred of the scores that were listed, in their order: each line has
/// the next rank, the score of its row, and the name of the player who is remembered for the id in
/// that row. A player who is not remembered is looked up first.
pub proof fn a_ranking_shows_each_score_with_its_player(
    q: ListRanking,
    svc: &Service,
    reply: Result<Vec<PlayerScoreRow>, DbFailure>,
    r: Step,
)
    requires
        call_ensures(ListRanking::resume, (q, svc, reply), r),
    ensures
        match reply {
            Err(f) => breaks_off(r, f),
            Ok(listed) => goes_on_ranking(
                svc.caches@,
                q.competition,
                first_hundred(listed@),
                Seq::empty(),
                r,
            ),
        },
{
    if reply is Ok {
        let listed = reply->Ok_0@;
        let k = choose|k: Ranking|
            k.competition == q.competition && k.rows@ == ranking_page(listed) && k.found@.len()
                == 0 && #[trigger] ranking(svc.caches@, k, r);
        assert(k.rows@ =~= first_hundred(listed));
        assert(k.found@ =~= Seq::empty());
        rankings_go_on(svc.caches@, k, r);
    }
}

/// Whether a ranking goes on with a player who was looked up in the next place, or fails where they
/// are not there.
pub open spec fn takes_player(
    m: Remembered,
    k: Ranking,
    player: Option<PlayerRow>,
    r: Step,
) -> bool {
    match player {
        None => fails_inside(r, "error retrieve_player"@),
        Some(p) => goes_on_ranking(m, k.competition, k.rows@, k.found@ + seq![p], r),
    }
}

proof fn ranked_players_are_taken(m: Remembered, k: Ranking, player: Option<PlayerRow>, r: Step)
    requires
        ranked_player_found(m, k, player, r),
    ensures
        takes_player(m, k, player, r),
{
    if let Some(p) = player {
        let t = choose|t: Ranking|
            t.competition == k.competition && t.rows == k.rows && t.found@ == k.found@.push(p)
                && #[trigger] ranking(m, t, r);
        assert(t.found@ =~= k.found@ + seq![p]);
        rankings_go_on(m, t, r);
    }
}

/// A player who was looked up for a ranking takes the place of the line that was asked for; the
/// players before keep theirs, and those after are the remembered ones. A player who is not there
/// fails the request.
pub proof fn a_player_who_was_looked_up_gets_their_line(
    q: FindPlayer,
    k: Ranking,
    svc: &mut Service,
    reply: Result<Option<PlayerRow>, DbFailure>,
    r: Step,
)
    requires
        q.next == PlayerNext::Ranking(k),
        call_ensures(FindPlayer::resume, (q, svc, reply), r),
    ensures
        match reply {
            Err(f) => breaks_off(r, f),
            Ok(player) => takes_player(final(svc).caches@, k, player, r),
        },
{
    if let Ok(player) = reply {
        ranked_players_are_taken(final(svc).caches@, k, player, r);
    }
}

/// The next line of a ranking is that of the player who is handed in.
pub proof fn the_next_line_is_that_of_the_player(
    svc: &Service,
    k: Ranking,
    player: Option<PlayerRow>,
    r: Step,
)
    requires
        call_ensures(take_ranked_player, (svc, k, player), r),
    ensures
        takes_player(svc.caches@, k, player, r),
{
    ranked_players_are_taken(svc.caches@, k, player, r);
}

/// Whether the competitions `found` are those remembered in the tenant for the rows from place
/// `from` up to place `to`.
pub open spec fn are_remembered_there(
    m: Remembered,
    tenant_id: i64,
    rows: Seq<PlayerScoreRow>,
    found: Seq<CompetitionRow>,
    from: int,
    to: int,
) -> bool {
    forall|i: int|
        from <= i < to ==> m.competitions.contains_key(
            (tenant_id, (#[trigger] rows[i]).competition_id@),
        ) && found[i] == m.competitions[(tenant_id, rows[i].competition_id@)]
}

/// Whether each score is shown as it is, under the title of the competition of the same place.
pub open spec fn is_record(
    rows: Seq<PlayerScoreRow>,
    comps: Seq<CompetitionRow>,
    scores: Seq<PlayerScoreDetail>,
) -> bool {
    &&& scores.len() == rows.len() <= comps.len()
    &&& forall|i: int|
        0 <= i < scores.len() ==> (#[trigger] scores[i]).score == rows[i].score
            && scores[i].competition_title == comps[i].title
}

/// Whether a player's scores go on: the competitions of the first scores are those found so far,
/// and those of the others are the ones remembered in the tenant, whether finished or not. Where
/// all are there, every score is shown under its title. Else the first that is not remembered is
/// looked up.
pub open spec fn goes_on_titling(
    m: Remembered,
    tenant_id: i64,
    player: PlayerRow,
    rows: Seq<PlayerScoreRow>,
    so_far: Seq<CompetitionRow>,
    r: Step,
) -> bool {
    match r {
        Step::Finish(Ok(Answer::Player { player: shown, scores })) => shows_player(player, shown)
            && exists|comps: Seq<CompetitionRow>|
            so_far.is_prefix_of(comps) && are_remembered_there(
                m,
                tenant_id,
                rows,
                comps,
                so_far.len() as int,
                rows.len() as int,
            ) && #[trigger] is_record(rows, comps, scores@),
        Step::FindCompetition(f) => match f.next {
            CompetitionNext::Scores(t) => {
                &&& t.tenant_id == f.tenant_id == tenant_id
                &&& t.player == player
                &&& t.rows@ == rows
                &&& so_far.is_prefix_of(t.found@)
                &&& t.found@.len() < rows.len()
                &&& f.id == rows[t.found@.len() as int].competition_id
                &&& !m.competitions.contains_key((tenant_id, f.id@))
                &&& are_remembered_there(
                    m,
                    tenant_id,
                    rows,
                    t.found@,
                    so_far.len() as int,
                    t.found@.len() as int,
                )
            },
            _ => false,
        },
        _ => false,
    }
}

proof fn known_competitions_end(m: Remembered, tenant_id: i64, rows: Seq<PlayerScoreRow>, n: nat)
    ensures
        n <= known_competitions(m, tenant_id, rows, n),
        n <= rows.len() ==> known_competitions(m, tenant_id, rows, n) <= rows.len(),
        forall|i: int|
            n <= i < known_competitions(m, tenant_id, rows, n) ==> m.competitions.contains_key(
                (tenant_id, (#[trigger] rows[i]).competition_id@),
            ),
        known_competitions(m, tenant_id, rows, n) < rows.len() ==> !m.competitions.contains_key(
            (
                tenant_id,
                rows[known_competitions(m, tenant_id, rows, n) as int].competition_id@,
            ),
        ),
    decreases rows.len() - n,
{
    if n < rows.len() && m.competitions.contains_key(
        (tenant_id, rows[n as int].competition_id@),
    ) {
        known_competitions_end(m, tenant_id, rows, n + 1);
    }
}

proof fn titlings_go_on(m: Remembered, s: PlayerScores, r: Step)
    requires
        titling(m, s, r),
    ensures
        goes_on_titling(m, s.tenant_id, s.player, s.rows@, s.found@, r),
{
    let rows = s.rows@;
    let so_far = s.found@;
    known_competitions_end(m, s.tenant_id, rows, so_far.len());
    let n = known_competitions(m, s.tenant_id, rows, so_far.len());
    let comps = competitions_upto(m, s, n);
    assert(so_far.is_prefix_of(comps)) by {
        assert(comps.subrange(0, so_far.len() as int) =~= so_far);
    }
    if let Step::Finish(Ok(Answer::Player { player, scores })) = r {
        assert(is_record(rows, comps, scores@));
    }
}

/// Each score of a player is shown under the title of its own competition, those found so far
/// before those remembered.
pub proof fn each_score_is_shown_under_its_own_title(svc: &Service, s: PlayerScores, r: Step)
    requires
        call_ensures(next_title, (svc, s), r),
    ensures
        goes_on_titling(svc.caches@, s.tenant_id, s.player, s.rows@, s.found@, r),
{
    titlings_go_on(svc.caches@, s, r);
}

/// A player is shown with all of their scores, in order, each as it is and under the title of the
/// competition remembered for it in the tenant, whether that is finished or not. A competition that
/// is not remembered is looked up first.
pub proof fn a_player_is_shown_with_all_scores(
    q: ListScores,
    svc: &Service,
    reply: Result<Vec<PlayerScoreRow>, DbFailure>,
    r: Step,
)
    requires
        call_ensures(ListScores::resume, (q, svc, reply), r),
    ensures
        match reply {
            Err(f) => breaks_off(r, f),
            Ok(rows) => goes_on_titling(
                svc.caches@,
                q.tenant_id,
                q.player,
                rows@,
                Seq::empty(),
                r,
            ),
        },
{
    if let Ok(rows) = reply {
        let s = choose|s: PlayerScores|
            s.tenant_id == q.tenant_id && s.player == q.player && s.rows == rows && s.found@.len()
                == 0 && #[trigger] titling(svc.caches@, s, r);
        assert(s.found@ =~= Seq::empty());
        titlings_go_on(svc.caches@, s, r);
    }
}

/// Whether a player's scores go on with a competition that was looked up in the next place, or fail
/// where it is not there.
pub open spec fn takes_competition(
    m: Remembered,
    s: PlayerScores,
    comp: Option<CompetitionRow>,
    r: Step,
) -> bool {
    match comp {
        None => fails_inside(r, "error retrieve_competition"@),
        Some(c) => goes_on_titling(m, s.tenant_id, s.player, s.rows@, s.found@ + seq![c], r),
    }
}

proof fn titles_are_taken(m: Remembered, s: PlayerScores, comp: Option<CompetitionRow>, r: Step)
    requires
        title_found(m, s, comp, r),
    ensures
        takes_competition(m, s, comp, r),
{
    if let Some(c) = comp {
        let t = choose|t: PlayerScores|
            t.tenant_id == s.tenant_id && t.player == s.player && t.rows == s.rows && t.found@
                == s.found@.push(c) && #[trigger] titling(m, t, r);
        assert(t.found@ =~= s.found@ + seq![c]);
        titlings_go_on(m, t, r);
    }
}

/// A competition that was looked up for a player's scores gives the score that was asked for its
/// title; those before keep theirs, and those after are the remembered ones. A competition that is
/// not there fails the request.
pub proof fn a_competition_that_was_looked_up_gives_its_title(
    q: FindCompetition,
    s: PlayerScores,
    svc: &mut Service,
    reply: Result<Option<CompetitionRow>, DbFailure>,
    r: Step,
)
    requires
        q.next == CompetitionNext::Scores(s),
        call_ensures(FindCompetition::resume, (q, svc, reply), r),
    ensures
        match reply {
            Err(f) => breaks_off(r, f),
            Ok(comp) => takes_competition(final(svc).caches@, s, comp, r),
        },
{
    if let Ok(comp) = reply {
        titles_are_taken(final(svc).caches@, s, comp, r);
    }
}

/// The next title is that of the competition that is handed in.
pub proof fn the_next_title_is_that_of_the_competition(
    svc: &Service,
    s: PlayerScores,
    comp: Option<CompetitionRow>,
    r: Step,
)
    requires
        call_ensures(take_title, (svc, s, comp), r),
    ensures
        takes_competition(svc.caches@, s, comp, r),
{
    titles_are_taken(svc.caches@, s, comp, r);
}

/// Whether only the visits may differ between what is remembered before and after.
pub open spec fn only_visits_differ(before: Remembered, after: Remembered) -> bool {
    &&& after.players == before.players
    &&& after.competitions == before.competitions
    &&& after.tenants == before.tenants
    &&& after.tenant_names == before.tenant_names
}

/// Whether a visit was taken as it should be: one that is noted at this time or earlier changes
/// nothing, and any other is noted with its time and recorded.
pub open spec fn takes_visit(
    before: Remembered,
    after: Remembered,
    tenant_id: i64,
    entry: RankingEntry,
    now: i64,
    r: Step,
) -> bool {
    let key = (entry.player_id@, tenant_id, entry.competition_id@);
    if before.visits.contains_key(key) && before.visits[key] <= now {
        &&& after.visits == before.visits
        &&& r matches Step::CommitVisit(c) && c.tenant_id == tenant_id && c.entry == entry
    } else {
        &&& after.visits == before.visits.insert(key, now)
        &&& r matches Step::InsertVisit(i) && i.tenant_id == tenant_id && i.entry == entry && i.now
            == now
    }
}

/// A visit to a ranking is recorded for the tenant that is remembered under the id of the viewer's
/// tenant; where none is, the tenant is looked up first.
pub proof fn a_visit_is_recorded_where_it_is_news(
    q: BeginVisit,
    svc: &mut Service,
    reply: Result<(), DbFailure>,
    r: Step,
)
    requires
        call_ensures(BeginVisit::resume, (q, svc, reply), r),
    ensures
        final(svc).rnd == old(svc).rnd,
        only_visits_differ(old(svc).caches@, final(svc).caches@),
        match reply {
            Err(f) => breaks_off(r, f) && final(svc).caches@ == old(svc).caches@,
            Ok(()) => if old(svc).caches@.tenants.contains_key(q.entry.tenant_id) {
                takes_visit(
                    old(svc).caches@,
                    final(svc).caches@,
                    old(svc).caches@.tenants[q.entry.tenant_id].id,
                    q.entry,
                    q.now,
                    r,
                )
            } else {
                final(svc).caches@ == old(svc).caches@ && (r matches Step::FindTenantById(t)
                    && t.entry == q.entry && t.now == q.now)
            },
        },
{
}

/// A tenant that was looked up for a visit is remembered under the id of the viewer's tenant, and
/// the visit is taken as one to it.
pub proof fn a_visit_goes_to_the_tenant_that_was_looked_up(
    q: FindTenantById,
    svc: &mut Service,
    reply: Result<TenantRow, DbFailure>,
    r: Step,
)
    requires
        call_ensures(FindTenantById::resume, (q, svc, reply), r),
    ensures
        final(svc).rnd == old(svc).rnd,
        final(svc).caches@.players == old(svc).caches@.players,
        final(svc).caches@.competitions == old(svc).caches@.competitions,
        final(svc).caches@.tenant_names == old(svc).caches@.tenant_names,
        match reply {
            Err(f) => breaks_off(r, f) && final(svc).caches@ == old(svc).caches@,
            Ok(t) => final(svc).caches@.tenants == old(svc).caches@.tenants.insert(
                q.entry.tenant_id,
                t,
            ) && takes_visit(old(svc).caches@, final(svc).caches@, t.id, q.entry, q.now, r),
        },
{
}

/// A visit that was recorded is committed, and then the ranking is listed from the place that was
/// asked for, in the tenant that the visit went to.
pub proof fn the_ranking_follows_the_visit(
    q: InsertVisit,
    recorded: Result<(), DbFailure>,
    between: Step,
    c: CommitVisit,
    committed: Result<(), DbFailure>,
    r: Step,
)
    requires
        call_ensures(InsertVisit::resume, (q, recorded), between),
        call_ensures(CommitVisit::resume, (c, committed), r),
    ensures
        match recorded {
            Err(f) => breaks_off(between, f),
            Ok(()) => between matches Step::CommitVisit(n) && n.tenant_id == q.tenant_id && n.entry
                == q.entry,
        },
        match committed {
            Err(f) => breaks_off(r, f),
            Ok(()) => r matches Step::ListRanking(l) && l.tenant_id == c.tenant_id
                && l.competition_id == c.entry.competition_id && l.competition
                == c.entry.competition && l.rank_after == (if c.entry.rank_after is Some {
                c.entry.rank_after->0
            } else {
                0
            }),
        },
{
}

/// Whether a player's task has begun: what it asks for is the first thing to be looked up, or to be
/// gone on with where it is remembered.
pub open spec fn begins_task(
    m: Remembered,
    tenant_id: i64,
    task: PlayerTask,
    player_id: String,
    r: Step,
) -> bool {
    match task {
        PlayerTask::Competitions => r matches Step::ListCompetitions(l) && l.tenant_id == tenant_id
            && l.next is Show,
        PlayerTask::Player(id) => if m.players.contains_key(id@) {
            r matches Step::ListScores(l) && l.tenant_id == tenant_id && l.player
                == m.players[id@]
        } else {
            r matches Step::FindPlayer(f) && f.id == id && f.next == (PlayerNext::Show {
                tenant_id,
            })
        },
        PlayerTask::Ranking { competition_id, rank_after } => if m.competitions.contains_key(
            (tenant_id, competition_id@),
        ) {
            enters_ranking(
                tenant_id,
                player_id,
                competition_id,
                rank_after,
                m.competitions[(tenant_id, competition_id@)],
                r,
            )
        } else {
            r matches Step::FindCompetition(f) && f.tenant_id == tenant_id && f.id
                == competition_id && f.next == (CompetitionNext::Ranking { player_id, rank_after })
        },
    }
}

/// Whether the time is read for this player's visit to the ranking of this competition.
pub open spec fn enters_ranking(
    tenant_id: i64,
    player_id: String,
    competition_id: String,
    rank_after: Option<i64>,
    competition: CompetitionRow,
    r: Step,
) -> bool {
    r matches Step::ReadClock(c) && (c.next matches ClockNext::Ranking(e) && e.player_id
        == player_id && e.tenant_id == tenant_id && e.competition_id == competition_id
        && e.competition == competition && e.rank_after == rank_after)
}

/// A player who is remembered gets on with their task, unless they are disqualified. One who is not
/// is looked up first.
pub proof fn remembered_players_get_on(
    q: Connect,
    task: PlayerTask,
    player_id: String,
    svc: &Service,
    reply: Result<(), DbFailure>,
    r: Step,
)
    requires
        q.next == (Connected::Player { task, player_id }),
        call_ensures(Connect::resume, (q, svc, reply), r),
    ensures
        match reply {
            Err(f) => breaks_off(r, f),
            Ok(()) => {
                let m = svc.caches@;
                if !m.players.contains_key(player_id@) {
                    r matches Step::FindPlayer(f) && f.id == player_id && f.next == (
                    PlayerNext::Authorize { tenant_id: q.tenant_id, task })
                } else if m.players[player_id@].is_disqualified {
                    is_turned_away(r, StatusCode::Forbidden, "player is disqualified"@)
                } else {
                    begins_task(m, q.tenant_id, task, player_id, r)
                }
            },
        },
{
}

/// A player who was looked up gets on with their task, unless they are disqualified or not there.
pub proof fn players_who_are_there_get_on(
    q: FindPlayer,
    tenant_id: i64,
    task: PlayerTask,
    svc: &mut Service,
    reply: Result<Option<PlayerRow>, DbFailure>,
    r: Step,
)
    requires
        q.next == (PlayerNext::Authorize { tenant_id, task }),
        call_ensures(FindPlayer::resume, (q, svc, reply), r),
    ensures
        match reply {
            Err(f) => breaks_off(r, f),
            Ok(None) => is_turned_away(r, StatusCode::Unauthorized, "player not found"@),
            Ok(Some(p)) => if p.is_disqualified {
                is_turned_away(r, StatusCode::Forbidden, "player is disqualified"@)
            } else {
                begins_task(final(svc).caches@, tenant_id, task, q.id, r)
            },
        },
{
}

/// A player who is to be shown is, with their scores in the viewer's tenant, or is not found.
pub proof fn a_player_to_be_shown_is_found_or_not(
    q: FindPlayer,
    tenant_id: i64,
    svc: &mut Service,
    reply: Result<Option<PlayerRow>, DbFailure>,
    r: Step,
)
    requires
        q.next == (PlayerNext::Show { tenant_id }),
        call_ensures(FindPlayer::resume, (q, svc, reply), r),
    ensures
        match reply {
            Err(f) => breaks_off(r, f),
            Ok(None) => is_turned_away(r, StatusCode::NotFound, "player not found"@),
            Ok(Some(p)) => r matches Step::ListScores(l) && l.tenant_id == tenant_id && l.player
                == p,
        },
{
}

/// A ranking is entered where its competition is there, and is not found else.
pub proof fn a_ranking_needs_its_competition(
    q: FindCompetition,
    player_id: String,
    rank_after: Option<i64>,
    svc: &mut Service,
    reply: Result<Option<CompetitionRow>, DbFailure>,
    r: Step,
)
    requires
        q.next == (CompetitionNext::Ranking { player_id, rank_after }),
        call_ensures(FindCompetition::resume, (q, svc, reply), r),
    ensures
        match reply {
            Err(f) => breaks_off(r, f),
            Ok(None) => is_turned_away(r, StatusCode::NotFound, "competition not found"@),
            Ok(Some(c)) => enters_ranking(q.tenant_id, player_id, q.id, rank_after, c, r),
        },
{
}

/// Whether somebody is told that they are not logged in at this tenant.
pub open spec fn is_told_to_log_in(tenant: TenantDetail, r: Step) -> bool {
    r matches Step::Finish(Ok(Answer::Me(me))) && me.tenant == Some(tenant) && me.me is None
        && me.role@ == "none"@ && !me.logged_in
}

/// Whether a player is told who they are.
pub open spec fn is_told_who_they_are(tenant: TenantDetail, p: PlayerRow, r: Step) -> bool {
    r matches Step::Finish(Ok(Answer::Me(me))) && me.tenant == Some(tenant) && me.role@
        == "player"@ && me.logged_in && (me.me matches Some(d) && shows_player(p, d))
}

/// A player who asks who they are is told, also where they are disqualified.
pub proof fn players_are_told_who_they_are(
    q: Connect,
    tenant: TenantDetail,
    player_id: String,
    svc: &Service,
    reply: Result<(), DbFailure>,
    r: Step,
)
    requires
        q.next == (Connected::Me { tenant, player_id }),
        call_ensures(Connect::resume, (q, svc, reply), r),
    ensures
        match reply {
            Err(f) => breaks_off(r, f),
            Ok(()) => if svc.caches@.players.contains_key(player_id@) {
                is_told_who_they_are(tenant, svc.caches@.players[player_id@], r)
            } else {
                r matches Step::FindPlayer(f) && f.id == player_id && f.next == (PlayerNext::Me {
                    tenant,
                })
            },
        },
{
}

/// A player who asks who they are and was looked up is told, or told that they are not logged in
/// where they are not there.
pub proof fn players_who_are_there_are_told_who_they_are(
    q: FindPlayer,
    tenant: TenantDetail,
    svc: &mut Service,
    reply: Result<Option<PlayerRow>, DbFailure>,
    r: Step,
)
    requires
        q.next == (PlayerNext::Me { tenant }),
        call_ensures(FindPlayer::resume, (q, svc, reply), r),
    ensures
        match reply {
            Err(f) => breaks_off(r, f),
            Ok(None) => is_told_to_log_in(tenant, r),
            Ok(Some(p)) => is_told_who_they_are(tenant, p, r),
        },
{
}

/// A visit is taken as one to the tenant that is handed in.
pub proof fn a_visit_goes_to_the_tenant_that_is_handed_in(
    svc: &mut Service,
    tenant_id: i64,
    entry: RankingEntry,
    now: i64,
    r: Step,
)
    requires
        call_ensures(update_visit, (svc, tenant_id, entry, now), r),
    ensures
        final(svc).rnd == old(svc).rnd,
        only_visits_differ(old(svc).caches@, final(svc).caches@),
        takes_visit(old(svc).caches@, final(svc).caches@, tenant_id, entry, now, r),
{
}

/// A player's task begins once they were looked up, unless they are disqualified or not there, and
/// they are looked up where they are not remembered.
pub proof fn tasks_begin_with_their_player(
    svc: &Service,
    tenant_id: i64,
    task: PlayerTask,
    player_id: String,
    player: Option<PlayerRow>,
    r1: Step,
    r2: Step,
)
    requires
        call_ensures(authorize_player, (svc, tenant_id, task, player_id, player), r1),
        call_ensures(play, (svc, tenant_id, task, player_id), r2),
    ensures
        lets_player_in(svc.caches@, tenant_id, task, player_id, player, r1),
        if svc.caches@.players.contains_key(player_id@) {
            lets_player_in(
                svc.caches@,
                tenant_id,
                task,
                player_id,
                Some(svc.caches@.players[player_id@]),
                r2,
            )
        } else {
            r2 matches Step::FindPlayer(f) && f.id == player_id && f.next == (
            PlayerNext::Authorize { tenant_id, task })
        },
{
}

/// Whether a player who was looked up is let into their task.
pub open spec fn lets_player_in(
    m: Remembered,
    tenant_id: i64,
    task: PlayerTask,
    player_id: String,
    player: Option<PlayerRow>,
    r: Step,
) -> bool {
    match player {
        None => is_turned_away(r, StatusCode::Unauthorized, "player not found"@),
        Some(p) => if p.is_disqualified {
            is_turned_away(r, StatusCode::Forbidden, "player is disqualified"@)
        } else {
            begins_task(m, tenant_id, task, player_id, r)
        },
    }
}

/// What was looked up is gone on with, or is not found.
pub proof fn what_was_looked_up_is_gone_on_with(
    tenant_id: i64,
    player: Option<PlayerRow>,
    shown: Step,
    player_id: String,
    competition_id: String,
    rank_after: Option<i64>,
    comp: Option<CompetitionRow>,
    entered: Step,
)
    requires
        call_ensures(show, (tenant_id, player), shown),
        call_ensures(
            open_ranking,
            (tenant_id, player_id, competition_id, rank_after, comp),
            entered,
        ),
    ensures
        match player {
            None => is_turned_away(shown, StatusCode::NotFound, "player not found"@),
            Some(p) => shown matches Step::ListScores(l) && l.tenant_id == tenant_id && l.player
                == p,
        },
        match comp {
            None => is_turned_away(entered, StatusCode::NotFound, "competition not found"@),
            Some(c) => enters_ranking(
                tenant_id,
                player_id,
                competition_id,
                rank_after,
                c,
                entered,
            ),
        },
{
}

/// Somebody is told who they are where they are there, and else that they are not logged in.
pub proof fn somebody_is_told_who_they_are(
    tenant: TenantDetail,
    player: Option<PlayerRow>,
    told: Step,
    svc: &Service,
    player_id: String,
    begun: Step,
)
    requires
        call_ensures(introduce, (tenant, player), told),
        call_ensures(begin_introduction, (svc, tenant, player_id), begun),
    ensures
        match player {
            None => is_told_to_log_in(tenant, told),
            Some(p) => is_told_who_they_are(tenant, p, told),
        },
        if svc.caches@.players.contains_key(player_id@) {
            is_told_who_they_are(tenant, svc.caches@.players[player_id@], begun)
        } else {
            begun matches Step::FindPlayer(f) && f.id == player_id && f.next == (PlayerNext::Me {
                tenant,
            })
        },
{
}

/// What is shown of a player and of a competition is their id, their name or title, and whether
/// they are disqualified or finished.
pub proof fn rows_are_shown_as_they_are(
    p: PlayerRow,
    player: PlayerDetail,
    c: CompetitionRow,
    competition: CompetitionDetail,
)
    requires
        call_ensures(PlayerRow::detail, (p,), player),
        call_ensures(CompetitionRow::detail, (c,), competition),
    ensures
        shows_player(p, player),
        shows_competition(c, competition),
{
}

} // verus!
