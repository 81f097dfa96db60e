//! What players see: other players' scores, rankings and competitions, and who they are.
use crate::auth::{anonymous, is_anonymous};
use crate::cache::{looked_up, visit_is_news, Remembered};
use crate::error::{failure_status, internal, refusal, DbFailure, Failure, StatusCode};
use crate::model::{
    competition_detail, player_detail, CompetitionRank, CompetitionRow, MeHandlerResult, PlayerRow,
    PlayerScoreDetail, PlayerScoreRow, TenantDetail, TenantRow,
};
use crate::question::{
    fails, Answer, BeginVisit, ClockNext, CommitVisit, CompetitionNext, CompetitionsNext,
    FindCompetition, FindPlayer, FindTenantById, InsertVisit, ListCompetitions, ListRanking,
    ListScores, PlayerNext, PlayerScores, PlayerTask, Ranking, RankingEntry, ReadClock, Service,
    Step,
};
use vstd::prelude::*;

verus! {

/// The most lines that one page of a ranking shows.
pub const RANKING_PAGE: usize = 100;

/// What a player is told who asks who they are.
pub open spec fn introduced(tenant: TenantDetail, player: Option<PlayerRow>, r: Step) -> bool {
    match player {
        None => r matches Step::Finish(Ok(Answer::Me(me))) && is_anonymous(tenant, me),
        Some(p) => r matches Step::Finish(Ok(Answer::Me(me))) && me.tenant == Some(tenant) && me.me
            == Some(player_detail(p)) && me.role@ == "player"@ && me.logged_in,
    }
}

/// Tells a player who they are.
pub fn introduce(tenant: TenantDetail, player: Option<PlayerRow>) -> (r: Step)
    ensures
        introduced(tenant, player, r),
{
    match player {
        None => Step::Finish(Ok(Answer::Me(anonymous(tenant)))),
        Some(p) => Step::Finish(
            Ok(
                Answer::Me(
                    MeHandlerResult {
                        tenant: Some(tenant),
                        me: Some(p.detail()),
                        role: "player".to_owned(),
                        logged_in: true,
                    },
                ),
            ),
        ),
    }
}

/// What a request for a player's own identity does, once the tenant's database is open.
pub open spec fn introducing(
    m: Remembered,
    tenant: TenantDetail,
    player_id: String,
    r: Step,
) -> bool {
    match looked_up(m.players, player_id@) {
        Some(p) => introduced(tenant, Some(p), r),
        None => r == Step::FindPlayer(
            FindPlayer { id: player_id, next: PlayerNext::Me { tenant } },
        ),
    }
}

/// Looks up who a player is, once the tenant's database is open.
pub fn begin_introduction(svc: &Service, tenant: TenantDetail, player_id: String) -> (r: Step)
    ensures
        introducing(svc.caches@, tenant, player_id, r),
{
    match svc.caches.player(player_id.as_str()) {
        Some(p) => introduce(tenant, Some(p)),
        None => Step::FindPlayer(FindPlayer { id: player_id, next: PlayerNext::Me { tenant } }),
    }
}

/// What a request for a player's scores does, once that player has been looked up.
pub open spec fn showing(tenant_id: i64, player: Option<PlayerRow>, r: Step) -> bool {
    match player {
        None => fails(r, Failure::Custom(StatusCode::NotFound, "player not found"@)),
        Some(p) => r == Step::ListScores(ListScores { tenant_id, player: p }),
    }
}

/// Goes on to a player's scores, once that player has been looked up.
pub fn show(tenant_id: i64, player: Option<PlayerRow>) -> (r: Step)
    ensures
        showing(tenant_id, player, r),
{
    match player {
        None => Step::Finish(Err(refusal(StatusCode::NotFound, "player not found"))),
        Some(player) => Step::ListScores(ListScores { tenant_id, player }),
    }
}

/// How many of the rows, from number `n` on, have a competition that is known, up to the first
/// that has none; counted from the first row.
pub open spec fn known_competitions(
    m: Remembered,
    tenant_id: i64,
    rows: Seq<PlayerScoreRow>,
    n: nat,
) -> nat
    decreases rows.len() - n,
{
    if n < rows.len() && m.competitions.contains_key(
        (tenant_id, rows[n as int].competition_id@),
    ) {
        known_competitions(m, tenant_id, rows, n + 1)
    } else {
        n
    }
}

/// The competitions of the first `n` rows: those that were found, and then those that are
/// remembered.
pub open spec fn competitions_upto(m: Remembered, s: PlayerScores, n: nat) -> Seq<CompetitionRow> {
    Seq::new(
        n,
        |i: int|
            if i < s.found@.len() {
                s.found@[i]
            } else {
                m.competitions[(s.tenant_id, s.rows@[i].competition_id@)]
            },
    )
}

/// The scores as they are shown, with the titles of their competitions.
pub open spec fn score_details(rows: Seq<PlayerScoreRow>, comps: Seq<CompetitionRow>) -> Seq<
    PlayerScoreDetail,
> {
    Seq::new(
        rows.len(),
        |i: int| PlayerScoreDetail { competition_title: comps[i].title, score: rows[i].score },
    )
}

/// What follows while the competitions of a player's first scores are known: the first that is not
/// remembered is looked up, and with all of them the scores are shown.
pub open spec fn titling(m: Remembered, s: PlayerScores, r: Step) -> bool {
    let n = known_competitions(m, s.tenant_id, s.rows@, s.found@.len());
    if n < s.rows@.len() {
        r matches Step::FindCompetition(q) && q.tenant_id == s.tenant_id && q.id
            == s.rows@[n as int].competition_id && (q.next matches CompetitionNext::Scores(t)
            && t.tenant_id == s.tenant_id && t.player == s.player && t.rows == s.rows && t.found@
            == competitions_upto(m, s, n))
    } else {
        r matches Step::Finish(Ok(Answer::Player { player, scores })) && player == player_detail(
            s.player,
        ) && scores@ == score_details(s.rows@, competitions_upto(m, s, n))
    }
}

/// Goes on with the competitions of a player's scores.
pub fn next_title(svc: &Service, s: PlayerScores) -> (r: Step)
    ensures
        titling(svc.caches@, s, r),
{
    let ghost m = svc.caches@;
    let mut t = s;
    let ghost end = known_competitions(m, t.tenant_id, t.rows@, t.found@.len());
    assert(t.found@ =~= competitions_upto(m, s, t.found@.len()));
    while t.found.len() < t.rows.len()
        invariant
            m == svc.caches@,
            t.tenant_id == s.tenant_id,
            t.player == s.player,
            t.rows == s.rows,
            s.found@.len() <= t.found@.len(),
            t.found@ == competitions_upto(m, s, t.found@.len()),
            end == known_competitions(m, s.tenant_id, s.rows@, t.found@.len()),
            end == known_competitions(m, s.tenant_id, s.rows@, s.found@.len()),
        decreases t.rows.len() - t.found.len(),
    {
        let n: usize = t.found.len();
        match svc.caches.competition(t.tenant_id, t.rows[n].competition_id.as_str()) {
            Some(c) => {
                t.found.push(c);
                assert(t.found@ =~= competitions_upto(m, s, t.found@.len()));
            },
            None => {
                let id = t.rows[n].competition_id.clone();
                assert(end == n);
                return Step::FindCompetition(
                    FindCompetition {
                        tenant_id: t.tenant_id,
                        id,
                        next: CompetitionNext::Scores(t),
                    },
                );
            },
        }
    }
    let mut scores: Vec<PlayerScoreDetail> = Vec::with_capacity(t.rows.len());
    let mut i: usize = 0;
    while i < t.rows.len()
        invariant
            i <= t.rows.len() <= t.found.len(),
            scores@ =~= score_details(t.rows@, t.found@).take(i as int),
        decreases t.rows.len() - i,
    {
        scores.push(
            PlayerScoreDetail {
                competition_title: t.found[i].title.clone(),
                score: t.rows[i].score,
            },
        );
        i += 1;
    }
    assert(scores@ =~= score_details(t.rows@, t.found@));
    Step::Finish(Ok(Answer::Player { player: t.player.detail(), scores }))
}

impl ListScores {
    /// Takes the scores of the player, or the failure of the database.
    pub fn resume(self, svc: &Service, reply: Result<Vec<PlayerScoreRow>, DbFailure>) -> (r: Step)
        ensures
            match reply {
                Err(f) => fails(r, Failure::Sqlx(f.text@)),
                Ok(rows) => exists|s: PlayerScores|
                    s.tenant_id == self.tenant_id && s.player == self.player && s.rows == rows
                        && s.found@.len() == 0 && #[trigger] titling(svc.caches@, s, r),
            },
    {
        match reply {
            Err(f) => Step::Finish(Err(f.into_error())),
            Ok(rows) => {
                let s = PlayerScores {
                    tenant_id: self.tenant_id,
                    player: self.player,
                    rows,
                    found: Vec::new(),
                };
                let ghost fresh = s;
                let r = next_title(svc, s);
                assert(titling(svc.caches@, fresh, r));
                r
            },
        }
    }
}

/// What becomes of a player's scores once the competition of the next of them has been looked up.
pub open spec fn title_found(
    m: Remembered,
    s: PlayerScores,
    comp: Option<CompetitionRow>,
    r: Step,
) -> bool {
    match comp {
        None => fails(r, Failure::Internal("error retrieve_competition"@)),
        Some(c) => exists|t: PlayerScores|
            t.tenant_id == s.tenant_id && t.player == s.player && t.rows == s.rows && t.found@
                == s.found@.push(c) && #[trigger] titling(m, t, r),
    }
}

/// Goes on with a player's scores once the competition of the next of them has been looked up.
pub fn take_title(svc: &Service, s: PlayerScores, comp: Option<CompetitionRow>) -> (r: Step)
    ensures
        title_found(svc.caches@, s, comp, r),
{
    match comp {
        None => Step::Finish(Err(internal("error retrieve_competition"))),
        Some(c) => {
            let mut t = s;
            t.found.push(c);
            let ghost grown = t;
            let r = next_title(svc, t);
            assert(titling(svc.caches@, grown, r));
            r
        },
    }
}

/// What a request for a ranking does, once the competition has been looked up.
pub open spec fn ranking_open(
    tenant_id: i64,
    player_id: String,
    competition_id: String,
    rank_after: Option<i64>,
    comp: Option<CompetitionRow>,
    r: Step,
) -> bool {
    match comp {
        None => fails(r, Failure::Custom(StatusCode::NotFound, "competition not found"@)),
        Some(competition) => r == Step::ReadClock(
            ReadClock {
                next: ClockNext::Ranking(
                    RankingEntry {
                        player_id,
                        tenant_id,
                        competition_id,
                        competition,
                        rank_after,
                    },
                ),
            },
        ),
    }
}

/// Goes on to a ranking, once the competition has been looked up.
pub fn open_ranking(
    tenant_id: i64,
    player_id: String,
    competition_id: String,
    rank_after: Option<i64>,
    comp: Option<CompetitionRow>,
) -> (r: Step)
    ensures
        ranking_open(tenant_id, player_id, competition_id, rank_after, comp, r),
{
    match comp {
        None => Step::Finish(Err(refusal(StatusCode::NotFound, "competition not found"))),
        Some(competition) => Step::ReadClock(
            ReadClock {
                next: ClockNext::Ranking(
                    RankingEntry {
                        player_id,
                        tenant_id,
                        competition_id,
                        competition,
                        rank_after,
                    },
                ),
            },
        ),
    }
}

/// The caches after a visit to a ranking.
pub open spec fn with_visit(
    m: Remembered,
    player_id: Seq<char>,
    tenant_id: i64,
    competition_id: Seq<char>,
    now: i64,
) -> Remembered {
    if visit_is_news(m, player_id, tenant_id, competition_id, now) {
        Remembered { visits: m.visits.insert((player_id, tenant_id, competition_id), now), ..m }
    } else {
        m
    }
}

/// What becomes of a visit to a ranking: where it is news it is recorded, and else the ranking
/// follows at once.
pub open spec fn visited(
    m: Remembered,
    tenant_id: i64,
    entry: RankingEntry,
    now: i64,
    r: Step,
) -> bool {
    if visit_is_news(m, entry.player_id@, tenant_id, entry.competition_id@, now) {
        r == Step::InsertVisit(InsertVisit { tenant_id, entry, now })
    } else {
        r == Step::CommitVisit(CommitVisit { tenant_id, entry })
    }
}

/// Notes a visit to a ranking.
pub fn update_visit(svc: &mut Service, tenant_id: i64, entry: RankingEntry, now: i64) -> (r: Step)
    ensures
        final(svc).rnd == old(svc).rnd,
        final(svc).caches@ == with_visit(
            old(svc).caches@,
            entry.player_id@,
            tenant_id,
            entry.competition_id@,
            now,
        ),
        visited(old(svc).caches@, tenant_id, entry, now, r),
{
    if svc.caches.note_visit(
        entry.player_id.as_str(),
        tenant_id,
        entry.competition_id.as_str(),
        now,
    ) {
        Step::InsertVisit(InsertVisit { tenant_id, entry, now })
    } else {
        Step::CommitVisit(CommitVisit { tenant_id, entry })
    }
}

impl BeginVisit {
    /// Takes whether the transaction has begun. The tenant is looked up where it is not remembered.
    pub fn resume(self, svc: &mut Service, reply: Result<(), DbFailure>) -> (r: Step)
        ensures
            final(svc).rnd == old(svc).rnd,
            match reply {
                Err(f) => final(svc).caches@ == old(svc).caches@ && fails(
                    r,
                    Failure::Sqlx(f.text@),
                ),
                Ok(()) => match looked_up(old(svc).caches@.tenants, self.entry.tenant_id) {
                    Some(t) => final(svc).caches@ == with_visit(
                        old(svc).caches@,
                        self.entry.player_id@,
                        t.id,
                        self.entry.competition_id@,
                        self.now,
                    ) && visited(old(svc).caches@, t.id, self.entry, self.now, r),
                    None => final(svc).caches@ == old(svc).caches@ && r == Step::FindTenantById(
                        FindTenantById { entry: self.entry, now: self.now },
                    ),
                },
            },
    {
        match reply {
            Err(f) => Step::Finish(Err(f.into_error())),
            Ok(()) => match svc.caches.tenant(self.entry.tenant_id) {
                Some(t) => update_visit(svc, t.id, self.entry, self.now),
                None => Step::FindTenantById(
                    FindTenantById { entry: self.entry, now: self.now },
                ),
            },
        }
    }
}

/// The caches that remember a tenant under an id.
pub open spec fn with_tenant(m: Remembered, id: i64, t: TenantRow) -> Remembered {
    Remembered { tenants: m.tenants.insert(id, t), ..m }
}

impl FindTenantById {
    /// Takes the tenant, or the failure of the database. The tenant is remembered.
    pub fn resume(self, svc: &mut Service, reply: Result<TenantRow, DbFailure>) -> (r: Step)
        ensures
            final(svc).rnd == old(svc).rnd,
            match reply {
                Err(f) => final(svc).caches@ == old(svc).caches@ && fails(
                    r,
                    Failure::Sqlx(f.text@),
                ),
                Ok(t) => {
                    let m = with_tenant(old(svc).caches@, self.entry.tenant_id, t);
                    final(svc).caches@ == with_visit(
                        m,
                        self.entry.player_id@,
                        t.id,
                        self.entry.competition_id@,
                        self.now,
                    ) && visited(m, t.id, self.entry, self.now, r)
                },
            },
    {
        match reply {
            Err(f) => Step::Finish(Err(f.into_error())),
            Ok(t) => {
                let id: i64 = t.id;
                svc.caches.keep_tenant(self.entry.tenant_id, t);
                update_visit(svc, id, self.entry, self.now)
            },
        }
    }
}

impl InsertVisit {
    /// Takes whether the visit was recorded.
    pub fn resume(self, reply: Result<(), DbFailure>) -> (r: Step)
        ensures
            match reply {
                Err(f) => fails(r, Failure::Sqlx(f.text@)),
                Ok(()) => r == Step::CommitVisit(
                    CommitVisit { tenant_id: self.tenant_id, entry: self.entry },
                ),
            },
    {
        match reply {
            Err(f) => Step::Finish(Err(f.into_error())),
            Ok(()) => Step::CommitVisit(
                CommitVisit { tenant_id: self.tenant_id, entry: self.entry },
            ),
        }
    }
}

impl CommitVisit {
    /// Takes whether the transaction was committed.
    pub fn resume(self, reply: Result<(), DbFailure>) -> (r: Step)
        ensures
            match reply {
                Err(f) => fails(r, Failure::Sqlx(f.text@)),
                Ok(()) => r == Step::ListRanking(
                    ListRanking {
                        tenant_id: self.tenant_id,
                        competition_id: self.entry.competition_id,
                        rank_after: match self.entry.rank_after {
                            Some(n) => n,
                            None => 0,
                        },
                        competition: self.entry.competition,
                    },
                ),
            },
    {
        match reply {
            Err(f) => Step::Finish(Err(f.into_error())),
            Ok(()) => {
                let rank_after: i64 = match self.entry.rank_after {
                    Some(n) => n,
                    None => 0,
                };
                Step::ListRanking(
                    ListRanking {
                        tenant_id: self.tenant_id,
                        competition_id: self.entry.competition_id,
                        rank_after,
                        competition: self.entry.competition,
                    },
                )
            },
        }
    }
}

/// How many of the rows, from number `n` on, have a player who is known, up to the first that has
/// none; counted from the first row.
pub open spec fn known_players(m: Remembered, rows: Seq<PlayerScoreRow>, n: nat) -> nat
    decreases rows.len() - n,
{
    if n < rows.len() && m.players.contains_key(rows[n as int].player_id@) {
        known_players(m, rows, n + 1)
    } else {
        n
    }
}

/// The players of the first `n` rows: those that were found, and then those that are remembered.
pub open spec fn players_upto(m: Remembered, k: Ranking, n: nat) -> Seq<PlayerRow> {
    Seq::new(
        n,
        |i: int|
            if i < k.found@.len() {
                k.found@[i]
            } else {
                m.players[k.rows@[i].player_id@]
            },
    )
}

/// The lines of a ranking. The ranks of every page count from one.
pub open spec fn ranks(rows: Seq<PlayerScoreRow>, players: Seq<PlayerRow>) -> Seq<
    CompetitionRank,
> {
    Seq::new(
        rows.len(),
        |i: int|
            CompetitionRank {
                rank: (i + 1) as i64,
                score: rows[i].score,
                player_id: players[i].id,
                player_display_name: players[i].display_name,
                row_num: 0,
            },
    )
}

/// What follows while the players of the first lines of a ranking are known: the first who is not
/// remembered is looked up, and with all of them the ranking is shown.
pub open spec fn ranking(m: Remembered, k: Ranking, r: Step) -> bool {
    let n = known_players(m, k.rows@, k.found@.len());
    if n < k.rows@.len() {
        r matches Step::FindPlayer(q) && q.id == k.rows@[n as int].player_id && (
        q.next matches PlayerNext::Ranking(t) && t.competition == k.competition && t.rows == k.rows
            && t.found@ == players_upto(m, k, n))
    } else {
        r matches Step::Finish(Ok(Answer::Ranking { competition, ranks: lines })) && competition
            == competition_detail(k.competition) && lines@ == ranks(
            k.rows@,
            players_upto(m, k, n),
        )
    }
}

/// Goes on with the players of a ranking.
pub fn next_rank(svc: &Service, k: Ranking) -> (r: Step)
    ensures
        ranking(svc.caches@, k, r),
{
    let ghost m = svc.caches@;
    let mut t = k;
    let ghost end = known_players(m, t.rows@, t.found@.len());
    assert(t.found@ =~= players_upto(m, k, t.found@.len()));
    while t.found.len() < t.rows.len()
        invariant
            m == svc.caches@,
            t.competition == k.competition,
            t.rows == k.rows,
            k.found@.len() <= t.found@.len(),
            t.found@ == players_upto(m, k, t.found@.len()),
            end == known_players(m, k.rows@, t.found@.len()),
            end == known_players(m, k.rows@, k.found@.len()),
        decreases t.rows.len() - t.found.len(),
    {
        let n: usize = t.found.len();
        match svc.caches.player(t.rows[n].player_id.as_str()) {
            Some(p) => {
                t.found.push(p);
                assert(t.found@ =~= players_upto(m, k, t.found@.len()));
            },
            None => {
                let id = t.rows[n].player_id.clone();
                assert(end == n);
                return Step::FindPlayer(FindPlayer { id, next: PlayerNext::Ranking(t) });
            },
        }
    }
    let mut lines: Vec<CompetitionRank> = Vec::with_capacity(t.rows.len());
    let mut i: usize = 0;
    while i < t.rows.len()
        invariant
            i <= t.rows.len() <= t.found.len(),
            lines@ =~= ranks(t.rows@, t.found@).take(i as int),
        decreases t.rows.len() - i,
    {
        lines.push(
            CompetitionRank {
                rank: (i + 1) as i64,
                score: t.rows[i].score,
                player_id: t.found[i].id.clone(),
                player_display_name: t.found[i].display_name.clone(),
                row_num: 0,
            },
        );
        i += 1;
    }
    assert(lines@ =~= ranks(t.rows@, t.found@));
    Step::Finish(Ok(Answer::Ranking { competition: t.competition.detail(), ranks: lines }))
}

/// The scores that fit on a page of a ranking.
pub open spec fn ranking_page(rows: Seq<PlayerScoreRow>) -> Seq<PlayerScoreRow> {
    if rows.len() <= 100 {
        rows
    } else {
        rows.take(100)
    }
}

impl ListRanking {
    /// Takes the scores from the best down, or the failure of the database. At most a page of them
    /// is shown.
    pub fn resume(self, svc: &Service, reply: Result<Vec<PlayerScoreRow>, DbFailure>) -> (r: Step)
        ensures
            match reply {
                Err(f) => fails(r, Failure::Sqlx(f.text@)),
                Ok(rows) => exists|k: Ranking|
                    k.competition == self.competition && k.rows@ == ranking_page(rows@)
                        && k.found@.len() == 0 && #[trigger] ranking(svc.caches@, k, r),
            },
    {
        match reply {
            Err(f) => Step::Finish(Err(f.into_error())),
            Ok(rows) => {
                let mut rows = rows;
                rows.truncate(RANKING_PAGE);
                let k = Ranking { competition: self.competition, rows, found: Vec::new() };
                let ghost fresh = k;
                let r = next_rank(svc, k);
                assert(ranking(svc.caches@, fresh, r));
                r
            },
        }
    }
}

/// What becomes of a ranking once the player of its next line has been looked up.
pub open spec fn ranked_player_found(
    m: Remembered,
    k: Ranking,
    player: Option<PlayerRow>,
    r: Step,
) -> bool {
    match player {
        None => fails(r, Failure::Internal("error retrieve_player"@)),
        Some(p) => exists|t: Ranking|
            t.competition == k.competition && t.rows == k.rows && t.found@ == k.found@.push(p)
                && #[trigger] ranking(m, t, r),
    }
}

/// Goes on with a ranking once the player of its next line has been looked up.
pub fn take_ranked_player(svc: &Service, k: Ranking, player: Option<PlayerRow>) -> (r: Step)
    ensures
        ranked_player_found(svc.caches@, k, player, r),
{
    match player {
        None => Step::Finish(Err(internal("error retrieve_player"))),
        Some(p) => {
            let mut t = k;
            t.found.push(p);
            let ghost grown = t;
            let r = next_rank(svc, t);
            assert(ranking(svc.caches@, grown, r));
            r
        },
    }
}

/// Why a player is not let in: they are not there, or they are disqualified.
pub open spec fn player_flaw(player: Option<PlayerRow>) -> Option<Failure> {
    match player {
        None => Some(Failure::Custom(StatusCode::Unauthorized, "player not found"@)),
        Some(p) => if p.is_disqualified {
            Some(Failure::Custom(StatusCode::Forbidden, "player is disqualified"@))
        } else {
            None
        },
    }
}

/// What a player's request does once the player has been looked up.
pub open spec fn authorized(
    m: Remembered,
    tenant_id: i64,
    task: PlayerTask,
    player_id: String,
    player: Option<PlayerRow>,
    r: Step,
) -> bool {
    match player_flaw(player) {
        Some(f) => fails(r, f),
        None => match task {
            PlayerTask::Player(id) => match looked_up(m.players, id@) {
                Some(p) => showing(tenant_id, Some(p), r),
                None => r == Step::FindPlayer(
                    FindPlayer { id, next: PlayerNext::Show { tenant_id } },
                ),
            },
            PlayerTask::Ranking { competition_id, rank_after } => match looked_up(
                m.competitions,
                (tenant_id, competition_id@),
            ) {
                Some(c) => ranking_open(
                    tenant_id,
                    player_id,
                    competition_id,
                    rank_after,
                    Some(c),
                    r,
                ),
                None => r == Step::FindCompetition(
                    FindCompetition {
                        tenant_id,
                        id: competition_id,
                        next: CompetitionNext::Ranking { player_id, rank_after },
                    },
                ),
            },
            PlayerTask::Competitions => r == Step::ListCompetitions(
                ListCompetitions { tenant_id, next: CompetitionsNext::Show },
            ),
        },
    }
}

/// Lets a player in who has been looked up, and begins their request.
pub fn authorize_player(
    svc: &Service,
    tenant_id: i64,
    task: PlayerTask,
    player_id: String,
    player: Option<PlayerRow>,
) -> (r: Step)
    ensures
        authorized(svc.caches@, tenant_id, task, player_id, player, r),
{
    match player {
        None => {
            return Step::Finish(Err(refusal(StatusCode::Unauthorized, "player not found")));
        },
        Some(p) => {
            if p.is_disqualified {
                return Step::Finish(
                    Err(refusal(StatusCode::Forbidden, "player is disqualified")),
                );
            }
        },
    }
    match task {
        PlayerTask::Player(id) => match svc.caches.player(id.as_str()) {
            Some(p) => show(tenant_id, Some(p)),
            None => Step::FindPlayer(FindPlayer { id, next: PlayerNext::Show { tenant_id } }),
        },
        PlayerTask::Ranking { competition_id, rank_after } => match svc.caches.competition(
            tenant_id,
            competition_id.as_str(),
        ) {
            Some(c) => open_ranking(tenant_id, player_id, competition_id, rank_after, Some(c)),
            None => Step::FindCompetition(
                FindCompetition {
                    tenant_id,
                    id: competition_id,
                    next: CompetitionNext::Ranking { player_id, rank_after },
                },
            ),
        },
        PlayerTask::Competitions => Step::ListCompetitions(
            ListCompetitions { tenant_id, next: CompetitionsNext::Show },
        ),
    }
}

/// What a player's request does first, once the tenant's database is open.
pub open spec fn playing(
    m: Remembered,
    tenant_id: i64,
    task: PlayerTask,
    player_id: String,
    r: Step,
) -> bool {
    match looked_up(m.players, player_id@) {
        Some(p) => authorized(m, tenant_id, task, player_id, Some(p), r),
        None => r == Step::FindPlayer(
            FindPlayer { id: player_id, next: PlayerNext::Authorize { tenant_id, task } },
        ),
    }
}

/// Begins a player's request, once the tenant's database is open.
pub fn play(svc: &Service, tenant_id: i64, task: PlayerTask, player_id: String) -> (r: Step)
    ensures
        playing(svc.caches@, tenant_id, task, player_id, r),
{
    match svc.caches.player(player_id.as_str()) {
        Some(p) => authorize_player(svc, tenant_id, task, player_id, Some(p)),
        None => Step::FindPlayer(
            FindPlayer { id: player_id, next: PlayerNext::Authorize { tenant_id, task } },
        ),
    }
}

/// A visit that was noted is not recorded again: no later visit of the same player to the same
/// ranking is news.
pub proof fn visits_are_recorded_once(
    m: Remembered,
    player_id: Seq<char>,
    tenant_id: i64,
    competition_id: Seq<char>,
    now: i64,
    later: i64,
)
    requires
        now <= later,
    ensures
        ({
            let after = with_visit(m, player_id, tenant_id, competition_id, now);
            &&& !visit_is_news(after, player_id, tenant_id, competition_id, later)
            &&& with_visit(after, player_id, tenant_id, competition_id, later) == after
        }),
{
}

/// The time that is noted for a visit is that of the earliest one, and what is noted of others
/// stays as it was.
pub proof fn the_earliest_visit_is_noted(
    m: Remembered,
    player_id: Seq<char>,
    tenant_id: i64,
    competition_id: Seq<char>,
    now: i64,
)
    ensures
        ({
            let key = (player_id, tenant_id, competition_id);
            let after = with_visit(m, player_id, tenant_id, competition_id, now);
            &&& looked_up(after.visits, key) == Some(
                match looked_up(m.visits, key) {
                    Some(noted) => if noted <= now {
                        noted
                    } else {
                        now
                    },
                    None => now,
                },
            )
            &&& forall|other: (Seq<char>, i64, Seq<char>)|
                other != key ==> #[trigger] looked_up(after.visits, other) == looked_up(
                    m.visits,
                    other,
                )
        }),
{
}

/// A page of a ranking has at most a hundred lines, and they are numbered from one on without a
/// gap.
pub proof fn ranks_count_from_one(rows: Seq<PlayerScoreRow>, players: Seq<PlayerRow>)
    ensures
        ranking_page(rows).len() <= 100,
        ranks(ranking_page(rows), players).len() == ranking_page(rows).len(),
        forall|i: int|
            0 <= i < ranking_page(rows).len() ==> (#[trigger] ranks(
                ranking_page(rows),
                players,
            )[i]).rank == i + 1,
{
}

/// A ranking keeps the order of the scores that it is made of: where they go down, so do the lines.
pub proof fn ranks_keep_the_order_of_scores(rows: Seq<PlayerScoreRow>, players: Seq<PlayerRow>)
    requires
        forall|i: int, j: int|
            0 <= i < j < rows.len() ==> (#[trigger] rows[i]).score >= (#[trigger] rows[j]).score,
    ensures
        forall|i: int, j: int|
            0 <= i < j < rows.len() ==> (#[trigger] ranks(rows, players)[i]).score >= (
            #[trigger] ranks(rows, players)[j]).score,
{
}

/// Each line of a ranking whose player was not looked up shows the player that is remembered for
/// its score.
pub proof fn ranks_name_their_players(m: Remembered, k: Ranking, i: int)
    requires
        k.found@.len() <= i < known_players(m, k.rows@, k.found@.len()),
    ensures
        i < k.rows@.len(),
        looked_up(m.players, k.rows@[i].player_id@) == Some(
            players_upto(m, k, known_players(m, k.rows@, k.found@.len()))[i],
        ),
{
    known_players_are_known(m, k.rows@, k.found@.len(), i);
}

/// Each score whose competition was not looked up has the title that is remembered for it in the
/// tenant.
pub proof fn titles_belong_to_their_scores(m: Remembered, s: PlayerScores, i: int)
    requires
        s.found@.len() <= i < known_competitions(m, s.tenant_id, s.rows@, s.found@.len()),
    ensures
        i < s.rows@.len(),
        looked_up(m.competitions, (s.tenant_id, s.rows@[i].competition_id@)) == Some(
            competitions_upto(
                m,
                s,
                known_competitions(m, s.tenant_id, s.rows@, s.found@.len()),
            )[i],
        ),
{
    known_competitions_are_known(m, s.tenant_id, s.rows@, s.found@.len(), i);
}

proof fn known_competitions_are_known(
    m: Remembered,
    tenant_id: i64,
    rows: Seq<PlayerScoreRow>,
    n: nat,
    i: int,
)
    requires
        n <= i < known_competitions(m, tenant_id, rows, n),
    ensures
        i < rows.len(),
        m.competitions.contains_key((tenant_id, rows[i].competition_id@)),
    decreases rows.len() - n,
{
    if n < i {
        known_competitions_are_known(m, tenant_id, rows, n + 1, i);
    }
}

/// Whoever is looked up for a ranking is the player of the first line that has none yet, so that
/// players and scores stay side by side.
pub proof fn the_next_player_is_looked_up(m: Remembered, k: Ranking, r: Step)
    requires
        ranking(m, k, r),
        r is FindPlayer,
    ensures
        r->FindPlayer_0.next matches PlayerNext::Ranking(t) && t.rows == k.rows && t.found@.len()
            < t.rows@.len() && r->FindPlayer_0.id == t.rows@[t.found@.len() as int].player_id,
{
}

/// Whatever is looked up for a player's scores is the competition of the first score that has none
/// yet, so that competitions and scores stay side by side.
pub proof fn the_next_competition_is_looked_up(m: Remembered, s: PlayerScores, r: Step)
    requires
        titling(m, s, r),
        r is FindCompetition,
    ensures
        r->FindCompetition_0.next matches CompetitionNext::Scores(t) && t.rows == s.rows
            && t.found@.len() < t.rows@.len() && r->FindCompetition_0.id
            == t.rows@[t.found@.len() as int].competition_id,
        r->FindCompetition_0.tenant_id == s.tenant_id,
{
}

proof fn known_players_are_known(m: Remembered, rows: Seq<PlayerScoreRow>, n: nat, i: int)
    requires
        n <= i < known_players(m, rows, n),
    ensures
        i < rows.len(),
        m.players.contains_key(rows[i].player_id@),
    decreases rows.len() - n,
{
    if n < i {
        known_players_are_known(m, rows, n + 1, i);
    }
}

/// A disqualified player is forbidden everything that players do.
pub proof fn disqualified_players_are_forbidden(
    m: Remembered,
    tenant_id: i64,
    task: PlayerTask,
    player_id: String,
    player: PlayerRow,
    r: Step,
)
    requires
        player.is_disqualified,
        authorized(m, tenant_id, task, player_id, Some(player), r),
    ensures
        r matches Step::Finish(Err(e)) && failure_status(e@)
            == StatusCode::Forbidden,
{
}

/// A disqualification takes effect at once: nothing that was remembered of the player lets them in
/// before they have been looked up again.
pub proof fn disqualification_takes_effect(
    m: Remembered,
    tenant_id: i64,
    task: PlayerTask,
    player_id: String,
    r: Step,
)
    requires
        playing(
            Remembered { players: m.players.remove(player_id@), ..m },
            tenant_id,
            task,
            player_id,
            r,
        ),
    ensures
        r == Step::FindPlayer(
            FindPlayer { id: player_id, next: PlayerNext::Authorize { tenant_id, task } },
        ),
{
}

/// The page of a ranking that follows its first `offset` scores.
pub open spec fn page_after(all: Seq<PlayerScoreRow>, offset: nat) -> Seq<PlayerScoreRow> {
    if offset < all.len() {
        ranking_page(all.skip(offset as int))
    } else {
        Seq::empty()
    }
}

/// The first `n` pages of a ranking, one after another: those that follow the first 0, 100, 200 and
/// so on of its scores.
pub open spec fn first_pages(all: Seq<PlayerScoreRow>, n: nat) -> Seq<PlayerScoreRow>
    decreases n,
{
    if n == 0 {
        Seq::empty()
    } else {
        first_pages(all, (n - 1) as nat) + page_after(all, (100 * (n - 1)) as nat)
    }
}

/// A page and what follows it are all that followed before the page. A page that is not full is the
/// last one. What fits on a page is not cut further.
pub proof fn pages_leave_nothing_out(all: Seq<PlayerScoreRow>, offset: nat)
    requires
        offset <= all.len(),
    ensures
        offset + 100 <= all.len() ==> page_after(all, offset).len() == 100,
        offset + 100 <= all.len() ==> page_after(all, offset) + all.skip(offset as int + 100)
            == all.skip(offset as int),
        all.len() <= offset + 100 ==> page_after(all, offset) == all.skip(offset as int),
        ranking_page(page_after(all, offset)) == page_after(all, offset),
{
    if offset + 100 <= all.len() {
        assert(page_after(all, offset) =~= all.subrange(offset as int, offset as int + 100));
        assert(page_after(all, offset) + all.skip(offset as int + 100) =~= all.skip(offset as int));
    }
    if all.len() <= offset + 100 {
        assert(page_after(all, offset) =~= all.skip(offset as int));
    }
}

/// Going from page to page, a hundred at a time, lists every score of a ranking once and in order:
/// the first `n` pages are the first hundred times `n` scores, or all of them.
pub proof fn ranking_pages_follow_one_another(all: Seq<PlayerScoreRow>, n: nat)
    ensures
        100 * n <= all.len() ==> first_pages(all, n) == all.take(100 * n as int),
        all.len() <= 100 * n ==> first_pages(all, n) == all,
        forall|i: nat|
            100 * (i + 1) <= all.len() ==> (#[trigger] page_after(all, 100 * i)).len() == 100,
        forall|i: nat|
            all.len() <= 100 * i ==> (#[trigger] page_after(all, 100 * i)).len() == 0,
    decreases n,
{
    assert forall|i: nat| 100 * (i + 1) <= all.len() implies (#[trigger] page_after(
        all,
        100 * i,
    )).len() == 100 by {
        pages_leave_nothing_out(all, 100 * i);
    }
    if n == 0 {
        assert(first_pages(all, n) =~= all.take(0));
        if all.len() == 0 {
            assert(first_pages(all, n) =~= all);
        }
    } else {
        let m = (n - 1) as nat;
        ranking_pages_follow_one_another(all, m);
        if 100 * m <= all.len() {
            pages_leave_nothing_out(all, 100 * m);
            let page = page_after(all, 100 * m);
            assert(all.take(100 * m as int) + all.skip(100 * m as int) =~= all);
            if 100 * n <= all.len() {
                assert(page =~= all.subrange(100 * m as int, 100 * n as int));
                assert(all.take(100 * m as int) + page =~= all.take(100 * n as int));
                assert(all.take(all.len() as int) =~= all);
            }
        } else {
            assert(first_pages(all, n) =~= all);
        }
    }
}

/// The lines of the first `n` pages of a ranking, one after another, where `players` gives the
/// players of each page.
pub open spec fn first_lines(
    all: Seq<PlayerScoreRow>,
    players: Seq<Seq<PlayerRow>>,
    n: nat,
) -> Seq<CompetitionRank>
    decreases n,
{
    if n == 0 {
        Seq::empty()
    } else {
        first_lines(all, players, (n - 1) as nat) + ranks(
            page_after(all, (100 * (n - 1)) as nat),
            players[n - 1],
        )
    }
}

/// The lines of successive pages show the scores of the ranking one for one: each score once, in
/// order, and going down throughout where the scores do.
pub proof fn lines_of_all_pages_show_every_score_once(
    all: Seq<PlayerScoreRow>,
    players: Seq<Seq<PlayerRow>>,
    n: nat,
)
    requires
        all.len() <= 100 * n,
    ensures
        first_lines(all, players, n).len() == all.len(),
        forall|i: int|
            0 <= i < all.len() ==> (#[trigger] first_lines(all, players, n)[i]).score
                == all[i].score,
        (forall|i: int, j: int|
            0 <= i < j < all.len() ==> (#[trigger] all[i]).score >= (#[trigger] all[j]).score)
            ==> forall|i: int, j: int|
            0 <= i < j < all.len() ==> (#[trigger] first_lines(all, players, n)[i]).score >= (
            #[trigger] first_lines(all, players, n)[j]).score,
{
    lines_follow_their_pages(all, players, n);
    ranking_pages_follow_one_another(all, n);
}

proof fn lines_follow_their_pages(
    all: Seq<PlayerScoreRow>,
    players: Seq<Seq<PlayerRow>>,
    n: nat,
)
    ensures
        first_lines(all, players, n).len() == first_pages(all, n).len(),
        forall|i: int|
            0 <= i < first_pages(all, n).len() ==> (#[trigger] first_lines(
                all,
                players,
                n,
            )[i]).score == first_pages(all, n)[i].score,
    decreases n,
{
    if n > 0 {
        lines_follow_their_pages(all, players, (n - 1) as nat);
        let before = first_lines(all, players, (n - 1) as nat);
        let page = page_after(all, (100 * (n - 1)) as nat);
        let lines = ranks(page, players[n - 1]);
        assert forall|i: int| 0 <= i < first_pages(all, n).len() implies (#[trigger] first_lines(
            all,
            players,
            n,
        )[i]).score == first_pages(all, n)[i].score by {
            if i < before.len() {
                assert(first_lines(all, players, n)[i] == before[i]);
            } else {
                assert(first_lines(all, players, n)[i] == lines[i - before.len()]);
            }
        }
    }
}

} // verus!
