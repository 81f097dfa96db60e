//! The questions that a request asks of the world around the service, one after another, until it
//! can be answered. Each question holds what is asked, and what to do with the reply.
use crate::cache::{nothing_remembered, Caches};
use crate::error::{Error, Failure, StatusCode};
use crate::model::{
    BillingReport, CompetitionDetail, CompetitionRank, CompetitionRow, MeHandlerResult,
    PlayerDetail, PlayerRow, PlayerScoreDetail, PlayerScoreRow, TenantDetail, TenantRow,
    TenantWithBilling, VisitHistorySummaryRow,
};
use crate::tenant::{get_env, setting};
use crate::viewer::Identity;
use vstd::prelude::*;

verus! {

/// What the service keeps between requests: the rows that it remembers and the state of its number
/// generator.
pub struct Service {
    pub caches: Caches,
    pub rnd: usize,
}

impl Service {
    /// A service that remembers nothing and has no seed yet.
    pub fn new() -> (r: Self)
        ensures
            r.caches@ == nothing_remembered(),
            r.rnd == 0,
    {
        Service { caches: Caches::new(), rnd: 0 }
    }
}

/// The settings of the service.
#[derive(Debug)]
pub struct Config {
    /// What follows the tenant's name in a host.
    pub base_host: String,
    /// The host of the administration.
    pub admin_host: String,
    /// The file with the key that session tokens are verified with.
    pub key_file: String,
}

impl Clone for Config {
    fn clone(&self) -> (r: Self)
        ensures
            r == *self,
    {
        Config {
            base_host: self.base_host.clone(),
            admin_host: self.admin_host.clone(),
            key_file: self.key_file.clone(),
        }
    }
}

/// What follows the tenant's name in a host, where it is not set.
pub const BASE_HOST: &'static str = ".t.isucon.local";

/// The host of the administration, where it is not set.
pub const ADMIN_HOST: &'static str = "admin.t.isucon.local";

/// The file with the key of session tokens, where it is not set.
pub const KEY_FILE: &'static str = "../public.pem";

impl Config {
    /// The settings from the environment, with the default for each that is not set.
    pub fn new(
        base_host: Option<String>,
        admin_host: Option<String>,
        key_file: Option<String>,
    ) -> (r: Self)
        ensures
            r.base_host@ == setting(base_host, ".t.isucon.local"@),
            r.admin_host@ == setting(admin_host, "admin.t.isucon.local"@),
            r.key_file@ == setting(key_file, "../public.pem"@),
    {
        Config {
            base_host: get_env(base_host, BASE_HOST),
            admin_host: get_env(admin_host, ADMIN_HOST),
            key_file: get_env(key_file, KEY_FILE),
        }
    }
}

/// What an administrator asks for.
#[derive(Debug)]
pub enum AdminTask {
    TenantsAdd { name: String, display_name: String },
    TenantsBilling { before: Option<i64> },
}

/// What an organizer asks for.
#[derive(Debug)]
pub enum OrganizerTask {
    PlayersList,
    PlayersAdd(Vec<(String, String)>),
    PlayerDisqualified(String),
    CompetitionsAdd(String),
    CompetitionFinish(String),
    CompetitionScore(String),
    Billing,
    Competitions,
}

/// What a player asks for.
#[derive(Debug)]
pub enum PlayerTask {
    Player(String),
    Ranking { competition_id: String, rank_after: Option<i64> },
    Competitions,
}

/// The endpoints that look at who makes the request.
#[derive(Debug)]
pub enum Endpoint {
    Admin(AdminTask),
    Organizer(OrganizerTask),
    Player(PlayerTask),
    Me,
}

/// A request: the endpoint, the session cookie and the host that it was sent to.
#[derive(Debug)]
pub struct Request {
    pub endpoint: Endpoint,
    pub cookie: Option<String>,
    pub host: String,
}

/// What an authenticated request goes on to.
#[derive(Debug)]
pub enum Goal {
    Admin(AdminTask),
    Organizer(OrganizerTask),
    Player(PlayerTask),
    Me(TenantDetail),
}

/// A request that is not authenticated yet.
#[derive(Debug)]
pub struct Attempt {
    pub goal: Goal,
    pub cookie: Option<String>,
    pub host: String,
    pub config: Config,
}

/// A reading of the clocks: seconds since 1970, and nanoseconds since the first id was wanted.
#[derive(Debug, Clone, Copy)]
pub struct Moment {
    pub now: i64,
    pub nanos: u128,
}

/// A part of a multipart body.
#[derive(Debug)]
pub enum Field {
    End,
    Failed(String),
    Named(String),
}

/// What a request is answered with.
#[derive(Debug)]
pub enum Answer {
    TenantsAdd(TenantWithBilling),
    TenantsBilling(Vec<TenantWithBilling>),
    Players(Vec<PlayerDetail>),
    PlayerDisqualified(PlayerDetail),
    CompetitionsAdd(CompetitionDetail),
    CompetitionFinish,
    /// Scores were sent for a competition that is finished.
    CompetitionIsFinished,
    Score { rows: i64 },
    Billing(Vec<BillingReport>),
    Player { player: PlayerDetail, scores: Vec<PlayerScoreDetail> },
    Ranking { competition: CompetitionDetail, ranks: Vec<CompetitionRank> },
    Competitions(Vec<CompetitionDetail>),
    Me(MeHandlerResult),
    Initialized,
}

/// The words with which an answer says that nothing was done.
pub open spec fn answer_complaint(a: Answer) -> Option<Seq<char>> {
    match a {
        Answer::CompetitionIsFinished => Some("competition is finished"@),
        _ => None,
    }
}

impl Answer {
    /// The words with which this answer says that nothing was done.
    pub fn complaint(&self) -> (r: Option<&'static str>)
        ensures
            match answer_complaint(*self) {
                Some(words) => r matches Some(text) && text@ == words,
                None => r is None,
            },
    {
        match self {
            Answer::CompetitionIsFinished => Some("competition is finished"),
            _ => None,
        }
    }

    /// The status code of this answer.
    pub fn status_code(&self) -> (r: StatusCode)
        ensures
            r == (if answer_complaint(*self) is Some {
                StatusCode::BadRequest
            } else {
                StatusCode::Success
            }),
    {
        match self {
            Answer::CompetitionIsFinished => StatusCode::BadRequest,
            _ => StatusCode::Success,
        }
    }
}

/// Read the key file.
pub struct ReadKey {
    pub path: String,
    pub token: String,
    pub attempt: Attempt,
}

/// Verify a session token with a key, and read its claims.
pub struct VerifyToken {
    pub token: String,
    pub key: jsonwebtoken::DecodingKey,
    pub attempt: Attempt,
}

/// Find a tenant by its name.
pub struct FindTenantByName {
    pub name: String,
    pub next: TenantNext,
}

/// What a tenant is looked up by its name for.
pub enum TenantNext {
    Viewer { goal: Goal, token: String, identity: Identity },
    Me { cookie: Option<String>, host: String, config: Config },
}

/// Connect to a tenant's database.
pub struct Connect {
    pub tenant_id: i64,
    pub next: Connected,
}

/// What a tenant's database is wanted for.
pub enum Connected {
    Organizer(OrganizerTask),
    Player { task: PlayerTask, player_id: String },
    Me { tenant: TenantDetail, player_id: String },
    Indexes(IndexGoal),
    Setup,
}

/// Find a player by their id.
pub struct FindPlayer {
    pub id: String,
    pub next: PlayerNext,
}

/// What a player is looked up for.
pub enum PlayerNext {
    Authorize { tenant_id: i64, task: PlayerTask },
    Show { tenant_id: i64 },
    Disqualified,
    Upload { upload: Upload, score: String },
    Ranking(Ranking),
    Me { tenant: TenantDetail },
}

/// Find a competition by its id.
pub struct FindCompetition {
    pub tenant_id: i64,
    pub id: String,
    pub next: CompetitionNext,
}

/// What a competition is looked up for.
pub enum CompetitionNext {
    Finish,
    Report(ReportGoal),
    Upload,
    Scores(PlayerScores),
    Ranking { player_id: String, rank_after: Option<i64> },
}

/// Read the clocks.
pub struct ReadClock {
    pub next: ClockNext,
}

/// What the time is wanted for.
pub enum ClockNext {
    TenantsAdd { name: String, display_name: String },
    PlayersAdd { tenant_id: i64, name: String, waiting: Vec<String>, items: Vec<NewPlayer> },
    Disqualify { player_id: String },
    CompetitionsAdd { tenant_id: i64, title: String },
    Finish { tenant_id: i64, id: String },
    Upload { upload: Upload, player_id: String, score: i64 },
    Ranking(RankingEntry),
}

/// Insert a tenant, and tell its id.
pub struct InsertTenant {
    pub name: String,
    pub display_name: String,
    pub now: i64,
}

/// Create a tenant's database.
pub struct CreateTenantDb {
    pub id: i64,
    pub tenant: TenantWithBilling,
}

/// What indexes are added to a tenant's database for: a new tenant, or the set-up of the service.
pub enum IndexGoal {
    TenantsAdd(TenantWithBilling),
    Setup,
}

/// Add an index to a tenant's database.
pub struct AddTenantIndex {
    pub tenant_id: i64,
    pub sql: &'static str,
    pub rest: Vec<&'static str>,
    pub goal: IndexGoal,
}

/// List the tenants, from the highest id down.
pub struct ListTenants {
    pub before: Option<i64>,
}

/// Sum up what a tenant owes.
pub struct SumBilling {
    pub tenant_id: i64,
    pub page: Vec<TenantRow>,
    pub sums: Vec<i64>,
}

/// List the players of a tenant, the newest first.
pub struct ListPlayers {
    pub tenant_id: i64,
}

/// A player to be inserted.
#[derive(Debug)]
pub struct NewPlayer {
    pub id: String,
    pub name: String,
    pub now: i64,
}

/// Insert players into a tenant.
pub struct InsertPlayers {
    pub tenant_id: i64,
    pub items: Vec<NewPlayer>,
}

/// Mark a player as disqualified.
pub struct DisqualifyPlayer {
    pub player_id: String,
    pub now: i64,
}

/// Insert a competition that is not finished.
pub struct InsertCompetition {
    pub id: String,
    pub tenant_id: i64,
    pub title: String,
    pub now: i64,
}

/// Mark a competition as finished.
pub struct FinishCompetition {
    pub tenant_id: i64,
    pub id: String,
    pub now: i64,
}

/// What a billing report is made for: the end of a competition, or the set-up of the service.
pub enum ReportGoal {
    Finish,
    Setup(SetupReports),
}

/// List when each player first visited a competition's ranking.
pub struct ListVisits {
    pub tenant_id: i64,
    pub competition: CompetitionRow,
    pub goal: ReportGoal,
}

/// List the players with a score in a competition.
pub struct ListScored {
    pub tenant_id: i64,
    pub competition: CompetitionRow,
    pub visits: Vec<VisitHistorySummaryRow>,
    pub goal: ReportGoal,
}

/// Insert a billing report.
pub struct InsertReport {
    pub report: BillingReport,
    pub goal: ReportGoal,
}

/// Open the next field of the uploaded multipart body.
pub struct NextField {
    pub tenant_id: i64,
    pub competition_id: String,
}

/// Read the field that was opened last.
pub struct ReadField {
    pub tenant_id: i64,
    pub competition_id: String,
}

/// An uploaded score table: its records, and the rows made of the first of them.
pub struct Upload {
    pub tenant_id: i64,
    pub competition_id: String,
    pub records: Vec<Result<Vec<String>, String>>,
    pub rows: Vec<PlayerScoreRow>,
}

/// Replace the scores of a competition by these, all at once.
pub struct ReplaceScores {
    pub tenant_id: i64,
    pub competition_id: String,
    pub rows: Vec<PlayerScoreRow>,
    pub count: i64,
}

/// List the competitions of a tenant, the newest first.
pub struct ListCompetitions {
    pub tenant_id: i64,
    pub next: CompetitionsNext,
}

/// What competitions are listed for.
pub enum CompetitionsNext {
    Show,
    Billing,
}

/// List the billing reports of a tenant.
pub struct ListReports {
    pub tenant_id: i64,
    pub competitions: Vec<CompetitionRow>,
}

/// List the scores of a player.
pub struct ListScores {
    pub tenant_id: i64,
    pub player: PlayerRow,
}

/// The scores of a player, and the competitions that the first of them belong to.
pub struct PlayerScores {
    pub tenant_id: i64,
    pub player: PlayerRow,
    pub rows: Vec<PlayerScoreRow>,
    pub found: Vec<CompetitionRow>,
}

/// A player who is about to see the ranking of a competition.
pub struct RankingEntry {
    pub player_id: String,
    pub tenant_id: i64,
    pub competition_id: String,
    pub competition: CompetitionRow,
    pub rank_after: Option<i64>,
}

/// Begin the transaction that records a visit.
pub struct BeginVisit {
    pub entry: RankingEntry,
    pub now: i64,
}

/// Find a tenant by its id, in the transaction that records a visit.
pub struct FindTenantById {
    pub entry: RankingEntry,
    pub now: i64,
}

/// Record a visit, in its transaction.
pub struct InsertVisit {
    pub tenant_id: i64,
    pub entry: RankingEntry,
    pub now: i64,
}

/// Commit the transaction that records a visit.
pub struct CommitVisit {
    pub tenant_id: i64,
    pub entry: RankingEntry,
}

/// List the scores of a competition from the best down, at most a hundred of those that follow the
/// first `rank_after`.
pub struct ListRanking {
    pub tenant_id: i64,
    pub competition_id: String,
    pub rank_after: i64,
    pub competition: CompetitionRow,
}

/// A part of a ranking, and the players that the first of its scores belong to.
pub struct Ranking {
    pub competition: CompetitionRow,
    pub rows: Vec<PlayerScoreRow>,
    pub found: Vec<PlayerRow>,
}

/// Run the script that resets the databases.
pub struct RunInitScript {}

/// Run a statement of the set-up on the administration database.
pub struct RunSetup {
    pub sql: &'static str,
    pub rest: Vec<&'static str>,
}

/// List the competitions of a tenant during the set-up.
pub struct ListForSetup {
    pub tenant_id: i64,
}

/// The finished competitions of a tenant that still have to be billed during the set-up.
pub struct SetupReports {
    pub tenant_id: i64,
    pub waiting: Vec<String>,
}

/// Create the index that visits are found by.
pub struct CreateVisitIndex {
    pub sql: &'static str,
}

/// Count the indexes of this name on a table.
pub struct CountIndexes {
    pub table: &'static str,
    pub index: &'static str,
}

/// Drop an index.
pub struct DropIndex {
    pub index: &'static str,
    pub sql: String,
}

/// Tell the collector of measurements to start.
pub struct StartCollector {}

/// What a request does next: ask a question, or finish.
pub enum Step {
    ReadKey(ReadKey),
    VerifyToken(VerifyToken),
    FindTenantByName(FindTenantByName),
    Connect(Connect),
    FindPlayer(FindPlayer),
    FindCompetition(FindCompetition),
    ReadClock(ReadClock),
    InsertTenant(InsertTenant),
    CreateTenantDb(CreateTenantDb),
    AddTenantIndex(AddTenantIndex),
    ListTenants(ListTenants),
    SumBilling(SumBilling),
    ListPlayers(ListPlayers),
    InsertPlayers(InsertPlayers),
    DisqualifyPlayer(DisqualifyPlayer),
    InsertCompetition(InsertCompetition),
    FinishCompetition(FinishCompetition),
    ListVisits(ListVisits),
    ListScored(ListScored),
    InsertReport(InsertReport),
    NextField(NextField),
    ReadField(ReadField),
    ReplaceScores(ReplaceScores),
    ListCompetitions(ListCompetitions),
    ListReports(ListReports),
    ListScores(ListScores),
    BeginVisit(BeginVisit),
    FindTenantById(FindTenantById),
    InsertVisit(InsertVisit),
    CommitVisit(CommitVisit),
    ListRanking(ListRanking),
    RunInitScript(RunInitScript),
    RunSetup(RunSetup),
    ListForSetup(ListForSetup),
    CreateVisitIndex(CreateVisitIndex),
    CountIndexes(CountIndexes),
    DropIndex(DropIndex),
    StartCollector(StartCollector),
    Finish(Result<Answer, Error>),
}

/// Whether a request fails in this way.
pub open spec fn fails(r: Step, f: Failure) -> bool {
    r matches Step::Finish(Err(e)) && e@ == f
}

} // verus!
