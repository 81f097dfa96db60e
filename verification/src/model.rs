//! The rows that the service keeps and the details that it answers with.
use vstd::prelude::*;

verus! {

/// A tenant, as the administration database holds it.
#[derive(Debug)]
pub struct TenantRow {
    pub id: i64,
    pub name: String,
    pub display_name: String,
    pub created_at: i64,
    pub updated_at: i64,
}

impl Clone for TenantRow {
    fn clone(&self) -> (r: Self)
        ensures
            r == *self,
    {
        TenantRow {
            id: self.id,
            name: self.name.clone(),
            display_name: self.display_name.clone(),
            created_at: self.created_at,
            updated_at: self.updated_at,
        }
    }
}

/// A player, as the tenant's database holds it.
#[derive(Debug)]
pub struct PlayerRow {
    pub tenant_id: i64,
    pub id: String,
    pub display_name: String,
    pub is_disqualified: bool,
    pub created_at: i64,
    pub updated_at: i64,
}

impl Clone for PlayerRow {
    fn clone(&self) -> (r: Self)
        ensures
            r == *self,
    {
        PlayerRow {
            tenant_id: self.tenant_id,
            id: self.id.clone(),
            display_name: self.display_name.clone(),
            is_disqualified: self.is_disqualified,
            created_at: self.created_at,
            updated_at: self.updated_at,
        }
    }
}

/// A competition, as the tenant's database holds it. It is finished once `finished_at` is set.
#[derive(Debug)]
pub struct CompetitionRow {
    pub tenant_id: i64,
    pub id: String,
    pub title: String,
    pub finished_at: Option<i64>,
    pub created_at: i64,
    pub updated_at: i64,
}

impl Clone for CompetitionRow {
    fn clone(&self) -> (r: Self)
        ensures
            r == *self,
    {
        CompetitionRow {
            tenant_id: self.tenant_id,
            id: self.id.clone(),
            title: self.title.clone(),
            finished_at: self.finished_at,
            created_at: self.created_at,
            updated_at: self.updated_at,
        }
    }
}

/// A player's score in a competition, as the tenant's database holds it.
#[derive(Debug)]
pub struct PlayerScoreRow {
    pub tenant_id: i64,
    pub id: String,
    pub player_id: String,
    pub competition_id: String,
    pub score: i64,
    pub row_num: i64,
    pub created_at: i64,
    pub updated_at: i64,
}

/// When a player first looked at a ranking.
#[derive(Debug)]
pub struct VisitHistorySummaryRow {
    pub player_id: String,
    pub min_created_at: i64,
}

/// What a tenant owes for one competition.
#[derive(Debug)]
pub struct BillingReport {
    pub tenant_id: i64,
    pub competition_id: String,
    pub competition_title: String,
    /// Players with a score.
    pub player_count: i64,
    /// Players without a score who looked at the ranking.
    pub visitor_count: i64,
    pub billing_player_yen: i64,
    pub billing_visitor_yen: i64,
    pub billing_yen: i64,
}

impl Clone for BillingReport {
    fn clone(&self) -> (r: Self)
        ensures
            r == *self,
    {
        BillingReport {
            tenant_id: self.tenant_id,
            competition_id: self.competition_id.clone(),
            competition_title: self.competition_title.clone(),
            player_count: self.player_count,
            visitor_count: self.visitor_count,
            billing_player_yen: self.billing_player_yen,
            billing_visitor_yen: self.billing_visitor_yen,
            billing_yen: self.billing_yen,
        }
    }
}

/// A tenant with what it owes over all of its competitions.
#[derive(Debug)]
pub struct TenantWithBilling {
    pub id: String,
    pub name: String,
    pub display_name: String,
    pub billing_yen: i64,
}

/// What is shown of a player.
#[derive(Debug)]
pub struct PlayerDetail {
    pub id: String,
    pub display_name: String,
    pub is_disqualified: bool,
}

/// What is shown of a player row.
pub open spec fn player_detail(p: PlayerRow) -> PlayerDetail {
    PlayerDetail { id: p.id, display_name: p.display_name, is_disqualified: p.is_disqualified }
}

impl PlayerRow {
    /// What is shown of this player.
    pub fn detail(self) -> (r: PlayerDetail)
        ensures
            r == player_detail(self),
    {
        PlayerDetail {
            id: self.id,
            display_name: self.display_name,
            is_disqualified: self.is_disqualified,
        }
    }
}

/// What is shown of a competition.
#[derive(Debug)]
pub struct CompetitionDetail {
    pub id: String,
    pub title: String,
    pub is_finished: bool,
}

/// What is shown of a competition row.
pub open spec fn competition_detail(c: CompetitionRow) -> CompetitionDetail {
    CompetitionDetail { id: c.id, title: c.title, is_finished: c.finished_at is Some }
}

impl CompetitionRow {
    /// What is shown of this competition.
    pub fn detail(self) -> (r: CompetitionDetail)
        ensures
            r == competition_detail(self),
    {
        CompetitionDetail {
            id: self.id,
            title: self.title,
            is_finished: self.finished_at.is_some(),
        }
    }
}

/// A player's score in a competition, as shown to players.
#[derive(Debug)]
pub struct PlayerScoreDetail {
    pub competition_title: String,
    pub score: i64,
}

/// One line of a ranking. `row_num` is not shown.
#[derive(Debug)]
pub struct CompetitionRank {
    pub rank: i64,
    pub score: i64,
    pub player_id: String,
    pub player_display_name: String,
    pub row_num: i64,
}

/// What is shown of a tenant.
#[derive(Debug)]
pub struct TenantDetail {
    pub name: String,
    pub display_name: String,
}

/// What a visitor is told about themselves.
#[derive(Debug)]
pub struct MeHandlerResult {
    pub tenant: Option<TenantDetail>,
    pub me: Option<PlayerDetail>,
    pub role: String,
    pub logged_in: bool,
}

} // verus!
