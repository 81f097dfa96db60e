//! What administrators do: add tenants, and see what the tenants owe.
use crate::billing::{billing_page, tenants_on_page};
use crate::error::{refusal, DbFailure, Failure, StatusCode};
use crate::model::{TenantRow, TenantWithBilling};
use crate::question::{
    fails, AddTenantIndex, Answer, Connect, Connected, CountIndexes, CreateTenantDb, IndexGoal,
    InsertTenant, ListTenants, Step, SumBilling,
};
use crate::tenant::{
    create_tenant_db, create_tenant_db_command, creation_command, db_file_name, path_in,
    tenant_db_failure, tenant_db_path, CommandOutcome,
};
use crate::text::{decimal, decimal_text, signed_decimal, signed_decimal_text};
use vstd::prelude::*;

verus! {

/// The number of MySQL's error for a duplicate entry.
pub const DUPLICATE_ENTRY: u16 = 1062;

/// The index that a player's scores are found by.
pub const PLAYER_INDEX: &'static str =
    "CREATE INDEX tenant_player_idx ON player_score (tenant_id, player_id);";

/// The index that rankings are read by.
pub const RANKING_INDEX: &'static str =
    "CREATE INDEX ranking_idx ON player_score (tenant_id, competition_id, score DESC, row_num);";

/// The last of the tenants that are there from the beginning. Their ids start at one.
pub const LAST_INITIAL_TENANT: i64 = 100;

/// Whether this is what is told of a tenant that has just been added under `id`.
pub open spec fn is_new_tenant(
    id: u64,
    name: String,
    display_name: String,
    t: TenantWithBilling,
) -> bool {
    &&& t.id@ == decimal(id as nat)
    &&& t.name == name
    &&& t.display_name == display_name
    &&& t.billing_yen == 0
}

impl InsertTenant {
    /// Takes the id of the new tenant, or the failure of the database.
    pub fn resume(self, reply: Result<u64, DbFailure>) -> (r: Step)
        ensures
            match reply {
                Err(f) => if f.number == Some(1062u16) {
                    fails(r, Failure::Custom(StatusCode::BadRequest, "duplicate tenant"@))
                } else {
                    fails(r, Failure::Sqlx(f.text@))
                },
                Ok(id) => r matches Step::CreateTenantDb(q) && q.id == id as i64 && is_new_tenant(
                    id,
                    self.name,
                    self.display_name,
                    q.tenant,
                ),
            },
    {
        match reply {
            Err(f) => {
                if let Some(number) = f.number {
                    if number == DUPLICATE_ENTRY {
                        return Step::Finish(
                            Err(refusal(StatusCode::BadRequest, "duplicate tenant")),
                        );
                    }
                }
                Step::Finish(Err(f.into_error()))
            },
            Ok(id) => Step::CreateTenantDb(
                CreateTenantDb {
                    id: id as i64,
                    tenant: TenantWithBilling {
                        id: decimal_text(id as u128),
                        name: self.name,
                        display_name: self.display_name,
                        billing_yen: 0,
                    },
                },
            ),
        }
    }
}

impl CreateTenantDb {
    /// The shell command that creates this tenant's database, in the directory of the tenants'
    /// databases.
    pub fn command(&self, dir: &str) -> (r: String)
        ensures
            r@ == creation_command(path_in(dir@, db_file_name(self.id))),
    {
        let path = tenant_db_path(dir, self.id);
        create_tenant_db_command(path.as_str())
    }

    /// Takes how that command went.
    pub fn resume(self, dir: &str, outcome: CommandOutcome) -> (r: Step)
        ensures
            match tenant_db_failure(path_in(dir@, db_file_name(self.id)), outcome) {
                Some(f) => fails(r, f),
                None => r == Step::Connect(
                    Connect {
                        tenant_id: self.id,
                        next: Connected::Indexes(IndexGoal::TenantsAdd(self.tenant)),
                    },
                ),
            },
    {
        let path = tenant_db_path(dir, self.id);
        match create_tenant_db(path.as_str(), outcome) {
            Err(e) => Step::Finish(Err(e)),
            Ok(()) => Step::Connect(
                Connect {
                    tenant_id: self.id,
                    next: Connected::Indexes(IndexGoal::TenantsAdd(self.tenant)),
                },
            ),
        }
    }
}

/// The indexes of a tenant's database, in the order in which they are added.
pub open spec fn tenant_indexes() -> Seq<&'static str> {
    seq![PLAYER_INDEX, RANKING_INDEX]
}

/// What follows once a tenant has its indexes. In the set-up that is the next tenant, and after the
/// last one the index that is to be dropped.
pub open spec fn indexed(tenant_id: i64, goal: IndexGoal, r: Step) -> bool {
    match goal {
        IndexGoal::TenantsAdd(tenant) => r == Step::Finish(Ok(Answer::TenantsAdd(tenant))),
        IndexGoal::Setup => if tenant_id < 100 {
            r == Step::Connect(
                Connect {
                    tenant_id: (tenant_id + 1) as i64,
                    next: Connected::Indexes(IndexGoal::Setup),
                },
            )
        } else {
            r matches Step::CountIndexes(q) && q.table@ == "id_generator"@ && q.index@ == "stub"@
        },
    }
}

/// In the set-up, indexes are added to one initial tenant after another up to the last, and then
/// comes the index that is to be dropped.
pub proof fn setup_indexes_the_initial_tenants(tenant_id: i64, r: Step)
    requires
        1 <= tenant_id <= LAST_INITIAL_TENANT,
        indexed(tenant_id, IndexGoal::Setup, r),
    ensures
        match r {
            Step::Connect(q) => q.tenant_id == tenant_id + 1 && q.tenant_id <= LAST_INITIAL_TENANT
                && q.next == Connected::Indexes(IndexGoal::Setup),
            Step::CountIndexes(_) => tenant_id == LAST_INITIAL_TENANT,
            _ => false,
        },
{
}

/// What follows while some indexes of a tenant are left to add.
pub open spec fn indexing(
    tenant_id: i64,
    left: Seq<&'static str>,
    goal: IndexGoal,
    r: Step,
) -> bool {
    if left.len() == 0 {
        indexed(tenant_id, goal, r)
    } else {
        r matches Step::AddTenantIndex(q) && q.tenant_id == tenant_id && q.sql == left[0]
            && q.rest@ == left.skip(1) && q.goal == goal
    }
}

fn next_index(tenant_id: i64, left: Vec<&'static str>, goal: IndexGoal) -> (r: Step)
    ensures
        indexing(tenant_id, left@, goal, r),
{
    let mut left = left;
    if left.len() > 0 {
        let ghost whole = left@;
        let sql = left.remove(0);
        assert(left@ =~= whole.skip(1));
        return Step::AddTenantIndex(AddTenantIndex { tenant_id, sql, rest: left, goal });
    }
    match goal {
        IndexGoal::TenantsAdd(tenant) => Step::Finish(Ok(Answer::TenantsAdd(tenant))),
        IndexGoal::Setup => {
            if tenant_id < LAST_INITIAL_TENANT {
                Step::Connect(
                    Connect {
                        tenant_id: tenant_id + 1,
                        next: Connected::Indexes(IndexGoal::Setup),
                    },
                )
            } else {
                Step::CountIndexes(CountIndexes { table: "id_generator", index: "stub" })
            }
        },
    }
}

/// Adds the indexes to a tenant's database, now that it is open.
pub fn add_index_to_tenant_db(tenant_id: i64, goal: IndexGoal) -> (r: Step)
    ensures
        indexing(tenant_id, tenant_indexes(), goal, r),
{
    let mut left: Vec<&'static str> = Vec::new();
    left.push(PLAYER_INDEX);
    left.push(RANKING_INDEX);
    assert(left@ =~= tenant_indexes());
    next_index(tenant_id, left, goal)
}

impl AddTenantIndex {
    /// Takes whether the index was added.
    pub fn resume(self, reply: Result<(), DbFailure>) -> (r: Step)
        ensures
            match reply {
                Err(f) => fails(r, Failure::Sqlx(f.text@)),
                Ok(()) => indexing(self.tenant_id, self.rest@, self.goal, r),
            },
    {
        match reply {
            Err(f) => Step::Finish(Err(f.into_error())),
            Ok(()) => next_index(self.tenant_id, self.rest, self.goal),
        }
    }
}

/// Whether a line of the billing overview tells that a tenant owes `sum` yen.
pub open spec fn owes(tenant: TenantRow, sum: i64, line: TenantWithBilling) -> bool {
    &&& line.id@ == signed_decimal(tenant.id as int)
    &&& line.name == tenant.name
    &&& line.display_name == tenant.display_name
    &&& line.billing_yen == sum
}

/// What follows while the first sums of a page of the billing overview are known: the next tenant's
/// sum is asked for, and with all of them the page is shown.
pub open spec fn summing(page: Seq<TenantRow>, sums: Seq<i64>, r: Step) -> bool {
    if sums.len() < page.len() {
        r matches Step::SumBilling(q) && q.tenant_id == page[sums.len() as int].id && q.page@
            == page && q.sums@ == sums
    } else {
        r matches Step::Finish(Ok(Answer::TenantsBilling(lines))) && lines@.len() == page.len()
            && forall|i: int|
            0 <= i < page.len() ==> owes(page[i], sums[i], #[trigger] lines@[i])
    }
}

fn next_sum(page: Vec<TenantRow>, sums: Vec<i64>) -> (r: Step)
    ensures
        summing(page@, sums@, r),
{
    let n: usize = sums.len();
    if n < page.len() {
        let tenant_id: i64 = page[n].id;
        return Step::SumBilling(SumBilling { tenant_id, page, sums });
    }
    let mut lines: Vec<TenantWithBilling> = Vec::new();
    let mut i: usize = 0;
    while i < page.len()
        invariant
            i <= page.len() <= sums.len(),
            lines@.len() == i,
            forall|j: int| 0 <= j < i ==> owes(page@[j], sums@[j], #[trigger] lines@[j]),
        decreases page.len() - i,
    {
        let tenant = &page[i];
        lines.push(
            TenantWithBilling {
                id: signed_decimal_text(tenant.id),
                name: tenant.name.clone(),
                display_name: tenant.display_name.clone(),
                billing_yen: sums[i],
            },
        );
        i += 1;
    }
    Step::Finish(Ok(Answer::TenantsBilling(lines)))
}

impl ListTenants {
    /// Takes all tenants, from the highest id down, or the failure of the database.
    pub fn resume(self, reply: Result<Vec<TenantRow>, DbFailure>) -> (r: Step)
        ensures
            match reply {
                Err(f) => fails(r, Failure::Sqlx(f.text@)),
                Ok(tenants) => summing(billing_page(tenants@, self.before), Seq::empty(), r),
            },
    {
        match reply {
            Err(f) => Step::Finish(Err(f.into_error())),
            Ok(tenants) => {
                let page = tenants_on_page(&tenants, self.before);
                next_sum(page, Vec::new())
            },
        }
    }
}

impl SumBilling {
    /// Takes what the tenant owes, or the failure of the database.
    pub fn resume(self, reply: Result<i64, DbFailure>) -> (r: Step)
        ensures
            match reply {
                Err(f) => fails(r, Failure::Sqlx(f.text@)),
                Ok(sum) => summing(self.page@, self.sums@.push(sum), r),
            },
    {
        match reply {
            Err(f) => Step::Finish(Err(f.into_error())),
            Ok(sum) => {
                let mut sums = self.sums;
                sums.push(sum);
                next_sum(self.page, sums)
            },
        }
    }
}

} // verus!
