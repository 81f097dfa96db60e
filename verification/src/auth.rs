//! Who may do what: every request but the set-up is authenticated and admitted here.
use crate::cache::Remembered;
use crate::error::{
    failure_status, failure_text, internal, joined, joined3, refusal, DbFailure, Error, Failure,
    StatusCode,
};
use crate::model::{MeHandlerResult, TenantDetail, TenantRow};
use crate::question::{
    fails, AdminTask, Answer, Attempt, ClockNext, Config, Connect, Connected, Endpoint,
    FindTenantByName, Goal, ListTenants, ReadClock, ReadKey, Request, Service, Step, TenantNext,
    VerifyToken,
};
use crate::tenant::{
    get_tenant_row_from_name, host_tenant, is_tenant_name, retrieve_tenant_row_from_header,
    validate_tenant_name, HostTenant, ADMIN_TENANT,
};
use crate::text::same_text;
use crate::viewer::{
    decoding_key, identify, identity_of, recognize, role_name, rsa_key_of, token_flaw,
    unauthorized, viewer_flaw, viewer_of, Claims, Identity, Role, Viewer, COOKIE_NAME,
};
use vstd::prelude::*;

verus! {

/// Whether this is what a visitor of a tenant is told who is not logged in.
pub open spec fn is_anonymous(tenant: TenantDetail, me: MeHandlerResult) -> bool {
    &&& me.tenant == Some(tenant)
    &&& me.me is None
    &&& me.role@ == "none"@
    &&& !me.logged_in
}

/// What a visitor of a tenant is told who is not logged in.
pub fn anonymous(tenant: TenantDetail) -> (r: MeHandlerResult)
    ensures
        is_anonymous(tenant, r),
{
    MeHandlerResult { tenant: Some(tenant), me: None, role: "none".to_owned(), logged_in: false }
}

/// What becomes of a request whose authentication fails. Whoever only asks who they are is told
/// that they are not logged in, where that is the failure.
pub open spec fn refused(goal: Goal, f: Failure, r: Step) -> bool {
    match goal {
        Goal::Me(tenant) => if failure_status(f) == StatusCode::Unauthorized {
            r matches Step::Finish(Ok(Answer::Me(me))) && is_anonymous(tenant, me)
        } else {
            fails(r, Failure::Internal("error parse_viewer: "@ + failure_text(f)))
        },
        _ => fails(r, f),
    }
}

fn refuse(goal: Goal, e: Error) -> (r: Step)
    ensures
        refused(goal, e@, r),
{
    match goal {
        Goal::Me(tenant) => {
            match e.status_code() {
                StatusCode::Unauthorized => Step::Finish(Ok(Answer::Me(anonymous(tenant)))),
                _ => {
                    let text = e.text();
                    Step::Finish(
                        Err(Error::Internal(joined("error parse_viewer: ", text.as_str()))),
                    )
                },
            }
        },
        _ => Step::Finish(Err(e)),
    }
}

/// What a request with these cookies goes on to: without the session cookie it is refused, and
/// with it the key is read that the token is verified with.
pub open spec fn authenticating(a: Attempt, r: Step) -> bool {
    match a.cookie {
        None => refused(
            a.goal,
            unauthorized("cookie "@ + COOKIE_NAME@ + " is not found"@),
            r,
        ),
        Some(token) => r == Step::ReadKey(
            ReadKey { path: a.config.key_file, token, attempt: a },
        ),
    }
}

fn authenticate(a: Attempt) -> (r: Step)
    ensures
        authenticating(a, r),
{
    match &a.cookie {
        None => {
            let message = joined3("cookie ", COOKIE_NAME, " is not found");
            refuse(a.goal, Error::Custom(StatusCode::Unauthorized, message))
        },
        Some(token) => {
            let path = a.config.key_file.clone();
            let token = token.clone();
            Step::ReadKey(ReadKey { path, token, attempt: a })
        },
    }
}

/// What a request for one's own identity goes on to once the tenant at its host is known.
pub open spec fn me_at_tenant(
    tenant: Option<TenantRow>,
    cookie: Option<String>,
    host: String,
    config: Config,
    r: Step,
) -> bool {
    match tenant {
        None => fails(r, Failure::Internal("error retrieve_tenant_row_from_header"@)),
        Some(t) => authenticating(
            Attempt {
                goal: Goal::Me(TenantDetail { name: t.name, display_name: t.display_name }),
                cookie,
                host,
                config,
            },
            r,
        ),
    }
}

fn me_with_tenant(
    tenant: Option<TenantRow>,
    cookie: Option<String>,
    host: String,
    config: Config,
) -> (r: Step)
    ensures
        me_at_tenant(tenant, cookie, host, config, r),
{
    match tenant {
        None => Step::Finish(Err(internal("error retrieve_tenant_row_from_header"))),
        Some(t) => authenticate(
            Attempt {
                goal: Goal::Me(TenantDetail { name: t.name, display_name: t.display_name }),
                cookie,
                host,
                config,
            },
        ),
    }
}

/// What a request starts with. The billing overview is only there at the host of the
/// administration, and whoever asks who they are is first told apart by the tenant.
pub open spec fn started(m: Remembered, config: Config, request: Request, r: Step) -> bool {
    match request.endpoint {
        Endpoint::Admin(task) => if task is TenantsBilling && request.host@
            != config.admin_host@ {
            fails(
                r,
                Failure::Custom(StatusCode::NotFound, "invalid hostname "@ + request.host@),
            )
        } else {
            authenticating(
                Attempt {
                    goal: Goal::Admin(task),
                    cookie: request.cookie,
                    host: request.host,
                    config,
                },
                r,
            )
        },
        Endpoint::Organizer(task) => authenticating(
            Attempt {
                goal: Goal::Organizer(task),
                cookie: request.cookie,
                host: request.host,
                config,
            },
            r,
        ),
        Endpoint::Player(task) => authenticating(
            Attempt {
                goal: Goal::Player(task),
                cookie: request.cookie,
                host: request.host,
                config,
            },
            r,
        ),
        Endpoint::Me => exists|t: HostTenant| #[trigger]
            host_tenant(m, request.host@, config.base_host@, t) && match t {
                HostTenant::Known(row) => me_at_tenant(
                    Some(row),
                    request.cookie,
                    request.host,
                    config,
                    r,
                ),
                HostTenant::Unknown(name) => r == Step::FindTenantByName(
                    FindTenantByName {
                        name,
                        next: TenantNext::Me {
                            cookie: request.cookie,
                            host: request.host,
                            config,
                        },
                    },
                ),
            },
    }
}

/// Starts a request.
pub fn start(svc: &Service, config: Config, request: Request) -> (r: Step)
    ensures
        started(svc.caches@, config, request, r),
{
    let Request { endpoint, cookie, host } = request;
    match endpoint {
        Endpoint::Admin(task) => {
            let at_admin_host = same_text(host.as_str(), config.admin_host.as_str());
            match &task {
                AdminTask::TenantsBilling { .. } => {
                    if !at_admin_host {
                        let message = joined("invalid hostname ", host.as_str());
                        return Step::Finish(Err(Error::Custom(StatusCode::NotFound, message)));
                    }
                },
                AdminTask::TenantsAdd { .. } => {},
            }
            authenticate(Attempt { goal: Goal::Admin(task), cookie, host, config })
        },
        Endpoint::Organizer(task) => authenticate(
            Attempt { goal: Goal::Organizer(task), cookie, host, config },
        ),
        Endpoint::Player(task) => authenticate(
            Attempt { goal: Goal::Player(task), cookie, host, config },
        ),
        Endpoint::Me => {
            let t = retrieve_tenant_row_from_header(
                &svc.caches,
                host.as_str(),
                config.base_host.as_str(),
            );
            assert(host_tenant(svc.caches@, host@, config.base_host@, t));
            match t {
                HostTenant::Known(row) => me_with_tenant(Some(row), cookie, host, config),
                HostTenant::Unknown(name) => Step::FindTenantByName(
                    FindTenantByName { name, next: TenantNext::Me { cookie, host, config } },
                ),
            }
        },
    }
}

impl ReadKey {
    /// Takes the contents of the key file, or why it could not be read.
    pub fn resume(self, reply: Result<Vec<u8>, String>) -> (r: Step)
        ensures
            match reply {
                Err(cause) => refused(
                    self.attempt.goal,
                    Failure::Internal(
                        "error fs::read: key_filename="@ + self.path@ + (": "@ + cause@),
                    ),
                    r,
                ),
                Ok(pem) => match rsa_key_of(pem@) {
                    Err(cause) => refused(
                        self.attempt.goal,
                        Failure::Internal(
                            "error jsonwebtoken::DecodingKey::from_rsa_pem: "@ + cause,
                        ),
                        r,
                    ),
                    Ok(key) => r == Step::VerifyToken(
                        VerifyToken { token: self.token, key, attempt: self.attempt },
                    ),
                },
            },
    {
        match reply {
            Err(cause) => {
                let end = joined(": ", cause.as_str());
                let message = joined3(
                    "error fs::read: key_filename=",
                    self.path.as_str(),
                    end.as_str(),
                );
                refuse(self.attempt.goal, Error::Internal(message))
            },
            Ok(pem) => self.take_key(decoding_key(pem.as_slice())),
        }
    }

    /// Takes the key that was in the file, or the error that stands for there being none.
    pub fn take_key(self, key: Result<jsonwebtoken::DecodingKey, Error>) -> (r: Step)
        ensures
            match key {
                Err(e) => refused(self.attempt.goal, e@, r),
                Ok(key) => r == Step::VerifyToken(
                    VerifyToken { token: self.token, key, attempt: self.attempt },
                ),
            },
    {
        match key {
            Err(e) => refuse(self.attempt.goal, e),
            Ok(key) => Step::VerifyToken(
                VerifyToken { token: self.token, key, attempt: self.attempt },
            ),
        }
    }
}

/// What a viewer is let into: each goal asks for its role, and adding a tenant also for the
/// administration's own host and for a name that follows the rule.
pub open spec fn admitted(goal: Goal, v: Viewer, r: Step) -> bool {
    match goal {
        Goal::Admin(AdminTask::TenantsAdd { name, display_name }) => if v.tenant_name@
            != "admin"@ {
            fails(
                r,
                Failure::Custom(StatusCode::NotFound, v.tenant_name@ + " has not this API"@),
            )
        } else if v.role != Role::Admin {
            fails(r, Failure::Custom(StatusCode::Forbidden, "admin role required"@))
        } else if !is_tenant_name(name@) {
            fails(r, Failure::Custom(StatusCode::BadRequest, "invalid tenant name: "@ + name@))
        } else {
            r == Step::ReadClock(
                ReadClock { next: ClockNext::TenantsAdd { name, display_name } },
            )
        },
        Goal::Admin(AdminTask::TenantsBilling { before }) => if v.role != Role::Admin {
            fails(r, Failure::Custom(StatusCode::Forbidden, "admin role required"@))
        } else {
            r == Step::ListTenants(ListTenants { before })
        },
        Goal::Organizer(task) => if v.role != Role::Organizer {
            fails(r, Failure::Custom(StatusCode::Forbidden, "role organizer required"@))
        } else {
            r == Step::Connect(
                Connect { tenant_id: v.tenant_id, next: Connected::Organizer(task) },
            )
        },
        Goal::Player(task) => if v.role != Role::Player {
            fails(r, Failure::Custom(StatusCode::Forbidden, "role player required"@))
        } else {
            r == Step::Connect(
                Connect {
                    tenant_id: v.tenant_id,
                    next: Connected::Player { task, player_id: v.player_id },
                },
            )
        },
        Goal::Me(tenant) => if v.role == Role::Player {
            r == Step::Connect(
                Connect {
                    tenant_id: v.tenant_id,
                    next: Connected::Me { tenant, player_id: v.player_id },
                },
            )
        } else {
            r matches Step::Finish(Ok(Answer::Me(me))) && me.tenant == Some(tenant)
                && me.me is None && me.role@ == role_name(v.role) && me.logged_in
        },
    }
}

/// Lets a viewer into what the request is for, or turns them away.
pub fn let_in(goal: Goal, v: Viewer) -> (r: Step)
    ensures
        admitted(goal, v, r),
{
    match goal {
        Goal::Admin(AdminTask::TenantsAdd { name, display_name }) => {
            if !same_text(v.tenant_name.as_str(), ADMIN_TENANT) {
                let message = joined(v.tenant_name.as_str(), " has not this API");
                return Step::Finish(Err(Error::Custom(StatusCode::NotFound, message)));
            }
            if v.role != Role::Admin {
                return Step::Finish(Err(refusal(StatusCode::Forbidden, "admin role required")));
            }
            match validate_tenant_name(name.as_str()) {
                Err(e) => Step::Finish(Err(e)),
                Ok(()) => Step::ReadClock(
                    ReadClock { next: ClockNext::TenantsAdd { name, display_name } },
                ),
            }
        },
        Goal::Admin(AdminTask::TenantsBilling { before }) => {
            if v.role != Role::Admin {
                return Step::Finish(Err(refusal(StatusCode::Forbidden, "admin role required")));
            }
            Step::ListTenants(ListTenants { before })
        },
        Goal::Organizer(task) => {
            if v.role != Role::Organizer {
                return Step::Finish(
                    Err(refusal(StatusCode::Forbidden, "role organizer required")),
                );
            }
            Step::Connect(Connect { tenant_id: v.tenant_id, next: Connected::Organizer(task) })
        },
        Goal::Player(task) => {
            if v.role != Role::Player {
                return Step::Finish(Err(refusal(StatusCode::Forbidden, "role player required")));
            }
            Step::Connect(
                Connect {
                    tenant_id: v.tenant_id,
                    next: Connected::Player { task, player_id: v.player_id },
                },
            )
        },
        Goal::Me(tenant) => {
            if v.role == Role::Player {
                return Step::Connect(
                    Connect {
                        tenant_id: v.tenant_id,
                        next: Connected::Me { tenant, player_id: v.player_id },
                    },
                );
            }
            Step::Finish(
                Ok(
                    Answer::Me(
                        MeHandlerResult {
                            tenant: Some(tenant),
                            me: None,
                            role: v.role.name().to_owned(),
                            logged_in: true,
                        },
                    ),
                ),
            )
        },
    }
}

/// What becomes of an identity at the host of `tenant`.
pub open spec fn viewer_decided(
    goal: Goal,
    token: Seq<char>,
    identity: Identity,
    tenant: Option<TenantRow>,
    r: Step,
) -> bool {
    match viewer_flaw(token, identity, tenant) {
        Some(f) => refused(goal, f, r),
        None => admitted(goal, viewer_of(identity, tenant->0), r),
    }
}

fn decide_viewer(goal: Goal, token: &str, identity: Identity, tenant: Option<TenantRow>) -> (r:
    Step)
    ensures
        viewer_decided(goal, token@, identity, tenant, r),
{
    match recognize(token, identity, tenant) {
        Err(e) => refuse(goal, e),
        Ok(v) => let_in(goal, v),
    }
}

/// What the claims of a verified token lead to: a refusal, or the tenant at the host, as far as
/// it is known.
pub open spec fn claims_taken(
    m: Remembered,
    a: Attempt,
    token: String,
    claims: Claims,
    r: Step,
) -> bool {
    match token_flaw(token@, claims) {
        Some(f) => refused(a.goal, f, r),
        None => exists|t: HostTenant| #[trigger]
            host_tenant(m, a.host@, a.config.base_host@, t) && match t {
                HostTenant::Known(row) => viewer_decided(
                    a.goal,
                    token@,
                    identity_of(claims),
                    Some(row),
                    r,
                ),
                HostTenant::Unknown(name) => r == Step::FindTenantByName(
                    FindTenantByName {
                        name,
                        next: TenantNext::Viewer {
                            goal: a.goal,
                            token,
                            identity: identity_of(claims),
                        },
                    },
                ),
            },
    }
}

impl VerifyToken {
    /// Takes the claims of the token, or why it could not be verified.
    pub fn resume(self, svc: &Service, reply: Result<Claims, String>) -> (r: Step)
        ensures
            match reply {
                Err(cause) => refused(
                    self.attempt.goal,
                    unauthorized("error jsonwebtoken::decode: "@ + cause@),
                    r,
                ),
                Ok(claims) => claims_taken(svc.caches@, self.attempt, self.token, claims, r),
            },
    {
        let VerifyToken { token, key: _, attempt: a } = self;
        match reply {
            Err(cause) => {
                let message = joined("error jsonwebtoken::decode: ", cause.as_str());
                refuse(a.goal, Error::Custom(StatusCode::Unauthorized, message))
            },
            Ok(claims) => match identify(token.as_str(), claims) {
                Err(e) => refuse(a.goal, e),
                Ok(identity) => {
                    let t = retrieve_tenant_row_from_header(
                        &svc.caches,
                        a.host.as_str(),
                        a.config.base_host.as_str(),
                    );
                    assert(host_tenant(svc.caches@, a.host@, a.config.base_host@, t));
                    match t {
                        HostTenant::Known(row) => decide_viewer(
                            a.goal,
                            token.as_str(),
                            identity,
                            Some(row),
                        ),
                        HostTenant::Unknown(name) => Step::FindTenantByName(
                            FindTenantByName {
                                name,
                                next: TenantNext::Viewer { goal: a.goal, token, identity },
                            },
                        ),
                    }
                },
            },
        }
    }
}

/// The caches after the database was asked for a tenant by its name: a tenant that was found is
/// remembered.
pub open spec fn with_tenant_named(
    m: Remembered,
    name: Seq<char>,
    reply: Result<Option<TenantRow>, DbFailure>,
) -> Remembered {
    match reply {
        Ok(Some(t)) => Remembered { tenant_names: m.tenant_names.insert(name, t), ..m },
        _ => m,
    }
}

impl FindTenantByName {
    /// Takes the tenant of that name, or the failure of the database.
    pub fn resume(self, svc: &mut Service, reply: Result<Option<TenantRow>, DbFailure>) -> (r:
        Step)
        ensures
            final(svc).rnd == old(svc).rnd,
            final(svc).caches@ == with_tenant_named(old(svc).caches@, self.name@, reply),
            match (self.next, reply) {
                (TenantNext::Viewer { goal, .. }, Err(f)) => refused(
                    goal,
                    Failure::Sqlx(f.text@),
                    r,
                ),
                (TenantNext::Viewer { goal, token, identity }, Ok(tenant)) => viewer_decided(
                    goal,
                    token@,
                    identity,
                    tenant,
                    r,
                ),
                (TenantNext::Me { .. }, Err(f)) => fails(r, Failure::Sqlx(f.text@)),
                (TenantNext::Me { cookie, host, config }, Ok(tenant)) => me_at_tenant(
                    tenant,
                    cookie,
                    host,
                    config,
                    r,
                ),
            },
    {
        let found = get_tenant_row_from_name(&mut svc.caches, self.name.as_str(), reply);
        match self.next {
            TenantNext::Viewer { goal, token, identity } => match found {
                Err(e) => refuse(goal, e),
                Ok(tenant) => decide_viewer(goal, token.as_str(), identity, tenant),
            },
            TenantNext::Me { cookie, host, config } => match found {
                Err(e) => Step::Finish(Err(e)),
                Ok(tenant) => me_with_tenant(tenant, cookie, host, config),
            },
        }
    }
}

/// The role that a goal is kept for.
pub open spec fn required_role(goal: Goal) -> Option<Role> {
    match goal {
        Goal::Admin(_) => Some(Role::Admin),
        Goal::Organizer(_) => Some(Role::Organizer),
        Goal::Player(_) => Some(Role::Player),
        Goal::Me(_) => None,
    }
}

/// Whoever has another role than a goal is kept for is turned away at once: forbidden, or told
/// that there is no such thing at their tenant.
pub proof fn other_roles_are_turned_away(goal: Goal, v: Viewer, r: Step)
    requires
        required_role(goal) is Some,
        required_role(goal) != Some(v.role),
        admitted(goal, v, r),
    ensures
        r matches Step::Finish(Err(e)) && (failure_status(e@) == StatusCode::Forbidden
            || failure_status(e@) == StatusCode::NotFound && goal matches Goal::Admin(
            AdminTask::TenantsAdd { .. },
        )),
{
}

/// Whoever gets on has the role that the goal is kept for.
pub proof fn whoever_gets_on_has_the_role(goal: Goal, v: Viewer, r: Step)
    requires
        admitted(goal, v, r),
        r !is Finish,
    ensures
        v.role == (match required_role(goal) {
            Some(role) => role,
            None => Role::Player,
        }),
{
}

/// The only database that a request opens is that of the tenant at its host, and the token is for
/// that tenant.
pub proof fn only_the_tenant_of_the_token_is_opened(
    goal: Goal,
    token: Seq<char>,
    identity: Identity,
    tenant: Option<TenantRow>,
    r: Step,
)
    requires
        viewer_decided(goal, token, identity, tenant, r),
        r is Connect,
    ensures
        tenant matches Some(t) && t.id == r->Connect_0.tenant_id && t.name@
            == identity.tenant_name@,
        identity.role != Role::Admin,
{
}

/// A request that is refused asks for nothing more.
pub proof fn refusals_are_final(goal: Goal, f: Failure, r: Step)
    requires
        refused(goal, f, r),
    ensures
        r is Finish,
{
}

/// Whoever asks who they are is never told that they are not authorized: they are told that they
/// are not logged in, or something failed inside the service.
pub proof fn asking_who_one_is_is_never_unauthorized(tenant: TenantDetail, f: Failure, r: Step)
    requires
        refused(Goal::Me(tenant), f, r),
    ensures
        match r {
            Step::Finish(Ok(Answer::Me(me))) => is_anonymous(tenant, me) && failure_status(f)
                == StatusCode::Unauthorized,
            Step::Finish(Err(e)) => failure_status(e@) == StatusCode::InternalServerError,
            _ => false,
        },
{
}

/// Without the session cookie nobody gets anywhere: the request ends at once, as unauthorized, or
/// as not found at a host where there is no such thing.
pub proof fn no_cookie_no_entry(m: Remembered, config: Config, request: Request, r: Step)
    requires
        request.endpoint !is Me,
        request.cookie is None,
        started(m, config, request, r),
    ensures
        r matches Step::Finish(Err(e)) && (failure_status(e@) == StatusCode::Unauthorized
            || failure_status(e@) == StatusCode::NotFound && request.host@ != config.admin_host@),
{
}

/// Without the session cookie, a visitor of a tenant that is remembered is told that they are not
/// logged in.
pub proof fn no_cookie_is_not_logged_in(
    tenant: TenantRow,
    host: String,
    config: Config,
    r: Step,
)
    requires
        me_at_tenant(Some(tenant), None, host, config, r),
    ensures
        r matches Step::Finish(Ok(Answer::Me(me))) && is_anonymous(
            TenantDetail { name: tenant.name, display_name: tenant.display_name },
            me,
        ),
{
}

/// Before a token has been verified, a request asks for nothing but the key to verify it with, or
/// for the tenant at its host.
pub proof fn nothing_is_touched_before_the_token_is_verified(
    m: Remembered,
    config: Config,
    request: Request,
    r: Step,
)
    requires
        started(m, config, request, r),
    ensures
        r is ReadKey || r is Finish || (r is FindTenantByName && request.endpoint is Me),
{
}

} // verus!
