//! Who gets in, and where.
use crate::auth::{anonymous, let_in, me_at_tenant, start, viewer_decided};
use crate::cache::{Caches, Remembered};
use crate::error::{failure_text, DbFailure, Error, StatusCode};
use crate::laws::board::is_told_to_log_in;
use crate::laws::outcome::{breaks_off, fails_inside, is_turned_away};
use crate::laws::words::{
    is_good_name, is_trimmed, role_names_differ, tenant_names_are_good, trimming_trims,
};
use crate::model::{MeHandlerResult, TenantDetail, TenantRow};
use crate::question::{
    AdminTask, Answer, Attempt, ClockNext, Config, Connected, Endpoint, FindTenantByName, Goal,
    ReadKey, Request, Service, Step, TenantNext, VerifyToken,
};
use crate::tenant::{
    get_tenant_row_from_name, host_tenant, retrieve_tenant_row_from_header, HostTenant,
};
use crate::text::trimmed_end;
use crate::viewer::{
    decoding_key, identify, identity_of, recognize, rsa_key_of, token_flaw, viewer_of, Claims,
    Identity, Role, Viewer,
};
use vstd::prelude::*;

verus! {

/// Whether somebody is refused as not authorized, in these words. Whoever only asks who they are is
/// told that they are not logged in.
pub open spec fn is_unknown(goal: Goal, words: Seq<char>, r: Step) -> bool {
    match goal {
        Goal::Me(tenant) => is_told_to_log_in(tenant, r),
        _ => is_turned_away(r, StatusCode::Unauthorized, words),
    }
}

/// Whether the authentication fails inside the service, in these words.
pub open spec fn is_left_open(goal: Goal, words: Seq<char>, r: Step) -> bool {
    match goal {
        Goal::Me(_) => fails_inside(r, "error parse_viewer: "@ + words),
        _ => fails_inside(r, words),
    }
}

/// Whether a request goes on to the key that its token is verified with, or has no token.
pub open spec fn shows_token(
    goal: Goal,
    cookie: Option<String>,
    host: String,
    config: Config,
    r: Step,
) -> bool {
    match cookie {
        None => is_unknown(goal, "cookie "@ + "isuports_session"@ + " is not found"@, r),
        Some(token) => r matches Step::ReadKey(k) && k.path == config.key_file && k.token == token
            && k.attempt == (Attempt { goal, cookie, host, config }),
    }
}

/// Whether this is the administration's own row.
pub open spec fn is_administration(t: TenantRow) -> bool {
    t.id == 0 && t.name@ == "admin"@ && t.display_name@ == "admin"@ && t.created_at == 0
        && t.updated_at == 0
}

/// Whether a name in front of the base host stands for this tenant, without asking the database.
pub open spec fn is_known(m: Remembered, name: Seq<char>, t: TenantRow) -> bool {
    if name == "admin"@ {
        is_administration(t)
    } else {
        m.tenant_names.contains_key(name) && t == m.tenant_names[name]
    }
}

/// The tenant at a host is the administration, or the one remembered under the name that is left of
/// the host without the base host; where there is none, that name is asked for.
pub proof fn hosts_stand_for_tenants(caches: &Caches, host: &str, base_host: &str, r: HostTenant)
    requires
        call_ensures(retrieve_tenant_row_from_header, (caches, host, base_host), r),
    ensures
        exists|name: Seq<char>| #[trigger]
            is_trimmed(host@, base_host@, name) && match r {
                HostTenant::Known(t) => is_known(caches@, name, t),
                HostTenant::Unknown(asked) => asked@ == name && name != "admin"@
                    && !caches@.tenant_names.contains_key(name),
            },
{
    trimming_trims(host@, base_host@);
    let name = trimmed_end(host@, base_host@);
    assert(is_trimmed(host@, base_host@, name));
}

/// A tenant that was found by its name is remembered under that name and handed on; nothing else is
/// remembered or forgotten.
pub proof fn tenants_are_remembered_by_their_names(
    caches: &mut Caches,
    name: &str,
    reply: Result<Option<TenantRow>, DbFailure>,
    r: Result<Option<TenantRow>, Error>,
)
    requires
        call_ensures(get_tenant_row_from_name, (caches, name, reply), r),
    ensures
        only_names_differ(old(caches)@, final(caches)@),
        final(caches)@.tenant_names == (match reply {
            Ok(Some(t)) => old(caches)@.tenant_names.insert(name@, t),
            _ => old(caches)@.tenant_names,
        }),
        match reply {
            Err(f) => r matches Err(Error::Sqlx(text)) && text@ == f.text@,
            Ok(t) => r matches Ok(found) && found == t,
        },
{
}

/// Whether everything is remembered as before but for the names of tenants.
pub open spec fn only_names_differ(before: Remembered, after: Remembered) -> bool {
    &&& after.players == before.players
    &&& after.competitions == before.competitions
    &&& after.tenants == before.tenants
    &&& after.visits == before.visits
}

/// Every request but one for one's own identity shows its token first. The billing overview is not
/// found at any host but the administration's.
pub proof fn requests_show_their_token(svc: &Service, config: Config, request: Request, r: Step)
    requires
        call_ensures(start, (svc, config, request), r),
    ensures
        match request.endpoint {
            Endpoint::Admin(task) => if task is TenantsBilling && request.host@
                != config.admin_host@ {
                is_turned_away(r, StatusCode::NotFound, "invalid hostname "@ + request.host@)
            } else {
                shows_token(Goal::Admin(task), request.cookie, request.host, config, r)
            },
            Endpoint::Organizer(task) => shows_token(
                Goal::Organizer(task),
                request.cookie,
                request.host,
                config,
                r,
            ),
            Endpoint::Player(task) => shows_token(
                Goal::Player(task),
                request.cookie,
                request.host,
                config,
                r,
            ),
            Endpoint::Me => true,
        },
{
}

/// Whoever asks who they are shows their token at the tenant of the host; where that is not known,
/// it is looked up first.
pub proof fn asking_who_one_is_starts_with_the_tenant(
    svc: &Service,
    config: Config,
    request: Request,
    r: Step,
)
    requires
        request.endpoint is Me,
        call_ensures(start, (svc, config, request), r),
    ensures
        exists|name: Seq<char>| #[trigger]
            is_trimmed(request.host@, config.base_host@, name) && (if name == "admin"@
                || svc.caches@.tenant_names.contains_key(name) {
                exists|t: TenantRow| #[trigger]
                    is_known(svc.caches@, name, t) && shows_token(
                        Goal::Me(TenantDetail { name: t.name, display_name: t.display_name }),
                        request.cookie,
                        request.host,
                        config,
                        r,
                    )
            } else {
                r matches Step::FindTenantByName(f) && f.name@ == name && f.next == (
                TenantNext::Me { cookie: request.cookie, host: request.host, config })
            }),
{
    let m = svc.caches@;
    let host = request.host@;
    let base = config.base_host@;
    trimming_trims(host, base);
    let name = trimmed_end(host, base);
    assert(is_trimmed(host, base, name));
    if name == "admin"@ || m.tenant_names.contains_key(name) {
        let t = choose|t: TenantRow|
            host_tenant(m, host, base, HostTenant::Known(t)) && me_at_tenant(
                Some(t),
                request.cookie,
                request.host,
                config,
                r,
            );
        assert(is_known(m, name, t));
    }
}

/// The token is verified with the key in the file. Where there is none, the request fails inside
/// the service.
pub proof fn tokens_are_verified_with_the_key_in_the_file(
    q: ReadKey,
    reply: Result<Vec<u8>, String>,
    r: Step,
)
    requires
        call_ensures(ReadKey::resume, (q, reply), r),
    ensures
        match reply {
            Err(cause) => is_left_open(
                q.attempt.goal,
                "error fs::read: key_filename="@ + q.path@ + (": "@ + cause@),
                r,
            ),
            Ok(pem) => match rsa_key_of(pem@) {
                Err(cause) => is_left_open(
                    q.attempt.goal,
                    "error jsonwebtoken::DecodingKey::from_rsa_pem: "@ + cause,
                    r,
                ),
                Ok(key) => r matches Step::VerifyToken(v) && v.token == q.token && v.key == key
                    && v.attempt == q.attempt,
            },
        },
{
}

/// A key is the one that the file's contents stand for, and a failure is one inside the service.
pub proof fn keys_are_those_of_the_file(
    pem: &[u8],
    r: Result<jsonwebtoken::DecodingKey, Error>,
)
    requires
        call_ensures(decoding_key, (pem,), r),
    ensures
        match rsa_key_of(pem@) {
            Err(cause) => r matches Err(Error::Internal(text)) && text@
                == "error jsonwebtoken::DecodingKey::from_rsa_pem: "@ + cause,
            Ok(key) => r matches Ok(k) && k == key,
        },
{
}

/// A key that was made goes on with the token, and an error that stands for none refuses the
/// request as such an error does.
pub proof fn keys_go_on_with_the_token(
    q: ReadKey,
    key: Result<jsonwebtoken::DecodingKey, Error>,
    r: Step,
)
    requires
        call_ensures(ReadKey::take_key, (q, key), r),
    ensures
        key matches Ok(k) ==> (r matches Step::VerifyToken(v) && v.token == q.token && v.key == k
            && v.attempt == q.attempt),
        key matches Err(e) ==> match q.attempt.goal {
            Goal::Me(tenant) => if e is Custom && e->Custom_0 == StatusCode::Unauthorized {
                is_told_to_log_in(tenant, r)
            } else {
                exists|words: Seq<char>| #[trigger]
                    says(e, words) && fails_inside(r, "error parse_viewer: "@ + words)
            },
            _ => r matches Step::Finish(Err(told)) && is_same_error(told, e),
        },
{
    if let Err(e) = key {
        assert(says(e, failure_text(e@)));
    }
}

/// Whether these are the words of an error.
pub open spec fn says(e: Error, words: Seq<char>) -> bool {
    match e {
        Error::Flock(cause) => words == "flock error: "@ + cause@,
        Error::Sqlx(cause) => words == "SQLx error: "@ + cause@,
        Error::Multipart(cause) => words == "Multipart error: "@ + cause@,
        Error::Csv(cause) => words == "CSV error: "@ + cause@,
        Error::Custom(_, message) => words == message@,
        Error::Internal(message) => words == message@,
    }
}

/// Whether two errors are of the same kind, with the same words and the same status.
pub open spec fn is_same_error(a: Error, b: Error) -> bool {
    match (a, b) {
        (Error::Flock(x), Error::Flock(y)) => x@ == y@,
        (Error::Sqlx(x), Error::Sqlx(y)) => x@ == y@,
        (Error::Multipart(x), Error::Multipart(y)) => x@ == y@,
        (Error::Csv(x), Error::Csv(y)) => x@ == y@,
        (Error::Custom(s, x), Error::Custom(t, y)) => s == t && x@ == y@,
        (Error::Internal(x), Error::Internal(y)) => x@ == y@,
        _ => false,
    }
}

/// Whether a text is the name of a role.
pub open spec fn is_name_of(name: Seq<char>, role: Role) -> bool {
    match role {
        Role::Admin => name == "admin"@,
        Role::Organizer => name == "organizer"@,
        Role::Player => name == "player"@,
    }
}

/// Whether claims say who somebody is: their subject, their role, and the one tenant that the token
/// is for.
pub open spec fn say_who(claims: Claims, i: Identity) -> bool {
    &&& claims.sub == Some(i.sub)
    &&& claims.role matches Some(name) && is_name_of(name@, i.role)
    &&& claims.aud@.len() == 1
    &&& claims.aud@[0] == i.tenant_name
}

/// The words in which claims are refused that do not say who somebody is.
pub open spec fn is_flaw(token: Seq<char>, claims: Claims, words: Seq<char>) -> bool {
    if claims.sub is None {
        words == "invalid token: subject is not found in token: "@ + token
    } else if claims.role is None {
        words == "invalid token: role is not found: "@ + token
    } else if claims.role->0@ != "admin"@ && claims.role->0@ != "organizer"@
        && claims.role->0@ != "player"@ {
        words == "invalid token: invalid role: "@ + token
    } else {
        claims.aud@.len() != 1 && words == "invalid token: aud filed is few or too much: "@ + token
    }
}

/// Claims say who somebody is where they name a subject, one of the three roles and one tenant, and
/// are refused else.
pub proof fn claims_say_who_somebody_is(token: &str, claims: Claims, r: Result<Identity, Error>)
    requires
        call_ensures(identify, (token, claims), r),
    ensures
        match r {
            Ok(i) => say_who(claims, i),
            Err(e) => e matches Error::Custom(code, words) && code == StatusCode::Unauthorized
                && is_flaw(token@, claims, words@),
        },
{
    role_names_differ();
}

/// Whether a viewer is who the token says, at this tenant.
pub open spec fn is_viewer(i: Identity, t: TenantRow, v: Viewer) -> bool {
    v.role == i.role && v.player_id == i.sub && v.tenant_name == t.name && v.tenant_id == t.id
}

/// The words in which somebody is refused at a tenant that their token is not good for.
pub open spec fn is_out_of_place(
    token: Seq<char>,
    i: Identity,
    tenant: Option<TenantRow>,
    words: Seq<char>,
) -> bool {
    if tenant is None || tenant->0.name@ == "admin"@ && i.role != Role::Admin {
        words == "tenant not found"@
    } else {
        tenant->0.name@ != i.tenant_name@ && words == "invalid token: tenant name is not match: "@
            + token
    }
}

/// Whether a token is good at a tenant: the tenant is there, has the name that the token is for,
/// and is not the administration unless the token is an administrator's.
pub open spec fn is_in_place(i: Identity, tenant: Option<TenantRow>) -> bool {
    tenant is Some && tenant->0.name@ == i.tenant_name@ && (tenant->0.name@ == "admin"@ ==> i.role
        == Role::Admin)
}

/// A viewer is who the token says, at the tenant that the token is for.
pub proof fn viewers_are_who_their_token_says(
    token: &str,
    i: Identity,
    tenant: Option<TenantRow>,
    r: Result<Viewer, Error>,
)
    requires
        call_ensures(recognize, (token, i, tenant), r),
    ensures
        match r {
            Ok(v) => is_in_place(i, tenant) && is_viewer(i, tenant->0, v),
            Err(e) => !is_in_place(i, tenant) && (e matches Error::Custom(code, words) && code
                == StatusCode::Unauthorized && is_out_of_place(token@, i, tenant, words@)),
        },
{
}

/// Whether a viewer gets into what they ask for, or is turned away.
pub open spec fn gets_in(goal: Goal, v: Viewer, r: Step) -> bool {
    match goal {
        Goal::Admin(AdminTask::TenantsAdd { name, display_name }) => if v.tenant_name@
            != "admin"@ {
            is_turned_away(r, StatusCode::NotFound, v.tenant_name@ + " has not this API"@)
        } else if v.role !is Admin {
            is_turned_away(r, StatusCode::Forbidden, "admin role required"@)
        } else if !is_good_name(name@) {
            is_turned_away(r, StatusCode::BadRequest, "invalid tenant name: "@ + name@)
        } else {
            r matches Step::ReadClock(c) && c.next == (ClockNext::TenantsAdd { name, display_name })
        },
        Goal::Admin(AdminTask::TenantsBilling { before }) => if v.role !is Admin {
            is_turned_away(r, StatusCode::Forbidden, "admin role required"@)
        } else {
            r matches Step::ListTenants(l) && l.before == before
        },
        Goal::Organizer(task) => if v.role !is Organizer {
            is_turned_away(r, StatusCode::Forbidden, "role organizer required"@)
        } else {
            r matches Step::Connect(c) && c.tenant_id == v.tenant_id && c.next
                == Connected::Organizer(task)
        },
        Goal::Player(task) => if v.role !is Player {
            is_turned_away(r, StatusCode::Forbidden, "role player required"@)
        } else {
            r matches Step::Connect(c) && c.tenant_id == v.tenant_id && c.next == (
            Connected::Player { task, player_id: v.player_id })
        },
        Goal::Me(tenant) => if v.role is Player {
            r matches Step::Connect(c) && c.tenant_id == v.tenant_id && c.next == (Connected::Me {
                tenant,
                player_id: v.player_id,
            })
        } else {
            r matches Step::Finish(Ok(Answer::Me(me))) && me.tenant == Some(tenant)
                && me.me is None && is_name_of(me.role@, v.role) && me.logged_in
        },
    }
}

/// Each goal is kept for its role, and what gets on is what was asked for, in the viewer's tenant.
pub proof fn each_goal_is_kept_for_its_role(goal: Goal, v: Viewer, r: Step)
    requires
        call_ensures(let_in, (goal, v), r),
    ensures
        gets_in(goal, v, r),
{
    if let Goal::Admin(AdminTask::TenantsAdd { name, display_name }) = goal {
        tenant_names_are_good(name@);
    }
}

/// Whether somebody whose token says who they are is seen at a tenant: they get in as that viewer
/// where the token is good there, and are refused else.
pub open spec fn is_seen(
    goal: Goal,
    token: Seq<char>,
    i: Identity,
    tenant: Option<TenantRow>,
    r: Step,
) -> bool {
    if is_in_place(i, tenant) {
        exists|v: Viewer| is_viewer(i, tenant->0, v) && #[trigger] gets_in(goal, v, r)
    } else {
        exists|words: Seq<char>|
            is_out_of_place(token, i, tenant, words) && #[trigger] is_unknown(goal, words, r)
    }
}

proof fn decided_viewers_are_seen(
    goal: Goal,
    token: Seq<char>,
    i: Identity,
    tenant: Option<TenantRow>,
    r: Step,
)
    requires
        viewer_decided(goal, token, i, tenant, r),
    ensures
        is_seen(goal, token, i, tenant, r),
{
    if is_in_place(i, tenant) {
        let v = viewer_of(i, tenant->0);
        if let Goal::Admin(AdminTask::TenantsAdd { name, display_name }) = goal {
            tenant_names_are_good(name@);
        }
        assert(gets_in(goal, v, r));
    } else if tenant is None || tenant->0.name@ == "admin"@ && i.role != Role::Admin {
        assert(is_unknown(goal, "tenant not found"@, r));
    } else {
        assert(is_unknown(goal, "invalid token: tenant name is not match: "@ + token, r));
    }
}

/// A token whose claims say who somebody is has them seen at the tenant of the host, which is
/// looked up first where it is not known. Any other token is refused.
pub proof fn verified_tokens_are_seen_at_the_host(
    q: VerifyToken,
    svc: &Service,
    reply: Result<Claims, String>,
    r: Step,
)
    requires
        call_ensures(VerifyToken::resume, (q, svc, reply), r),
    ensures
        match reply {
            Err(cause) => is_unknown(
                q.attempt.goal,
                "error jsonwebtoken::decode: "@ + cause@,
                r,
            ),
            Ok(claims) => {
                ||| exists|words: Seq<char>|
                    is_flaw(q.token@, claims, words) && #[trigger] is_unknown(
                        q.attempt.goal,
                        words,
                        r,
                    )
                ||| exists|i: Identity, name: Seq<char>|
                    #![trigger say_who(claims, i), is_trimmed(
                        q.attempt.host@,
                        q.attempt.config.base_host@,
                        name,
                    )]
                    say_who(claims, i) && is_trimmed(
                        q.attempt.host@,
                        q.attempt.config.base_host@,
                        name,
                    ) && (if name == "admin"@ || svc.caches@.tenant_names.contains_key(name) {
                        exists|t: TenantRow| #[trigger]
                            is_known(svc.caches@, name, t) && is_seen(
                                q.attempt.goal,
                                q.token@,
                                i,
                                Some(t),
                                r,
                            )
                    } else {
                        r matches Step::FindTenantByName(f) && f.name@ == name && f.next == (
                        TenantNext::Viewer { goal: q.attempt.goal, token: q.token, identity: i })
                    })
            },
        },
{
    if reply is Ok {
        let claims = reply->Ok_0;
        let a = q.attempt;
        let m = svc.caches@;
        role_names_differ();
        if token_flaw(q.token@, claims) is Some {
            let words = failure_text(
                token_flaw(q.token@, claims)->0,
            );
            assert(is_flaw(q.token@, claims, words));
            assert(is_unknown(a.goal, words, r));
        } else {
            let i = identity_of(claims);
            let host = a.host@;
            let base = a.config.base_host@;
            trimming_trims(host, base);
            let name = trimmed_end(host, base);
            assert(say_who(claims, i));
            assert(is_trimmed(host, base, name));
            if name == "admin"@ || m.tenant_names.contains_key(name) {
                let t = choose|t: TenantRow|
                    host_tenant(m, host, base, HostTenant::Known(t))
                        && viewer_decided(a.goal, q.token@, i, Some(t), r);
                decided_viewers_are_seen(a.goal, q.token@, i, Some(t), r);
                assert(is_known(m, name, t));
            }
        }
    }
}

/// A tenant that was looked up by its name is remembered under it. Whoever was waiting for it is
/// seen there, or shows their token there.
pub proof fn tenants_that_were_looked_up_let_in(
    q: FindTenantByName,
    svc: &mut Service,
    reply: Result<Option<TenantRow>, DbFailure>,
    r: Step,
)
    requires
        call_ensures(FindTenantByName::resume, (q, svc, reply), r),
    ensures
        final(svc).rnd == old(svc).rnd,
        only_names_differ(old(svc).caches@, final(svc).caches@),
        final(svc).caches@.tenant_names == (match reply {
            Ok(Some(t)) => old(svc).caches@.tenant_names.insert(q.name@, t),
            _ => old(svc).caches@.tenant_names,
        }),
        match q.next {
            TenantNext::Viewer { goal, token, identity } => match reply {
                Err(f) => if goal is Me {
                    fails_inside(r, "error parse_viewer: "@ + ("SQLx error: "@ + f.text@))
                } else {
                    breaks_off(r, f)
                },
                Ok(tenant) => is_seen(goal, token@, identity, tenant, r),
            },
            TenantNext::Me { cookie, host, config } => match reply {
                Err(f) => breaks_off(r, f),
                Ok(None) => fails_inside(r, "error retrieve_tenant_row_from_header"@),
                Ok(Some(t)) => shows_token(
                    Goal::Me(TenantDetail { name: t.name, display_name: t.display_name }),
                    cookie,
                    host,
                    config,
                    r,
                ),
            },
        },
{
    if let TenantNext::Viewer { goal, token, identity } = q.next {
        if let Ok(tenant) = reply {
            decided_viewers_are_seen(goal, token@, identity, tenant, r);
        }
    }
}

/// Whoever is not logged in is told so, with the tenant that they are at.
pub proof fn visitors_are_told_to_log_in(tenant: TenantDetail, r: MeHandlerResult)
    requires
        call_ensures(anonymous, (tenant,), r),
    ensures
        r.tenant == Some(tenant),
        r.me is None,
        r.role@ == "none"@,
        !r.logged_in,
{
}

} // verus!
