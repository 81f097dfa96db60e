use isuports::auth::start;
use isuports::error::DbFailure;
use isuports::model::{PlayerRow, TenantRow};
use isuports::question::{
    AdminTask, Answer, Config, Connected, Endpoint, OrganizerTask, PlayerTask, Request, Service,
    Step, VerifyToken,
};
use isuports::viewer::{Claims, Role};

const KEY: &str = "-----BEGIN PUBLIC KEY-----
MIIBIjANBgkqhkiG9w0BAQEFAAOCAQ8AMIIBCgKCAQEAto1LRya5iRh6s9gdFjl5
4tv9H/qEWkgMCV69cISsLVSri6A6VGGIOg1HJWdNvbAmZib62jE4IBJVwe0Mho3A
ag6gIFnhiQzM7Zzz6rQWlpf1t6hlQ2Y/HBqPbefE4LCttNhfJSt3FRu3v35+hMEO
BDmUnUZGQY4nfK8TIKX9IbiGv/gKvB39uSW9ow9YHCZBgzVye2b6bRV+GKs4Pc6V
tgitqBsf6Go0Ah9PFjb7qyNWQ5ug6N4xV4EvMkf+PkQJ/EXrbRm2IZPKsy/OUP+S
Y3TpI+Pjn9+4rP8AVkJllwqIK6MRDx9TtJyQb8vN2wiWBDloU1cOrbzMLi5M1wYP
mQIDAQAB
-----END PUBLIC KEY-----
";

fn config() -> Config {
    Config::new(None, None, None)
}

fn request(endpoint: Endpoint, cookie: Option<&str>, host: &str) -> Request {
    Request { endpoint, cookie: cookie.map(str::to_string), host: host.to_string() }
}

fn tenant(id: i64, name: &str) -> TenantRow {
    TenantRow {
        id,
        name: name.to_string(),
        display_name: format!("The {}", name),
        created_at: 1,
        updated_at: 2,
    }
}

fn claims(sub: Option<&str>, role: Option<&str>, aud: &[&str]) -> Claims {
    Claims {
        sub: sub.map(str::to_string),
        aud: aud.iter().map(|name| name.to_string()).collect(),
        role: role.map(str::to_string),
    }
}

fn failure(text: &str) -> DbFailure {
    DbFailure { number: None, text: text.to_string() }
}

fn refused(step: Step) -> (u16, String) {
    match step {
        Step::Finish(Err(e)) => (e.status_code().as_u16(), e.text()),
        _ => panic!("the request goes on"),
    }
}

fn answered(step: Step) -> Answer {
    match step {
        Step::Finish(Ok(answer)) => answer,
        _ => panic!("the request has no answer"),
    }
}

fn list() -> Endpoint {
    Endpoint::Organizer(OrganizerTask::PlayersList)
}

/// A request with the cookie `token`, up to the verification of that token.
fn verified(svc: &Service, endpoint: Endpoint, host: &str) -> VerifyToken {
    match start(svc, config(), request(endpoint, Some("token"), host)) {
        Step::ReadKey(q) => {
            assert_eq!(q.path, "../public.pem");
            match q.resume(Ok(KEY.as_bytes().to_vec())) {
                Step::VerifyToken(q) => {
                    assert_eq!(q.token, "token");
                    q
                }
                _ => panic!("the key is good"),
            }
        }
        _ => panic!("the cookie is there"),
    }
}

/// A request at the host of tenant `foo`, which is number 5.
fn at_foo(svc: &mut Service, endpoint: Endpoint, claims: Claims) -> Step {
    match verified(svc, endpoint, "foo.t.isucon.local").resume(svc, Ok(claims)) {
        Step::FindTenantByName(q) => {
            assert_eq!(q.name, "foo");
            q.resume(svc, Ok(Some(tenant(5, "foo"))))
        }
        step => step,
    }
}

#[test]
fn without_a_cookie_a_request_is_unauthorized() {
    let svc = Service::new();
    for endpoint in [
        list(),
        Endpoint::Player(PlayerTask::Competitions),
        Endpoint::Admin(AdminTask::TenantsAdd { name: "x".to_string(), display_name: "X".to_string() }),
    ] {
        let step = start(&svc, config(), request(endpoint, None, "foo.t.isucon.local"));
        assert_eq!(refused(step), (401, "cookie isuports_session is not found".to_string()));
    }
}

#[test]
fn the_billing_overview_is_only_at_the_host_of_the_administration() {
    let svc = Service::new();
    let billing = || Endpoint::Admin(AdminTask::TenantsBilling { before: None });
    let step = start(&svc, config(), request(billing(), Some("token"), "foo.t.isucon.local"));
    assert_eq!(refused(step), (404, "invalid hostname foo.t.isucon.local".to_string()));
    let step = start(&svc, config(), request(billing(), Some("token"), "admin.t.isucon.local"));
    assert!(matches!(step, Step::ReadKey(_)));
}

#[test]
fn a_key_that_cannot_be_read_is_an_internal_error() {
    let svc = Service::new();
    match start(&svc, config(), request(list(), Some("token"), "foo.t.isucon.local")) {
        Step::ReadKey(q) => assert_eq!(
            refused(q.resume(Err("no such file".to_string()))),
            (500, "error fs::read: key_filename=../public.pem: no such file".to_string())
        ),
        _ => panic!("the cookie is there"),
    }
}

#[test]
fn a_key_that_is_none_is_an_internal_error() {
    let svc = Service::new();
    match start(&svc, config(), request(list(), Some("token"), "foo.t.isucon.local")) {
        Step::ReadKey(q) => {
            let (status, text) = refused(q.resume(Ok(b"no key".to_vec())));
            assert_eq!(status, 500);
            assert!(text.starts_with("error jsonwebtoken::DecodingKey::from_rsa_pem: "));
        }
        _ => panic!("the cookie is there"),
    }
}

#[test]
fn the_name_of_a_role_stands_for_it() {
    for role in [Role::Admin, Role::Organizer, Role::Player] {
        assert_eq!(Role::named(role.name()), Some(role));
    }
    assert_eq!(Role::named("none"), None);
    assert_eq!(Role::named(""), None);
}

#[test]
fn a_token_that_is_not_verified_is_unauthorized() {
    let svc = Service::new();
    let step = verified(&svc, list(), "foo.t.isucon.local").resume(&svc, Err("bad".to_string()));
    assert_eq!(refused(step), (401, "error jsonwebtoken::decode: bad".to_string()));
}

#[test]
fn claims_name_a_subject_a_role_and_one_tenant() {
    let mut svc = Service::new();
    for (c, text) in [
        (claims(None, Some("organizer"), &["foo"]), "invalid token: subject is not found in token: token"),
        (claims(Some("o"), None, &["foo"]), "invalid token: role is not found: token"),
        (claims(Some("o"), Some("Organizer"), &["foo"]), "invalid token: invalid role: token"),
        (claims(Some("o"), Some("organizer"), &[]), "invalid token: aud filed is few or too much: token"),
        (claims(Some("o"), Some("organizer"), &["foo", "bar"]), "invalid token: aud filed is few or too much: token"),
        (claims(Some("o"), Some("organizer"), &["bar"]), "invalid token: tenant name is not match: token"),
    ] {
        assert_eq!(refused(at_foo(&mut svc, list(), c)), (401, text.to_string()));
    }
}

#[test]
fn a_tenant_that_is_not_there_is_unauthorized() {
    let mut svc = Service::new();
    let c = claims(Some("o"), Some("organizer"), &["foo"]);
    match verified(&svc, list(), "foo.t.isucon.local").resume(&svc, Ok(c)) {
        Step::FindTenantByName(q) => {
            assert_eq!(refused(q.resume(&mut svc, Ok(None))), (401, "tenant not found".to_string()));
        }
        _ => panic!("foo is not remembered"),
    }
    let c = claims(Some("o"), Some("organizer"), &["foo"]);
    match verified(&svc, list(), "foo.t.isucon.local").resume(&svc, Ok(c)) {
        Step::FindTenantByName(q) => {
            assert_eq!(
                refused(q.resume(&mut svc, Err(failure("gone")))),
                (500, "SQLx error: gone".to_string())
            );
        }
        _ => panic!("foo is not remembered"),
    }
}

#[test]
fn only_administrators_reach_the_administration() {
    let svc = Service::new();
    let c = claims(Some("o"), Some("organizer"), &["admin"]);
    let step = verified(&svc, list(), "admin.t.isucon.local").resume(&svc, Ok(c));
    assert_eq!(refused(step), (401, "tenant not found".to_string()));
}

#[test]
fn a_tenant_is_looked_up_once() {
    let mut svc = Service::new();
    let c = claims(Some("o"), Some("organizer"), &["foo"]);
    assert!(matches!(at_foo(&mut svc, list(), c), Step::Connect(_)));
    let c = claims(Some("o"), Some("organizer"), &["foo"]);
    match verified(&svc, list(), "foo.t.isucon.local").resume(&svc, Ok(c)) {
        Step::Connect(q) => {
            assert_eq!(q.tenant_id, 5);
            assert!(matches!(q.next, Connected::Organizer(OrganizerTask::PlayersList)));
        }
        _ => panic!("foo is remembered"),
    }
}

#[test]
fn every_goal_asks_for_its_role() {
    let mut svc = Service::new();
    let player = || Endpoint::Player(PlayerTask::Competitions);
    let add = |name: &str| Endpoint::Admin(AdminTask::TenantsAdd {
        name: name.to_string(),
        display_name: "X".to_string(),
    });
    for role in ["admin", "player"] {
        let step = at_foo(&mut svc, list(), claims(Some("u"), Some(role), &["foo"]));
        assert_eq!(refused(step), (403, "role organizer required".to_string()));
    }
    for role in ["admin", "organizer"] {
        let step = at_foo(&mut svc, player(), claims(Some("u"), Some(role), &["foo"]));
        assert_eq!(refused(step), (403, "role player required".to_string()));
    }
    for role in ["admin", "organizer", "player"] {
        let step = at_foo(&mut svc, add("bar"), claims(Some("u"), Some(role), &["foo"]));
        assert_eq!(refused(step), (404, "foo has not this API".to_string()));
    }
    match at_foo(&mut svc, player(), claims(Some("u"), Some("player"), &["foo"])) {
        Step::Connect(q) => match q.next {
            Connected::Player { player_id, .. } => assert_eq!((q.tenant_id, player_id.as_str()), (5, "u")),
            _ => panic!("a player's request"),
        },
        _ => panic!("players are let in"),
    }
}

#[test]
fn administrators_add_tenants_with_good_names() {
    let svc = Service::new();
    let add = |name: &str| Endpoint::Admin(AdminTask::TenantsAdd {
        name: name.to_string(),
        display_name: "X".to_string(),
    });
    let admin = || claims(Some("a"), Some("admin"), &["admin"]);
    let step = verified(&svc, add("B A D"), "admin.t.isucon.local").resume(&svc, Ok(admin()));
    assert_eq!(refused(step), (400, "invalid tenant name: B A D".to_string()));
    let step = verified(&svc, add("good"), "admin.t.isucon.local").resume(&svc, Ok(admin()));
    assert!(matches!(step, Step::ReadClock(_)));
}

#[test]
fn whoever_is_not_logged_in_is_told_so() {
    let mut svc = Service::new();
    match start(&svc, config(), request(Endpoint::Me, None, "foo.t.isucon.local")) {
        Step::FindTenantByName(q) => match answered(q.resume(&mut svc, Ok(Some(tenant(5, "foo"))))) {
            Answer::Me(me) => {
                let shown = me.tenant.unwrap();
                assert_eq!((shown.name.as_str(), shown.display_name.as_str()), ("foo", "The foo"));
                assert!(me.me.is_none());
                assert_eq!(me.role, "none");
                assert!(!me.logged_in);
            }
            _ => panic!("another answer"),
        },
        _ => panic!("foo is not remembered"),
    }
    let step = verified(&svc, Endpoint::Me, "foo.t.isucon.local").resume(&svc, Err("bad".to_string()));
    match answered(step) {
        Answer::Me(me) => assert!(!me.logged_in),
        _ => panic!("another answer"),
    }
}

#[test]
fn asking_at_an_unknown_tenant_is_an_internal_error() {
    let mut svc = Service::new();
    match start(&svc, config(), request(Endpoint::Me, None, "foo.t.isucon.local")) {
        Step::FindTenantByName(q) => assert_eq!(
            refused(q.resume(&mut svc, Ok(None))),
            (500, "error retrieve_tenant_row_from_header".to_string())
        ),
        _ => panic!("foo is not remembered"),
    }
    match start(&svc, config(), request(Endpoint::Me, None, "foo.t.isucon.local")) {
        Step::FindTenantByName(q) => assert_eq!(
            refused(q.resume(&mut svc, Err(failure("gone")))),
            (500, "SQLx error: gone".to_string())
        ),
        _ => panic!("foo is not remembered"),
    }
}

#[test]
fn other_failures_of_asking_are_wrapped() {
    let svc = Service::new();
    match start(&svc, config(), request(Endpoint::Me, Some("token"), "admin.t.isucon.local")) {
        Step::ReadKey(q) => assert_eq!(
            refused(q.resume(Err("no such file".to_string()))),
            (500, "error parse_viewer: error fs::read: key_filename=../public.pem: no such file".to_string())
        ),
        _ => panic!("the administration is always known"),
    }
}

#[test]
fn administrators_and_organizers_are_told_their_role() {
    let mut svc = Service::new();
    let step = verified(&svc, Endpoint::Me, "admin.t.isucon.local")
        .resume(&svc, Ok(claims(Some("a"), Some("admin"), &["admin"])));
    match answered(step) {
        Answer::Me(me) => {
            assert_eq!(me.tenant.unwrap().name, "admin");
            assert!(me.me.is_none());
            assert_eq!(me.role, "admin");
            assert!(me.logged_in);
        }
        _ => panic!("another answer"),
    }
    svc.caches.keep_tenant_named("foo", tenant(5, "foo"));
    let step = at_foo(&mut svc, Endpoint::Me, claims(Some("o"), Some("organizer"), &["foo"]));
    match answered(step) {
        Answer::Me(me) => assert_eq!((me.role.as_str(), me.logged_in), ("organizer", true)),
        _ => panic!("another answer"),
    }
}

#[test]
fn players_are_told_who_they_are() {
    let mut svc = Service::new();
    svc.caches.keep_tenant_named("foo", tenant(5, "foo"));
    let ask = |svc: &mut Service| {
        match at_foo(svc, Endpoint::Me, claims(Some("p"), Some("player"), &["foo"])) {
            Step::Connect(q) => {
                assert_eq!(q.tenant_id, 5);
                q.resume(svc, Ok(()))
            }
            _ => panic!("players are looked up"),
        }
    };
    match ask(&mut svc) {
        Step::FindPlayer(q) => match answered(q.resume(&mut svc, Ok(None))) {
            Answer::Me(me) => assert_eq!((me.role.as_str(), me.logged_in), ("none", false)),
            _ => panic!("another answer"),
        },
        _ => panic!("p is not remembered"),
    }
    match ask(&mut svc) {
        Step::FindPlayer(q) => {
            assert_eq!(q.id, "p");
            let row = PlayerRow {
                tenant_id: 5,
                id: "p".to_string(),
                display_name: "Pat".to_string(),
                is_disqualified: true,
                created_at: 1,
                updated_at: 2,
            };
            q.resume(&mut svc, Ok(Some(row)));
        }
        _ => panic!("p is not remembered"),
    }
    match answered(ask(&mut svc)) {
        Answer::Me(me) => {
            let shown = me.me.unwrap();
            assert_eq!((shown.id.as_str(), shown.display_name.as_str()), ("p", "Pat"));
            assert!(shown.is_disqualified);
            assert_eq!((me.role.as_str(), me.logged_in), ("player", true));
        }
        _ => panic!("another answer"),
    }
}
