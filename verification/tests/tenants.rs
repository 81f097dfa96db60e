use isuports::cache::Caches;
use isuports::db::{create_index_if_not_exists, drop_unique_index_if_exists};
use isuports::error::{DbFailure, Error, StatusCode};
use isuports::model::{CompetitionRow, PlayerRow, TenantRow};
use isuports::question::Config;
use isuports::tenant::{
    create_tenant_db, create_tenant_db_command, get_env, get_tenant_row_from_name, lock_file_path,
    retrieve_tenant_row_from_header, tenant_db_path, validate_tenant_name, CommandOutcome,
    HostTenant,
};

fn tenant(id: i64, name: &str) -> TenantRow {
    TenantRow {
        id,
        name: name.to_string(),
        display_name: name.to_uppercase(),
        created_at: 1,
        updated_at: 2,
    }
}

fn player(id: &str, name: &str) -> PlayerRow {
    PlayerRow {
        tenant_id: 5,
        id: id.to_string(),
        display_name: name.to_string(),
        is_disqualified: false,
        created_at: 1,
        updated_at: 2,
    }
}

fn competition(tenant_id: i64, id: &str, title: &str) -> CompetitionRow {
    CompetitionRow {
        tenant_id,
        id: id.to_string(),
        title: title.to_string(),
        finished_at: None,
        created_at: 1,
        updated_at: 2,
    }
}

fn failure(number: Option<u16>, text: &str) -> DbFailure {
    DbFailure { number, text: text.to_string() }
}

#[test]
fn tenant_names_follow_the_rule() {
    let longest = format!("a{}z", "-".repeat(61));
    for name in ["ab", "a0", "isucon", "a-b", "a--9", longest.as_str()] {
        assert!(validate_tenant_name(name).is_ok(), "{}", name);
    }
    let too_long = format!("a{}z", "b".repeat(62));
    for name in ["", "a", "0a", "-a", "a-", "Ab", "aB", "a.b", "a b", "ab\n", too_long.as_str()] {
        let e = validate_tenant_name(name).unwrap_err();
        assert_eq!(e.status_code().as_u16(), 400);
        assert_eq!(e.text(), format!("invalid tenant name: {}", name));
    }
}

#[test]
fn settings_have_defaults() {
    assert_eq!(get_env(Some("x".to_string()), "y"), "x");
    assert_eq!(get_env(Some(String::new()), "y"), "");
    assert_eq!(get_env(None, "y"), "y");
    let config = Config::new(None, Some("admin.example".to_string()), None);
    assert_eq!(config.base_host, ".t.isucon.local");
    assert_eq!(config.admin_host, "admin.example");
    assert_eq!(config.key_file, "../public.pem");
}

#[test]
fn every_tenant_has_its_own_files() {
    for dir in ["../tenant_db", "../tenant_db/", "", "/", "a b"] {
        let joined = |file: &str| std::path::Path::new(dir).join(file).display().to_string();
        assert_eq!(tenant_db_path(dir, 12), joined("12.db"));
        assert_eq!(lock_file_path(dir, 12), joined("12.lock"));
        assert_eq!(tenant_db_path(dir, -1), joined("-1.db"));
    }
    assert_eq!(tenant_db_path("../tenant_db", 12), "../tenant_db/12.db");
    assert_eq!(lock_file_path("", 12), "12.lock");
}

#[test]
fn the_command_reads_the_schema() {
    assert_eq!(
        create_tenant_db_command("../tenant_db/7.db"),
        "sqlite3 ../tenant_db/7.db < ../sql/tenant/10_schema.sql"
    );
}

#[test]
fn commands_that_fail_are_internal_errors() {
    let e = create_tenant_db("p.db", CommandOutcome::NotStarted("no sh".to_string())).unwrap_err();
    assert_eq!(e.status_code().as_u16(), 500);
    assert_eq!(e.text(), "failed to exec sqlite3 p.db < ../sql/tenant/10_schema.sql: no sh");
    let outcome = CommandOutcome::Ended {
        success: false,
        stdout: b"o\xffk".to_vec(),
        stderr: b"bad".to_vec(),
    };
    let e = create_tenant_db("p.db", outcome).unwrap_err();
    assert_eq!(
        e.text(),
        "failed to exec sqlite p.db < ../sql/tenant/10_schema.sql, out=o\u{fffd}k, err=bad"
    );
    let outcome =
        CommandOutcome::Ended { success: true, stdout: Vec::new(), stderr: b"note".to_vec() };
    assert!(create_tenant_db("p.db", outcome).is_ok());
}

#[test]
fn hosts_stand_for_tenants() {
    let mut caches = Caches::new();
    match retrieve_tenant_row_from_header(&caches, "admin.t.isucon.local", ".t.isucon.local") {
        HostTenant::Known(t) => {
            assert_eq!((t.id, t.name.as_str(), t.display_name.as_str()), (0, "admin", "admin"));
            assert_eq!((t.created_at, t.updated_at), (0, 0));
        }
        HostTenant::Unknown(_) => panic!("the administration is always known"),
    }
    match retrieve_tenant_row_from_header(&caches, "foo.t.isucon.local", ".t.isucon.local") {
        HostTenant::Known(_) => panic!("foo is not known yet"),
        HostTenant::Unknown(name) => assert_eq!(name, "foo"),
    }
    let found = get_tenant_row_from_name(&mut caches, "foo", Ok(Some(tenant(5, "foo")))).unwrap();
    assert_eq!(found.unwrap().id, 5);
    match retrieve_tenant_row_from_header(&caches, "foo.t.isucon.local", ".t.isucon.local") {
        HostTenant::Known(t) => assert_eq!(t.id, 5),
        HostTenant::Unknown(_) => panic!("foo is remembered"),
    }
}

#[test]
fn tenants_that_are_not_found_are_not_remembered() {
    let mut caches = Caches::new();
    assert!(get_tenant_row_from_name(&mut caches, "foo", Ok(None)).unwrap().is_none());
    assert!(caches.tenant_named("foo").is_none());
    let e = get_tenant_row_from_name(&mut caches, "foo", Err(failure(None, "gone"))).unwrap_err();
    assert_eq!(e.text(), "SQLx error: gone");
    assert!(caches.tenant_named("foo").is_none());
}

#[test]
fn what_is_kept_is_found_until_it_is_forgotten() {
    let mut caches = Caches::new();
    assert!(caches.player("p").is_none());
    caches.keep_player("p", player("p", "Pat"));
    caches.keep_player("q", player("q", "Quin"));
    assert_eq!(caches.player("p").unwrap().display_name, "Pat");
    caches.forget_player("p");
    assert!(caches.player("p").is_none());
    assert_eq!(caches.player("q").unwrap().display_name, "Quin");
    caches.keep_tenant(5, tenant(5, "foo"));
    assert_eq!(caches.tenant(5).unwrap().name, "foo");
    assert!(caches.tenant(6).is_none());
    caches.clear();
    assert!(caches.player("q").is_none());
    assert!(caches.tenant(5).is_none());
}

#[test]
fn competitions_of_different_tenants_are_kept_apart() {
    let mut caches = Caches::new();
    caches.keep_competition(1, "1:x", competition(1, "1:x", "one"));
    caches.keep_competition(11, ":x", competition(11, ":x", "eleven"));
    assert_eq!(caches.competition(1, "1:x").unwrap().title, "one");
    assert_eq!(caches.competition(11, ":x").unwrap().title, "eleven");
    assert!(caches.competition(11, "1:x").is_none());
    assert!(caches.competition(-1, "1:x").is_none());
    caches.forget_competition(1, "1:x");
    assert!(caches.competition(1, "1:x").is_none());
    assert_eq!(caches.competition(11, ":x").unwrap().title, "eleven");
}

#[test]
fn only_an_earlier_visit_is_news() {
    let mut caches = Caches::new();
    assert!(caches.note_visit("p", 5, "c", 100));
    assert!(!caches.note_visit("p", 5, "c", 100));
    assert!(!caches.note_visit("p", 5, "c", 150));
    assert!(caches.note_visit("p", 5, "c", 90));
    assert!(!caches.note_visit("p", 5, "c", 95));
    assert!(caches.note_visit("pc", 5, "", 100));
    assert!(caches.note_visit("", 5, "pc", 100));
    assert!(caches.note_visit("p", 6, "c", 100));
}

#[test]
fn an_index_that_is_there_will_do() {
    assert!(create_index_if_not_exists(Ok(())).is_ok());
    assert!(create_index_if_not_exists(Err(failure(Some(1060), "column"))).is_ok());
    assert!(create_index_if_not_exists(Err(failure(Some(1061), "key"))).is_ok());
    let f = create_index_if_not_exists(Err(failure(Some(1062), "entry"))).unwrap_err();
    assert_eq!((f.number, f.text.as_str()), (Some(1062), "entry"));
    assert!(create_index_if_not_exists(Err(failure(None, "gone"))).is_err());
}

#[test]
fn an_index_is_dropped_where_it_is() {
    assert_eq!(
        drop_unique_index_if_exists("id_generator", "stub", 1).unwrap(),
        "ALTER TABLE id_generator DROP INDEX stub;"
    );
    assert!(drop_unique_index_if_exists("id_generator", "stub", 0).is_none());
    assert!(drop_unique_index_if_exists("id_generator", "stub", -1).is_none());
}

#[test]
fn errors_have_a_status_and_words() {
    let text = |s: &str| s.to_string();
    for (e, status, words) in [
        (Error::Flock(text("x")), 500, "flock error: x"),
        (Error::Sqlx(text("x")), 500, "SQLx error: x"),
        (Error::Multipart(text("x")), 500, "Multipart error: x"),
        (Error::Csv(text("x")), 500, "CSV error: x"),
        (Error::Internal(text("x")), 500, "x"),
        (Error::Custom(StatusCode::NotFound, text("x")), 404, "x"),
        (Error::Custom(StatusCode::Unauthorized, text("x")), 401, "x"),
        (Error::Custom(StatusCode::Forbidden, text("x")), 403, "x"),
        (Error::Custom(StatusCode::BadRequest, text("x")), 400, "x"),
    ] {
        assert_eq!(e.status_code().as_u16(), status);
        assert_eq!(e.text(), words);
        let (code, body) = e.error_response();
        assert_eq!(code.as_u16(), status);
        assert!(!body.status);
    }
    assert_eq!(StatusCode::Success.as_u16(), 200);
}
