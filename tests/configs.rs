use railway_config::config::{ConfigError, Configs, LoadOutcome, RailwayConfig, RailwayUser, TokenIdentity};
use railway_config::environment::{EnvVars, Environment};
use railway_config::persist::WriteStep;
use railway_config::project_map::{LinkedProject, ProjectMap};
use railway_config::timestamp::Timestamp;

fn no_env() -> EnvVars {
    EnvVars { railway_token: None, railway_api_token: None, railway_env: None, ci: None }
}

fn configs_at(cwd: &str, env: EnvVars) -> Configs {
    Configs::new("/home/user", env, cwd.to_string(), LoadOutcome::Absent)
}

fn project(path: &str, id: &str) -> LinkedProject {
    LinkedProject {
        project_path: path.to_string(),
        name: None,
        project: id.to_string(),
        environment: format!("{}-env", id),
        environment_name: None,
        service: None,
    }
}

#[test]
fn closest_enclosing_directory_wins() {
    let mut c = configs_at("/a/b/c/d", no_env());
    c.root_config.projects.insert("/a".to_string(), project("/a", "pa"));
    c.root_config.projects.insert("/a/b".to_string(), project("/a/b", "pab"));
    assert_eq!(c.get_closest_linked_project_directory(), Ok("/a/b".to_string()));
    let p = c.get_linked_project().unwrap();
    assert_eq!(p.project, "pab");
    assert_eq!(p.project_path, "/a/b");
}

#[test]
fn unlinked_tree_reports_no_linked_project() {
    let mut c = configs_at("/x/y", no_env());
    c.root_config.projects.insert("/a".to_string(), project("/a", "pa"));
    assert_eq!(c.get_closest_linked_project_directory(), Err(ConfigError::NoLinkedProject));
    assert_eq!(c.get_linked_project().err(), Some(ConfigError::NoLinkedProject));
}

#[test]
fn root_link_is_found_from_deep_directory() {
    let mut c = configs_at("/p/q/r", no_env());
    c.root_config.projects.insert("/".to_string(), project("/", "root"));
    assert_eq!(c.get_closest_linked_project_directory(), Ok("/".to_string()));
}

#[test]
fn linking_twice_keeps_one_entry_with_second_id() {
    let mut c = configs_at("/work/app", no_env());
    c.link_project("first".to_string(), None, "env1".to_string(), None);
    c.link_project("second".to_string(), Some("App".to_string()), "env2".to_string(), Some("prod".to_string()));
    let entries = c.root_config.projects.entries();
    assert_eq!(entries.len(), 1);
    assert_eq!(entries[0].0, "/work/app");
    assert_eq!(entries[0].1.project, "second");
    assert_eq!(entries[0].1.environment, "env2");
    assert_eq!(entries[0].1.name, Some("App".to_string()));
    assert_eq!(entries[0].1.service, None);
}

#[test]
fn link_project_uses_current_directory_not_closest() {
    let mut c = configs_at("/a/b", no_env());
    c.root_config.projects.insert("/a".to_string(), project("/a", "pa"));
    c.link_project("pb".to_string(), None, "e".to_string(), None);
    assert_eq!(c.root_config.projects.entries().len(), 2);
    assert_eq!(c.root_config.projects.get("/a/b").unwrap().project, "pb");
    assert_eq!(c.root_config.projects.get("/a").unwrap().project, "pa");
}

#[test]
fn unlink_service_without_service_is_idempotent() {
    let mut c = configs_at("/w", no_env());
    c.link_project("p".to_string(), None, "e".to_string(), None);
    assert_eq!(c.unlink_service(), Ok(()));
    assert_eq!(c.root_config.projects.get("/w").unwrap().service, None);
    assert_eq!(c.unlink_service(), Ok(()));
    assert_eq!(c.root_config.projects.get("/w").unwrap().service, None);
}

#[test]
fn link_and_unlink_service_on_closest_entry() {
    let mut c = configs_at("/w/sub", no_env());
    c.root_config.projects.insert("/w".to_string(), project("/w", "p"));
    assert_eq!(c.link_service("svc".to_string()), Ok(()));
    assert_eq!(c.root_config.projects.get("/w").unwrap().service, Some("svc".to_string()));
    assert_eq!(c.unlink_service(), Ok(()));
    assert_eq!(c.root_config.projects.get("/w").unwrap().service, None);
}

#[test]
fn mutable_handle_changes_stored_entry() {
    let mut c = configs_at("/w/sub/deeper", no_env());
    c.root_config.projects.insert("/w/sub".to_string(), project("/w/sub", "p"));
    {
        let entry = c.get_linked_project_mut().unwrap();
        assert_eq!(entry.project, "p");
        entry.environment_name = Some("staging".to_string());
    }
    let stored = c.root_config.projects.get("/w/sub").unwrap();
    assert_eq!(stored.environment_name, Some("staging".to_string()));
    assert_eq!(stored.project, "p");
}

#[test]
fn link_service_without_link_fails() {
    let mut c = configs_at("/nowhere", no_env());
    assert_eq!(c.link_service("svc".to_string()), Err(ConfigError::ProjectNotFound));
    assert_eq!(c.unlink_service(), Err(ConfigError::ProjectNotFound));
    assert_eq!(c.get_linked_project_mut().err(), Some(ConfigError::ProjectNotFound));
}

#[test]
fn unlink_project_removes_closest_and_tolerates_nothing() {
    let mut c = configs_at("/w/sub", no_env());
    c.unlink_project();
    assert_eq!(c.root_config.projects.entries().len(), 0);
    c.root_config.projects.insert("/w".to_string(), project("/w", "p"));
    c.root_config.projects.insert("/v".to_string(), project("/v", "q"));
    c.unlink_project();
    assert!(!c.root_config.projects.contains_key("/w"));
    assert!(c.root_config.projects.contains_key("/v"));
}

#[test]
fn api_token_takes_precedence() {
    let env = EnvVars { railway_api_token: Some("ephemeral".to_string()), ..no_env() };
    let mut c = configs_at("/w", env);
    c.root_config.user.token = Some("stored".to_string());
    assert_eq!(c.get_railway_auth_token(), Some("ephemeral".to_string()));
}

#[test]
fn stored_token_used_unless_empty() {
    let mut c = configs_at("/w", no_env());
    assert_eq!(c.get_railway_auth_token(), None);
    c.root_config.user.token = Some("stored".to_string());
    assert_eq!(c.get_railway_auth_token(), Some("stored".to_string()));
    c.root_config.user.token = Some(String::new());
    assert_eq!(c.get_railway_auth_token(), None);
    c.root_config.user.token = Some("  \t".to_string());
    assert_eq!(c.get_railway_auth_token(), None);
    c.root_config.user.token = Some(" tok ".to_string());
    assert_eq!(c.get_railway_auth_token(), Some(" tok ".to_string()));
}

#[test]
fn project_token_bypasses_directory_map() {
    let env = EnvVars { railway_token: Some("scoped".to_string()), ..no_env() };
    let mut c = configs_at("/w/sub", env);
    c.root_config.projects.insert("/w".to_string(), project("/w", "p"));
    assert_eq!(c.get_closest_linked_project_directory(), Ok("/w/sub".to_string()));
    assert_eq!(c.get_linked_project_mut().err(), Some(ConfigError::ProjectNotFound));
    assert_eq!(c.link_service("s".to_string()), Err(ConfigError::ProjectNotFound));
    assert_eq!(c.get_linked_project().err(), Some(ConfigError::ResolvedByProjectToken));
}

#[test]
fn token_identity_keeps_cached_service() {
    let env = EnvVars { railway_token: Some("scoped".to_string()), ..no_env() };
    let mut c = configs_at("/w", env);
    let mut cached = project("/w", "old");
    cached.service = Some("svc".to_string());
    c.root_config.projects.insert("/w".to_string(), cached);
    let identity = TokenIdentity {
        project_id: "pid".to_string(),
        project_name: "Proj".to_string(),
        environment_id: "eid".to_string(),
        environment_name: "production".to_string(),
    };
    let p = c.get_linked_project_from_token(identity);
    assert_eq!(p.project, "pid");
    assert_eq!(p.name, Some("Proj".to_string()));
    assert_eq!(p.environment, "eid");
    assert_eq!(p.environment_name, Some("production".to_string()));
    assert_eq!(p.project_path, "/w");
    assert_eq!(p.service, Some("svc".to_string()));
}

#[test]
fn environment_selection_is_case_insensitive() {
    let pick = |v: Option<&str>| {
        let env = EnvVars { railway_env: v.map(|s| s.to_string()), ..no_env() };
        env.environment()
    };
    assert_eq!(pick(None), Environment::Production);
    assert_eq!(pick(Some("PRODUCTION")), Environment::Production);
    assert_eq!(pick(Some("Staging")), Environment::Staging);
    assert_eq!(pick(Some("dev")), Environment::Dev);
    assert_eq!(pick(Some("DEVELOP")), Environment::Dev);
    assert_eq!(pick(Some("qa")), Environment::Production);
}

#[test]
fn hosts_follow_environment() {
    let staging = EnvVars { railway_env: Some("staging".to_string()), ..no_env() };
    let c = configs_at("/w", staging);
    assert_eq!(c.get_host(), "railway-staging.com");
    assert_eq!(c.get_backboard(), "https://backboard.railway-staging.com/graphql/v2");
    assert_eq!(c.get_relay_host_path(), "backboard.railway-staging.com/relay");
    let c = configs_at("/w", no_env());
    assert_eq!(c.get_host(), "railway.com");
    assert_eq!(c.get_backboard(), "https://backboard.railway.com/graphql/v2");
    let dev = EnvVars { railway_env: Some("develop".to_string()), ..no_env() };
    assert_eq!(configs_at("/w", dev).get_host(), "railway-develop.com");
}

#[test]
fn ci_marker_is_trimmed_and_lowercased() {
    let ci = |v: Option<&str>| EnvVars { ci: v.map(|s| s.to_string()), ..no_env() }.is_ci();
    assert!(ci(Some(" TRUE ")));
    assert!(ci(Some("true")));
    assert!(ci(Some("\u{3000}true\u{a0}")));
    assert!(!ci(Some("1")));
    assert!(!ci(None));
    let c = configs_at("/w", EnvVars { ci: Some("True".to_string()), ..no_env() });
    assert!(c.env_is_ci());
}

#[test]
fn config_paths_per_environment() {
    let c = configs_at("/w", no_env());
    assert_eq!(c.root_config_path(), "/home/user/.railway/config.json");
    let staging = EnvVars { railway_env: Some("staging".to_string()), ..no_env() };
    let c = Configs::new("/root/", staging, "/w".to_string(), LoadOutcome::Absent);
    assert_eq!(c.root_config_path(), "/root/.railway/config-staging.json");
    assert_eq!(c.write_plan().temp_path, "/root/.railway/config-staging.tmp");
    assert_eq!(c.write_plan().dir, "/root/.railway");
}

#[test]
fn write_renames_temp_file_last() {
    let c = configs_at("/w", EnvVars { railway_env: Some("dev".to_string()), ..no_env() });
    let steps = c.write();
    assert_eq!(
        steps,
        vec![
            WriteStep::CreateDirAll("/home/user/.railway".to_string()),
            WriteStep::WriteFile("/home/user/.railway/config-dev.tmp".to_string()),
            WriteStep::SyncFile("/home/user/.railway/config-dev.tmp".to_string()),
            WriteStep::Rename(
                "/home/user/.railway/config-dev.tmp".to_string(),
                "/home/user/.railway/config-dev.json".to_string()
            ),
        ]
    );
}

#[test]
fn loaded_document_is_used_and_others_give_empty() {
    let mut doc = RailwayConfig::empty();
    doc.user = RailwayUser { token: Some("t".to_string()) };
    doc.projects.insert("/w".to_string(), project("/w", "p"));
    let c = Configs::new("/h", no_env(), "/w".to_string(), LoadOutcome::Parsed(doc));
    assert_eq!(c.root_config.user.token, Some("t".to_string()));
    assert_eq!(c.get_linked_project().unwrap().project, "p");
    let c = Configs::new("/h", no_env(), "/w".to_string(), LoadOutcome::Unparseable);
    assert_eq!(c.root_config.projects.entries().len(), 0);
    assert_eq!(c.root_config.user.token, None);
}

#[test]
fn reset_empties_the_document() {
    let mut c = configs_at("/w", no_env());
    c.link_project("p".to_string(), None, "e".to_string(), None);
    c.root_config.user.token = Some("t".to_string());
    c.reset();
    assert_eq!(c.root_config.projects.entries().len(), 0);
    assert_eq!(c.root_config.user.token, None);
    assert!(c.root_config.last_update_check.is_none());
}

#[test]
fn update_check_skipped_same_day_unless_forced() {
    let mut c = configs_at("/w", no_env());
    let morning = Timestamp { days_from_ce: 739_000, seconds_from_midnight: 3600, nanosecond: 0 };
    let evening = Timestamp { days_from_ce: 739_000, seconds_from_midnight: 80_000, nanosecond: 5 };
    let next_day = Timestamp { days_from_ce: 739_001, seconds_from_midnight: 10, nanosecond: 0 };
    assert!(c.update_check_due_at(evening, false, true));
    c.record_update_check_at(morning);
    assert!(!c.update_check_due_at(evening, false, true));
    assert!(c.update_check_due_at(evening, true, true));
    assert!(c.update_check_due_at(evening, true, false));
    assert!(c.update_check_due_at(next_day, false, true));
    assert!(!c.update_check_due_at(next_day, false, false));
}

#[test]
fn update_check_not_forced_off_terminal_is_skipped() {
    let c = configs_at("/w", no_env());
    assert!(!c.check_update(false, false).0);
    assert!(c.check_update(true, false).0);
}

#[test]
fn update_check_reads_clock_and_throttles_after_stamp() {
    let mut c = configs_at("/w", no_env());
    let (due, at) = c.check_update(false, true);
    assert!(due);
    let t = at.unwrap();
    assert!(t.days_from_ce > 738_000);
    assert!(t.seconds_from_midnight < 86_400);
    c.record_update_check_at(t);
    assert_eq!(c.root_config.last_update_check, Some(t));
    assert!(!c.update_check_due_at(t, false, true));
    assert!(c.check_update(true, true).0);
}

#[test]
fn project_map_from_entries_later_wins() {
    let m = ProjectMap::from_entries(vec![
        ("/a".to_string(), project("/a", "one")),
        ("/b".to_string(), project("/b", "two")),
        ("/a".to_string(), project("/a", "three")),
    ]);
    assert_eq!(m.entries().len(), 2);
    assert_eq!(m.get("/a").unwrap().project, "three");
    assert_eq!(m.get("/b").unwrap().project, "two");
    assert!(m.get("/c").is_none());
    assert_eq!(m.entries()[0].0, "/a");
}

#[test]
fn project_map_remove() {
    let mut m = ProjectMap::new();
    m.insert("/a".to_string(), project("/a", "one"));
    m.insert("/b".to_string(), project("/b", "two"));
    m.remove("/a");
    m.remove("/zzz");
    assert!(!m.contains_key("/a"));
    assert_eq!(m.get("/b").unwrap().project, "two");
    assert_eq!(m.entries().len(), 1);
}
