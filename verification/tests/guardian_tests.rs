use rustisaur_stdlib::guardian::console::{approval_error, permission_from_choice, GuardianConsole};
use rustisaur_stdlib::guardian::database::{
    DatabaseConfig, DatabaseFirewall, DatabaseQuery, QueryCheck, QueryType,
};
use rustisaur_stdlib::guardian::filesystem::{
    ApprovalStage, FileCheck, FileOpType, FileOperation, FileSystemConfig, FileSystemFirewall,
};
use rustisaur_stdlib::guardian::guardian_core::{Guardian, GuardianConfig};
use rustisaur_stdlib::guardian::network::{NetworkConfig, NetworkFirewall, NetworkRequest, UrlVerdict};
use rustisaur_stdlib::guardian::secrets::{SecretAccess, SecretAccessType, SecretConfig, SecretProtection};

// ----------------------------------------------------------------------
// Network firewall
// ----------------------------------------------------------------------

#[test]
fn extract_domain_strips_scheme_path_and_port() {
    let fw = NetworkFirewall::new(NetworkConfig::default());
    assert_eq!(fw.extract_domain("https://api.example.com:8443/v1?x=1").unwrap(), "api.example.com");
    assert_eq!(fw.extract_domain("http://localhost/").unwrap(), "localhost");
    assert_eq!(fw.extract_domain("example.org").unwrap(), "example.org");
    assert_eq!(fw.extract_domain("").unwrap(), "");
}

#[test]
fn default_network_verdicts() {
    let fw = NetworkFirewall::new(NetworkConfig::default());
    assert!(fw.check_url("https://malware.com/x") == UrlVerdict::Blacklisted);
    assert!(fw.check_url("http://localhost:3000") == UrlVerdict::LocalhostAllowed);
    assert!(fw.check_url("http://127.0.0.1/") == UrlVerdict::LocalhostAllowed);
    assert!(fw.check_url("https://example.com") == UrlVerdict::NeedsApproval);
}

#[test]
fn whitelist_then_blacklist_moves_a_domain() {
    let mut fw = NetworkFirewall::new(NetworkConfig::default());
    fw.add_to_whitelist("example.com").unwrap();
    assert!(fw.check_url("https://example.com/a") == UrlVerdict::Whitelisted);
    fw.add_to_blacklist("example.com").unwrap();
    assert!(fw.check_url("https://example.com/a") == UrlVerdict::Blacklisted);
    fw.remove_from_blacklist("example.com").unwrap();
    assert!(fw.check_url("https://example.com/a") == UrlVerdict::NeedsApproval);
    fw.add_to_whitelist("malware.com").unwrap();
    assert!(fw.check_url("malware.com") == UrlVerdict::Whitelisted);
    fw.remove_from_whitelist("malware.com").unwrap();
    assert!(fw.check_url("malware.com") == UrlVerdict::NeedsApproval);
}

#[test]
fn no_approval_means_allowed_by_default() {
    let mut config = NetworkConfig::default();
    config.require_approval = false;
    config.allow_localhost = false;
    let fw = NetworkFirewall::new(config);
    assert!(fw.check_url("https://example.com") == UrlVerdict::AllowedByDefault);
    assert!(fw.check_url("http://localhost") == UrlVerdict::AllowedByDefault);
    assert_eq!(UrlVerdict::AllowedByDefault.decided(), Some(true));
    assert_eq!(UrlVerdict::NeedsApproval.decided(), None);
    assert_eq!(UrlVerdict::Blacklisted.decided(), Some(false));
}

#[test]
fn request_log_and_config_round_trip() {
    let mut fw = NetworkFirewall::new(NetworkConfig::default());
    fw.log_request(NetworkRequest {
        url: "https://a.com".to_string(),
        domain: "a.com".to_string(),
        method: "GET".to_string(),
        timestamp: 7,
    });
    let log = fw.get_request_log();
    assert_eq!(log.len(), 1);
    assert_eq!(log[0].domain, "a.com");
    let mut config = fw.get_config();
    config.require_approval = false;
    fw.update_config(config);
    assert!(!fw.get_config().require_approval);
}

// ----------------------------------------------------------------------
// Guardian core
// ----------------------------------------------------------------------

#[test]
fn guardian_counts_each_request_once() {
    let mut g = Guardian::default();
    assert!(g.check_network("https://evil.com/") == UrlVerdict::Blacklisted);
    assert!(g.check_network("http://localhost:8080/") == UrlVerdict::LocalhostAllowed);
    let s = g.get_stats();
    assert_eq!(s.total_requests, 2);
    assert_eq!(s.allowed_requests, 1);
    assert_eq!(s.blocked_requests, 1);
    assert_eq!(g.network().get_request_log().len(), 1);
    assert_eq!(g.network().get_request_log()[0].method, "GET");
}

#[test]
fn guardian_owner_answers() {
    let mut g = Guardian::default();
    assert!(g.check_network("https://example.com/page") == UrlVerdict::NeedsApproval);
    assert!(g.awaiting_approval());
    assert_eq!(g.answer_network(Ok(true)), Ok(true));
    assert!(!g.awaiting_approval());
    let log = g.network().get_request_log();
    assert_eq!(log.len(), 1);
    assert_eq!(log[0].domain, "example.com");

    assert!(g.check_network("https://other.com") == UrlVerdict::NeedsApproval);
    assert_eq!(g.answer_network(Ok(false)), Ok(false));
    assert!(g.check_network("https://third.com") == UrlVerdict::NeedsApproval);
    assert_eq!(
        g.answer_network(Err("no terminal".to_string())),
        Err("Failed to get owner approval: no terminal".to_string())
    );
    let s = g.get_stats();
    assert_eq!(s.total_requests, 3);
    assert_eq!(s.allowed_requests, 1);
    assert_eq!(s.blocked_requests, 1);
}

#[test]
fn guardian_reset_and_interactive_switches() {
    let mut g = Guardian::new(GuardianConfig::default());
    g.check_network("https://malware.com");
    g.reset_stats();
    assert_eq!(g.get_stats().total_requests, 0);
    g.disable_interactive();
    g.enable_interactive();
    g.network_mut().add_to_whitelist("site.org").unwrap();
    assert!(g.check_network("https://site.org") == UrlVerdict::Whitelisted);
}

#[test]
fn without_interactive_mode_unlisted_domains_are_refused_unasked() {
    let mut g = Guardian::new(GuardianConfig::default());
    g.disable_interactive();
    let v = g.check_network("https://unknown.org/");
    assert!(v == UrlVerdict::DeniedWithoutOwner);
    assert_eq!(v.decided(), Some(false));
    assert!(!g.awaiting_approval());
    let s = g.get_stats();
    assert_eq!(s.total_requests, 1);
    assert_eq!(s.blocked_requests, 1);
    assert_eq!(s.allowed_requests, 0);
    assert!(g.check_network("https://evil.com/") == UrlVerdict::Blacklisted);
    assert!(g.check_network("http://localhost/") == UrlVerdict::LocalhostAllowed);
    g.enable_interactive();
    assert!(g.check_network("https://unknown.org/") == UrlVerdict::NeedsApproval);
    assert!(g.awaiting_approval());
}

#[test]
fn approval_error_message() {
    let _console = GuardianConsole::new();
    assert_eq!(approval_error("io"), "Failed to get owner approval: io");
}

// ----------------------------------------------------------------------
// Database firewall
// ----------------------------------------------------------------------

#[test]
fn query_types() {
    assert_eq!(QueryType::from_sql("  select * from t"), QueryType::Select);
    assert_eq!(QueryType::from_sql("INSERT INTO t VALUES (1)"), QueryType::Insert);
    assert_eq!(QueryType::from_sql("drop table x"), QueryType::Drop);
    assert_eq!(QueryType::from_sql("EXPLAIN SELECT 1"), QueryType::Unknown);
    assert!(QueryType::Delete.is_dangerous());
    assert!(!QueryType::Select.is_dangerous());
    assert_eq!(QueryType::Truncate.as_str(), "TRUNCATE");
}

#[test]
fn injection_is_blocked_first() {
    let mut fw = DatabaseFirewall::new(DatabaseConfig::default());
    match fw.check_query("SELECT * FROM users WHERE name = '' or '1'='1'") {
        QueryCheck::InjectionBlocked(p) => assert_eq!(p, "' OR '1'='1"),
        _ => panic!("expected an injection block"),
    }
    match fw.check_query("SELECT 1 -- comment") {
        QueryCheck::InjectionBlocked(p) => assert_eq!(p, "--"),
        _ => panic!("expected an injection block"),
    }
    let s = fw.get_stats();
    assert_eq!(s.injection_attempts, 2);
    assert_eq!(s.blocked_queries, 2);
    assert_eq!(fw.get_query_log().len(), 2);
    assert!(fw.get_query_log()[0].blocked);
}

#[test]
fn blocked_keywords_and_dangerous_queries() {
    let mut fw = DatabaseFirewall::new(DatabaseConfig::default());
    match fw.check_query("drop table users") {
        QueryCheck::KeywordBlocked(k) => assert_eq!(k, "DROP TABLE"),
        _ => panic!("expected a keyword block"),
    }
    assert!(matches!(fw.check_query("DELETE users WHERE id = 1"), QueryCheck::NeedsApproval));
    assert!(fw.awaiting_approval());
    assert_eq!(fw.answer_query(Ok(true)), Ok(true));
    assert!(matches!(fw.check_query("UPDATE t SET a = 1"), QueryCheck::Allowed));
    assert!(matches!(fw.check_query("ALTER INDEX i"), QueryCheck::NeedsApproval));
    assert_eq!(fw.answer_query(Ok(false)), Ok(false));
    assert!(matches!(fw.check_query("ALTER INDEX i"), QueryCheck::NeedsApproval));
    assert_eq!(
        fw.answer_query(Err("closed".to_string())),
        Err("Failed to get owner approval: closed".to_string())
    );
    let s = fw.get_stats();
    assert_eq!(s.total_queries, 5);
    assert_eq!(s.allowed_queries, 2);
    assert_eq!(s.blocked_queries, 2);
    assert_eq!(s.dangerous_queries, 4);
}

#[test]
fn database_configuration_changes() {
    let mut fw = DatabaseFirewall::new(DatabaseConfig::default());
    fw.set_require_approval(false);
    assert!(matches!(fw.check_query("DELETE users"), QueryCheck::Allowed));
    fw.add_blocked_keyword("vacuum");
    match fw.check_query("VACUUM main") {
        QueryCheck::KeywordBlocked(k) => assert_eq!(k, "VACUUM"),
        _ => panic!("expected a keyword block"),
    }
    fw.remove_blocked_keyword("Vacuum");
    assert!(matches!(fw.check_query("VACUUM main"), QueryCheck::Allowed));
    fw.add_blocked_pattern("sleep(");
    assert!(matches!(fw.check_query("SELECT SLEEP(5)"), QueryCheck::InjectionBlocked(_)));
    fw.remove_blocked_pattern("sleep(");
    assert!(matches!(fw.check_query("SELECT SLEEP(5)"), QueryCheck::Allowed));
    fw.log_query(DatabaseQuery {
        sql: "x".to_string(),
        query_type: QueryType::Unknown,
        timestamp: 0,
        rows_affected: Some(3),
        blocked: false,
    });
    assert_eq!(fw.get_query_log().last().unwrap().rows_affected, Some(3));
}

// ----------------------------------------------------------------------
// File system firewall
// ----------------------------------------------------------------------

#[test]
fn file_op_types() {
    assert_eq!(FileOpType::parse("WRITE"), Some(FileOpType::Write));
    assert_eq!(FileOpType::parse("copy"), Some(FileOpType::Copy));
    assert_eq!(FileOpType::parse("move"), None);
    assert!(FileOpType::Execute.is_sensitive());
    assert!(!FileOpType::Read.is_sensitive());
    assert_eq!(FileOpType::Rename.as_str(), "RENAME");
}

#[test]
fn glob_patterns() {
    let fw = FileSystemFirewall::new(FileSystemConfig::default());
    assert!(fw.matches_pattern("./data/run.exe", "*.exe"));
    assert!(fw.matches_pattern("/root/.ssh/id_rsa", "/root/*"));
    assert!(fw.matches_pattern("C:\\Windows\\System32\\cmd.exe", "C:\\Windows\\System32\\*"));
    assert!(fw.matches_pattern("/home/u/etc/passwd.bak", "/etc/passwd"));
    assert!(!fw.matches_pattern("./data/notes.txt", "*.exe"));
    // Several `*`: each stands for any text.
    assert!(fw.matches_pattern("C:/Users/bob/AppData/x", "C:\\Users\\*\\AppData\\*"));
    assert!(fw.matches_pattern("C:\\Users\\bob\\AppData\\Local\\x", "C:\\Users\\*\\AppData\\*"));
    assert!(fw.matches_pattern("C:/Users/*/AppData/*", "C:\\Users\\*\\AppData\\*"));
    assert!(!fw.matches_pattern("C:/Users/bob/Documents/x", "C:\\Users\\*\\AppData\\*"));
    assert!(fw.matches_pattern("/home/bob/.ssh/id_rsa", "/home/*/.ssh/*"));
    assert!(!fw.matches_pattern("/home/bob/docs/id_rsa", "/home/*/.ssh/*"));
    assert!(fw.matches_pattern("abc", "a*b*c"));
    assert!(fw.matches_pattern("ac", "a**c"));
    assert!(!fw.matches_pattern("abba", "ab*b*ba"));
    assert!(fw.matches_pattern("xaybz", "x*a*b*z"));
    assert!(!fw.matches_pattern("xbyaz", "x*a*b*z"));
    // One `*`: the start and the end may overlap, as before.
    assert!(fw.matches_pattern("aba", "ab*ba"));
}

#[test]
fn two_star_blocked_pattern_blocks_matching_paths() {
    let config = FileSystemConfig {
        allowed_paths: vec![],
        blocked_patterns: vec!["/home/*/.ssh/*".to_string()],
        max_file_size_mb: 100,
        require_approval_for_sensitive: false,
        log_all_operations: true,
    };
    let mut fw = FileSystemFirewall::new(config);
    assert!(matches!(
        fw.check_operation("/home/bob/.ssh/id_rsa", FileOpType::Read),
        FileCheck::BlockedPattern(_)
    ));
    let st = fw.get_stats();
    assert_eq!(st.total_operations, 1);
    assert_eq!(st.blocked_operations, 1);
    assert_eq!(st.blocked_patterns_hits, 1);
    assert_eq!(st.allowed_operations, 0);
    assert_eq!(fw.get_operation_log().len(), 1);
    assert!(fw.get_operation_log()[0].blocked);
}

#[test]
fn blocked_paths_and_whitelist() {
    let mut fw = FileSystemFirewall::new(FileSystemConfig::default());
    match fw.check_operation("/etc/passwd", FileOpType::Read) {
        FileCheck::BlockedPattern(p) => assert_eq!(p, "/etc/passwd"),
        _ => panic!("expected a pattern block"),
    }
    assert!(matches!(fw.check_operation("./data/a.txt", FileOpType::Read), FileCheck::Allowed));
    assert!(matches!(
        fw.check_operation("./src/main.rs", FileOpType::Read),
        FileCheck::NeedsApproval(ApprovalStage::PathNotWhitelisted)
    ));
    assert!(matches!(fw.answer_operation(Ok(true)), Ok(FileCheck::Allowed)));
    let s = fw.get_stats();
    assert_eq!(s.total_operations, 3);
    assert_eq!(s.allowed_operations, 2);
    assert_eq!(s.blocked_operations, 1);
    assert_eq!(s.blocked_patterns_hits, 1);
    let log = fw.get_operation_log();
    assert_eq!(log.len(), 3);
    assert!(log[0].blocked && !log[0].success);
    assert!(log[2].success);
}

#[test]
fn sensitive_operations_ask_twice_when_outside_the_whitelist() {
    let mut fw = FileSystemFirewall::new(FileSystemConfig::default());
    assert!(matches!(
        fw.check_operation("./notes/plan.md", FileOpType::Write),
        FileCheck::NeedsApproval(ApprovalStage::SensitiveOperation)
    ));
    assert!(matches!(
        fw.answer_operation(Ok(true)),
        Ok(FileCheck::NeedsApproval(ApprovalStage::PathNotWhitelisted))
    ));
    assert!(matches!(fw.answer_operation(Ok(false)), Ok(FileCheck::Denied)));
    assert!(matches!(
        fw.check_operation("./data/x", FileOpType::Delete),
        FileCheck::NeedsApproval(ApprovalStage::SensitiveOperation)
    ));
    assert!(matches!(fw.answer_operation(Ok(true)), Ok(FileCheck::Allowed)));
    assert!(matches!(
        fw.check_operation("./data/y", FileOpType::Delete),
        FileCheck::NeedsApproval(ApprovalStage::SensitiveOperation)
    ));
    match fw.answer_operation(Err("eof".to_string())) {
        Err(e) => assert_eq!(e, "Failed to get owner approval: eof"),
        Ok(_) => panic!("expected an error"),
    }
    let s = fw.get_stats();
    assert_eq!(s.total_operations, 3);
    assert_eq!(s.sensitive_access, 3);
    assert_eq!(s.blocked_operations, 1);
    assert_eq!(s.allowed_operations, 1);
}

#[test]
fn filesystem_configuration_changes() {
    let mut fw = FileSystemFirewall::new(FileSystemConfig::default());
    fw.set_require_approval(false);
    fw.add_allowed_path("./src");
    assert!(matches!(fw.check_operation("./src/lib.rs", FileOpType::Write), FileCheck::Allowed));
    fw.remove_allowed_path("./src");
    assert!(matches!(
        fw.check_operation("./src/lib.rs", FileOpType::Write),
        FileCheck::NeedsApproval(ApprovalStage::PathNotWhitelisted)
    ));
    fw.add_blocked_pattern("*.lock");
    assert!(matches!(fw.check_operation("./data/Cargo.lock", FileOpType::Read), FileCheck::BlockedPattern(_)));
    fw.remove_blocked_pattern("*.lock");
    assert!(matches!(fw.check_operation("./data/Cargo.lock", FileOpType::Read), FileCheck::Allowed));
    fw.set_max_file_size(5);
    fw.log_operation(FileOperation {
        path: "p".to_string(),
        operation: FileOpType::Copy,
        timestamp: 1,
        success: true,
        blocked: false,
    });
    assert_eq!(fw.get_operation_log().last().unwrap().operation, FileOpType::Copy);
}

// ----------------------------------------------------------------------
// Secret protection
// ----------------------------------------------------------------------

#[test]
fn secret_access_types() {
    assert_eq!(SecretAccessType::from_str("Print"), Some(SecretAccessType::Print));
    assert_eq!(SecretAccessType::from_str("delete"), None);
    assert!(SecretAccessType::Export.is_exposure());
    assert!(!SecretAccessType::Read.is_exposure());
    assert_eq!(SecretAccessType::Write.as_str(), "WRITE");
}

#[test]
fn exposing_a_protected_secret_is_blocked() {
    let mut sp = SecretProtection::new(SecretConfig::default());
    assert_eq!(sp.check_access("db_password", SecretAccessType::Print), Ok(false));
    assert_eq!(sp.check_access("db_password", SecretAccessType::Read), Ok(true));
    assert_eq!(sp.check_access("HOME", SecretAccessType::Export), Ok(true));
    let s = sp.get_stats();
    assert_eq!(s.total_access, 3);
    assert_eq!(s.blocked_access, 1);
    assert_eq!(s.exposure_attempts, 1);
    assert_eq!(s.allowed_access, 2);
    let log = sp.get_access_log();
    assert_eq!(log.len(), 3);
    assert!(log[0].blocked);
}

#[test]
fn protected_patterns_are_upper_cased() {
    let mut sp = SecretProtection::new(SecretConfig::default());
    sp.add_protected_pattern("session");
    assert_eq!(sp.check_access("user_session_id", SecretAccessType::Print), Ok(false));
    sp.remove_protected_pattern("Session");
    assert_eq!(sp.check_access("user_session_id", SecretAccessType::Print), Ok(true));
}

#[test]
fn masking_keeps_two_characters_at_each_end() {
    let sp = SecretProtection::new(SecretConfig::default());
    assert_eq!(sp.mask_value("supersecret"), "su*******et");
    assert_eq!(sp.mask_value("abcd"), "****");
    assert_eq!(sp.mask_value(""), "****");
    assert_eq!(sp.mask_value("abcde"), "ab*de");
    assert_eq!(sp.mask_value("sk-1234567890"), "sk*********90");
    assert_eq!(sp.mask_value("ééééé"), "éé*éé");
    assert_eq!(sp.mask_value("aébcd"), "aé*cd");
    assert_eq!(sp.mask_value("éééé"), "****");
}

#[test]
fn an_empty_whitelist_lets_every_path_through() {
    let mut config = FileSystemConfig::default();
    config.allowed_paths.clear();
    config.require_approval_for_sensitive = false;
    let mut fw = FileSystemFirewall::new(config);
    assert!(matches!(fw.check_operation("/anywhere/at/all.txt", FileOpType::Write), FileCheck::Allowed));
}

#[test]
fn secret_access_log_keeps_entries_in_order() {
    let mut sp = SecretProtection::new(SecretConfig::default());
    sp.log_access(SecretAccess {
        variable_name: "A".to_string(),
        access_type: SecretAccessType::Read,
        timestamp: 1,
        blocked: false,
    });
    sp.check_access("B_TOKEN", SecretAccessType::Export).unwrap();
    let log = sp.get_access_log();
    assert_eq!(log.len(), 2);
    assert_eq!(log[0].variable_name, "A");
    assert_eq!(log[1].variable_name, "B_TOKEN");
    assert!(log[1].blocked);
}

#[test]
fn network_menu_choices() {
    assert!(permission_from_choice(0));
    assert!(!permission_from_choice(1));
    assert!(permission_from_choice(2));
    assert!(!permission_from_choice(3));
    assert!(!permission_from_choice(7));
}

#[test]
fn type_names_parse_back() {
    for q in [
        QueryType::Select,
        QueryType::Insert,
        QueryType::Update,
        QueryType::Delete,
        QueryType::Create,
        QueryType::Drop,
        QueryType::Alter,
        QueryType::Truncate,
        QueryType::Unknown,
    ] {
        assert_eq!(QueryType::from_sql(q.as_str()), q);
    }
    for op in [
        FileOpType::Read,
        FileOpType::Write,
        FileOpType::Delete,
        FileOpType::Create,
        FileOpType::Rename,
        FileOpType::Copy,
        FileOpType::Execute,
    ] {
        assert_eq!(FileOpType::parse(op.as_str()), Some(op));
    }
    for t in [
        SecretAccessType::Read,
        SecretAccessType::Write,
        SecretAccessType::Print,
        SecretAccessType::Export,
    ] {
        assert_eq!(SecretAccessType::from_str(t.as_str()), Some(t));
    }
}
