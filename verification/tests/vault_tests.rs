use devbrowsers::vault::{cli_result, confirmation, Credential, KeePassIntegration};

fn kp(path: &str, pass: &str) -> KeePassIntegration {
    KeePassIntegration {
        db_path: path.to_string(),
        master_pass: pass.to_string(),
        is_unlocked: false,
        error_msg: None,
    }
}

fn blank(path: &str) -> Credential {
    Credential {
        entry_path: path.to_string(),
        site_name: "s".to_string(),
        username: "old-user".to_string(),
        password: "old-pass".to_string(),
        url: "old-url".to_string(),
        selected: false,
        fetched: false,
    }
}

#[test]
fn default_vault_is_locked_and_empty() {
    let v = KeePassIntegration::default();
    assert_eq!(v.db_path, "");
    assert_eq!(v.master_pass, "");
    assert!(!v.is_unlocked);
    assert_eq!(v.error_msg, None);
}

#[test]
fn create_db_types_the_password_twice() {
    let call = KeePassIntegration::create_db_call("/p/vault.kdbx", "s3cret");
    assert_eq!(call.args, vec!["db-create", "-p", "/p/vault.kdbx"]);
    assert_eq!(call.input, "s3cret\ns3cret\n");
    assert_eq!(KeePassIntegration::create_db_result(true, "ignored"), Ok("Cofre criado".to_string()));
    assert_eq!(
        KeePassIntegration::create_db_result(false, "  Error: file exists\n"),
        Err("Error: file exists".to_string())
    );
}

#[test]
fn cli_outcomes_are_trimmed() {
    assert_eq!(cli_result(true, " out \n", "err"), Ok("out".to_string()));
    assert_eq!(cli_result(false, "out", "\n bad password \n"), Err("bad password".to_string()));
    assert_eq!(confirmation(true, "x", "done"), Ok("done".to_string()));
    assert_eq!(confirmation(false, " x ", "done"), Err("x".to_string()));
}

#[test]
fn unlock_needs_a_vault_path() {
    let v = kp("", "pw");
    assert!(v.unlock_call().is_none());
    let v = kp("/v.kdbx", "pw");
    let call = v.unlock_call().unwrap();
    assert_eq!(call.args, vec!["ls", "-q", "/v.kdbx"]);
    assert_eq!(call.input, "pw\n");
}

#[test]
fn test_unlock_without_path_changes_nothing() {
    let mut v = kp("", "pw");
    v.error_msg = Some("earlier".to_string());
    assert!(!v.test_unlock(Ok("fine".to_string())));
    assert!(!v.is_unlocked);
    assert_eq!(v.error_msg, Some("earlier".to_string()));
}

#[test]
fn test_unlock_success_and_failure() {
    let mut v = kp("/v.kdbx", "pw");
    v.error_msg = Some("earlier".to_string());
    assert!(v.test_unlock(Ok(String::new())));
    assert!(v.is_unlocked);
    assert_eq!(v.error_msg, None);
    assert!(!v.test_unlock(Err("Invalid credentials".to_string())));
    assert!(!v.is_unlocked);
    assert_eq!(v.error_msg, Some("Invalid credentials".to_string()));
}

#[test]
fn list_all_entries_keeps_entries_and_skips_groups() {
    let v = kp("/v.kdbx", "pw");
    let call = v.list_call();
    assert_eq!(call.args, vec!["ls", "-R", "/v.kdbx"]);
    assert_eq!(call.input, "pw\n");
    let out = "General/\n  General/GitHub\r\n\n   \nEmail\nWork/Servers/\nWork/Servers/db one  \n".to_string();
    let got = v.list_all_entries(Ok(out));
    let paths: Vec<&str> = got.iter().map(|c| c.entry_path.as_str()).collect();
    assert_eq!(paths, vec!["General/GitHub", "Email", "Work/Servers/db one"]);
    let sites: Vec<&str> = got.iter().map(|c| c.site_name.as_str()).collect();
    assert_eq!(sites, vec!["GitHub", "Email", "db one"]);
    for c in &got {
        assert!(c.selected);
        assert!(!c.fetched);
        assert_eq!(c.username, "");
        assert_eq!(c.password, "");
        assert_eq!(c.url, "");
    }
}

#[test]
fn list_all_entries_of_a_failed_run_is_empty() {
    let v = kp("/v.kdbx", "pw");
    assert!(v.list_all_entries(Err("locked".to_string())).is_empty());
    assert!(v.list_all_entries(Ok(String::new())).is_empty());
}

#[test]
fn fetch_details_reads_the_fields() {
    let v = kp("/v.kdbx", "pw");
    let mut c = blank("Web/site");
    let call = v.fetch_call(&c);
    assert_eq!(call.args, vec!["show", "-q", "-s", "/v.kdbx", "Web/site"]);
    assert_eq!(call.input, "pw\n");
    let out = "Title: site\nUserName:  alice \nPassword: p@ss word\nURL: https://site.example/login\nNotes: URL: not this\n".to_string();
    v.fetch_details(&mut c, Ok(out));
    assert!(c.fetched);
    assert_eq!(c.username, "alice");
    assert_eq!(c.password, "p@ss word");
    assert_eq!(c.url, "https://site.example/login");
    assert_eq!(c.entry_path, "Web/site");
    assert_eq!(c.site_name, "s");
    assert!(!c.selected);
}

#[test]
fn fetch_details_last_line_wins_and_missing_fields_stay() {
    let v = kp("/v.kdbx", "pw");
    let mut c = blank("e");
    v.fetch_details(&mut c, Ok("UserName: first\nUserName: second\r\n".to_string()));
    assert_eq!(c.username, "second");
    assert_eq!(c.password, "old-pass");
    assert_eq!(c.url, "old-url");
    assert!(c.fetched);
}

#[test]
fn fetch_details_after_a_failed_run_only_marks_fetched() {
    let v = kp("/v.kdbx", "pw");
    let mut c = blank("e");
    v.fetch_details(&mut c, Err("no such entry".to_string()));
    assert!(c.fetched);
    assert_eq!(c.username, "old-user");
    assert_eq!(c.password, "old-pass");
    assert_eq!(c.url, "old-url");
}

#[test]
fn add_and_remove_entries() {
    let v = kp("/v.kdbx", "master");
    let call = v.add_entry_call("Site", "bob", "pw1", "https://s");
    assert_eq!(call.args, vec!["add", "-p", "-u", "bob", "--url", "https://s", "/v.kdbx", "Site"]);
    assert_eq!(call.input, "master\npw1\npw1\n");
    let call = v.rm_entry_call("Web/Site");
    assert_eq!(call.args, vec!["rm", "-q", "/v.kdbx", "Web/Site"]);
    assert_eq!(call.input, "master\n");
    assert_eq!(KeePassIntegration::change_result(true, ""), Ok("Sucesso".to_string()));
    assert_eq!(KeePassIntegration::change_result(false, " nope "), Err("nope".to_string()));
    let call = v.cli_call(vec!["x".to_string()]);
    assert_eq!(call.args, vec!["x"]);
    assert_eq!(call.input, "master\n");
}
