use devbrowsers::inject::{
    choose_credential, credentials_to_fetch, escape_quotes, injection_script, is_web_page,
    login_script, url_domain,
};
use devbrowsers::vault::Credential;

fn cred(url: &str, selected: bool, fetched: bool, user: &str) -> Credential {
    Credential {
        entry_path: user.to_string(),
        site_name: user.to_string(),
        username: user.to_string(),
        password: format!("{}-pw", user),
        url: url.to_string(),
        selected,
        fetched,
    }
}

#[test]
fn domains_drop_scheme_www_path_and_query() {
    assert_eq!(url_domain("https://www.example.com/login?next=/"), "example.com");
    assert_eq!(url_domain("http://example.com?x=1"), "example.com");
    assert_eq!(url_domain("example.com/a/b"), "example.com");
    assert_eq!(url_domain("https://"), "");
    assert_eq!(url_domain("localhost:3000/app"), "localhost:3000");
}

#[test]
fn only_web_pages_get_forms_filled() {
    assert!(is_web_page("http://x"));
    assert!(is_web_page("https://x"));
    assert!(!is_web_page("chrome://newtab"));
    assert!(!is_web_page("about:blank"));
}

#[test]
fn the_first_credential_of_the_domain_is_chosen() {
    let creds = vec![
        cred("https://other.org", true, true, "a"),
        cred("https://www.site.com/login", true, true, "b"),
        cred("site.com", true, true, "c"),
    ];
    assert_eq!(choose_credential(&creds, "https://site.com/account"), Some(1));
}

#[test]
fn credentials_not_ready_are_skipped() {
    let creds = vec![
        cred("https://site.com", false, true, "a"),
        cred("https://site.com", true, false, "b"),
        cred("", true, true, "c"),
    ];
    // no credential serves the domain; exactly one is ready
    assert_eq!(choose_credential(&creds, "https://site.com/"), Some(2));
}

#[test]
fn without_a_domain_match_two_ready_credentials_give_none() {
    let creds = vec![cred("https://a.com", true, true, "a"), cred("https://b.com", true, true, "b")];
    assert_eq!(choose_credential(&creds, "https://c.com"), None);
    let creds = vec![cred("https://a.com", true, true, "a")];
    assert_eq!(choose_credential(&creds, "https://c.com"), Some(0));
    let none: Vec<Credential> = Vec::new();
    assert_eq!(choose_credential(&none, "https://c.com"), None);
}

#[test]
fn an_empty_target_domain_matches_nothing() {
    let creds = vec![cred("https://", true, true, "a"), cred("https://b.com", true, true, "b")];
    assert_eq!(choose_credential(&creds, "https://"), None);
}

#[test]
fn quotes_are_escaped() {
    assert_eq!(escape_quotes("it's"), "it\\'s");
    assert_eq!(escape_quotes("plain"), "plain");
    assert_eq!(escape_quotes("''"), "\\'\\'");
}

#[test]
fn the_login_script_embeds_escaped_values() {
    let js = login_script("o'neil", "p'w");
    assert!(js.starts_with("(function() { let passField = document.querySelector('input[type=\"password\"]');"));
    assert!(js.contains("userField.value = 'o\\'neil';"));
    assert!(js.contains("passField.value = 'p\\'w';"));
    assert!(js.ends_with("return 'SUCESSO'; })();"));
}

#[test]
fn injection_scripts_per_tab() {
    let creds = vec![cred("https://site.com", true, true, "bob")];
    assert_eq!(injection_script(&creds, "chrome://settings"), None);
    let js = injection_script(&creds, "https://site.com/x").unwrap();
    assert_eq!(js, login_script("bob", "bob-pw"));
    let two = vec![cred("https://a.com", true, true, "a"), cred("https://b.com", true, true, "b")];
    assert_eq!(injection_script(&two, "https://c.com"), None);
}

#[test]
fn credentials_to_fetch_are_the_picked_unfetched_ones() {
    let creds = vec![
        cred("", true, false, "a"),
        cred("", true, true, "b"),
        cred("", false, false, "c"),
        cred("", true, false, "d"),
    ];
    assert_eq!(credentials_to_fetch(&creds), vec![0, 3]);
}

#[test]
fn escaping_loses_nothing() {
    for s in ["it's", "\\'", "a\\b'c''", "", "plain", "'\\"] {
        let e = escape_quotes(s);
        assert_eq!(e.replace("\\'", "'"), s, "escaped {:?}", s);
    }
}

#[test]
fn domains_hold_no_slash_or_question_mark() {
    for u in ["https://a.com/b?c", "http://x?y/z", "www.q.org/", "??//", ""] {
        let d = url_domain(u);
        assert!(!d.contains('/') && !d.contains('?'), "domain of {:?} is {:?}", u, d);
    }
}
