use devbrowsers::app::AppTab;
use devbrowsers::browser::{
    debug_port, firefox_prefs, found_executable, instance_name, launch_args, launched_socket,
    scratch_profile, socket_in_line, BrowserType,
};
use devbrowsers::clipboard::pasted_text;
use devbrowsers::project::{add_service, export_path, new_project, notes_text, ProjectService};

#[test]
fn browser_names_and_programs() {
    assert_eq!(BrowserType::Chromium.label(), "Chromium");
    assert_eq!(BrowserType::Firefox.label(), "Firefox");
    assert_eq!(
        BrowserType::Chromium.executable_candidates(),
        vec!["chromium", "google-chrome-stable", "google-chrome", "brave", "microsoft-edge-stable"]
    );
    assert_eq!(BrowserType::Firefox.executable_candidates(), vec!["firefox", "firefox-developer-edition"]);
    assert_eq!(found_executable("/usr/bin/chromium\n"), "/usr/bin/chromium");
    assert!(BrowserType::Chromium != BrowserType::Firefox);
    assert!(AppTab::Main != AppTab::Vault);
}

#[test]
fn debug_ports_follow_the_instance() {
    assert_eq!(debug_port(0), 9222);
    assert_eq!(debug_port(1), 9223);
    assert_eq!(debug_port(56313), 65535);
    assert_eq!(debug_port(65536 + 2), 9224);
}

#[test]
fn chromium_command_line() {
    let urls = vec!["http://localhost:3000".to_string(), String::new(), "https://b".to_string()];
    assert_eq!(
        launch_args(&BrowserType::Chromium, "/tmp/p", &urls, 9223),
        vec![
            "--user-data-dir=/tmp/p",
            "--remote-debugging-port=9223",
            "--no-first-run",
            "--no-default-browser-check",
            "--disable-sync",
            "http://localhost:3000",
            "https://b",
        ]
    );
}

#[test]
fn firefox_command_line_and_prefs() {
    let urls = vec![String::new()];
    assert_eq!(
        launch_args(&BrowserType::Firefox, "/tmp/f", &urls, 9224),
        vec!["--profile", "/tmp/f", "--remote-debugging-port=9224", "--new-instance"]
    );
    assert_eq!(
        firefox_prefs(),
        "user_pref(\"remote.active-protocols\", 2);\nuser_pref(\"devtools.debugger.remote-enabled\", true);\nuser_pref(\"devtools.chrome.enabled\", true);\n"
    );
}

#[test]
fn debugging_socket_from_browser_output() {
    assert_eq!(
        socket_in_line("DevTools listening on ws://127.0.0.1:9222/devtools/browser/x-y  "),
        Some("ws://127.0.0.1:9222/devtools/browser/x-y".to_string())
    );
    assert_eq!(
        socket_in_line("WebDriver BiDi listening on ws://localhost:9223"),
        Some("ws://localhost:9223".to_string())
    );
    assert_eq!(socket_in_line("[warning] nothing here"), None);
    assert_eq!(launched_socket(Some("ws://localhost:9223".to_string())), "ws://127.0.0.1:9223");
    assert_eq!(launched_socket(None), "");
}

#[test]
fn instance_names_and_profiles() {
    assert_eq!(instance_name("Chromium", 3), "Chromium #3");
    assert_eq!(instance_name("WP Admin", 12), "WP Admin #12");
    assert_eq!(scratch_profile(2), "/tmp/devbrowser_profile_2");
}

#[test]
fn clipboard_text_loses_trailing_line_ends() {
    assert_eq!(pasted_text("abc\n\n"), "abc");
    assert_eq!(pasted_text("abc\r\n"), "abc");
    assert_eq!(pasted_text("abc\n\r"), "abc\n");
    assert_eq!(pasted_text("\n"), "");
    assert_eq!(pasted_text("a\nb"), "a\nb");
}

#[test]
fn projects() {
    assert_eq!(notes_text("Cliente X"), "# Cliente X\n\nAnotações do projeto...");
    assert!(new_project("", "Name", Vec::new()).is_none());
    assert!(new_project("id", "", Vec::new()).is_none());
    let svc = vec![ProjectService { nome: "WP".to_string(), url: "http://x/wp-admin".to_string() }];
    let p = new_project("cliente_x", "Cliente X", svc).unwrap();
    assert_eq!(p.id, "cliente_x");
    assert_eq!(p.nome, "Cliente X");
    assert_eq!(p.servicos.len(), 1);
    assert_eq!(p.servicos[0].url, "http://x/wp-admin");
    assert_eq!(p.tecnologias, vec!["php", "wordpress"]);
    assert_eq!(export_path("/home/u/Downloads", "cliente_x"), "/home/u/Downloads/cliente_x.tar.gz");
}

#[test]
fn services_need_an_address() {
    let mut s: Vec<ProjectService> = Vec::new();
    assert!(!add_service(&mut s, "name", ""));
    assert!(s.is_empty());
    assert!(add_service(&mut s, "", "http://x"));
    assert_eq!(s.len(), 1);
    assert_eq!(s[0].nome, "");
    assert_eq!(s[0].url, "http://x");
}
