//! Launching browsers for development: which programs to look for, the
//! command line each browser gets, and the debugging address it reports.
use vstd::prelude::*;
use crate::cdp::{local_address, local_address_spec};
use crate::text::{join_text, decimal, decimal_spec, from_first, matches_at, trim, trim_spec};

verus! {

/// The two families of browsers the launcher drives.
#[derive(Clone, Copy, PartialEq, Eq, Structural, Debug)]
pub enum BrowserType {
    Chromium,
    Firefox,
}

/// The first port given to browser debugging; instance `id` gets the port
/// after it by `id`.
pub open spec fn first_debug_port() -> int {
    9222
}

/// The name of a family of browsers as the launcher shows it.
pub open spec fn label_spec(b: BrowserType) -> Seq<char> {
    match b {
        BrowserType::Chromium => "Chromium"@,
        BrowserType::Firefox => "Firefox"@,
    }
}

/// The programs tried, in order, to start a browser of a family.
pub open spec fn candidates_spec(b: BrowserType) -> Seq<Seq<char>> {
    match b {
        BrowserType::Chromium => seq![
            "chromium"@,
            "google-chrome-stable"@,
            "google-chrome"@,
            "brave"@,
            "microsoft-edge-stable"@,
        ],
        BrowserType::Firefox => seq!["firefox"@, "firefox-developer-edition"@],
    }
}

/// The addresses of `urls` that are not empty, in order.
pub open spec fn non_empty_spec(urls: Seq<Seq<char>>) -> Seq<Seq<char>>
    decreases urls.len(),
{
    if urls.len() == 0 {
        Seq::<Seq<char>>::empty()
    } else {
        let prev = non_empty_spec(urls.drop_last());
        if urls.last().len() > 0 {
            prev.push(urls.last())
        } else {
            prev
        }
    }
}

/// Only addresses that are not empty are opened, and none is added.
pub proof fn lemma_non_empty(urls: Seq<Seq<char>>)
    ensures
        non_empty_spec(urls).len() <= urls.len(),
        forall|i: int| 0 <= i < non_empty_spec(urls).len() ==> (#[trigger] non_empty_spec(urls)[i]).len() > 0,
        forall|i: int| 0 <= i < non_empty_spec(urls).len() ==> urls.contains(#[trigger] non_empty_spec(urls)[i]),
    decreases urls.len(),
{
    if urls.len() > 0 {
        let t = urls.drop_last();
        lemma_non_empty(t);
        let prev = non_empty_spec(t);
        assert forall|i: int| 0 <= i < non_empty_spec(urls).len() implies urls.contains(#[trigger] non_empty_spec(urls)[i]) && non_empty_spec(urls)[i].len() > 0 by {
            if i < prev.len() {
                assert(non_empty_spec(urls)[i] == prev[i]);
                let j = choose|j: int| 0 <= j < t.len() && t[j] == prev[i];
                assert(urls[j] == t[j]);
            } else {
                assert(non_empty_spec(urls)[i] == urls.last());
                assert(urls[urls.len() - 1] == urls.last());
            }
        }
    }
}

/// The number of fixed options a browser of family `b` is started with.
pub open spec fn fixed_option_count(b: BrowserType) -> nat {
    match b {
        BrowserType::Chromium => 5,
        BrowserType::Firefox => 4,
    }
}

/// The addresses a browser is asked to open are exactly the non-empty
/// addresses given, in their order.
pub proof fn lemma_non_empty_is_filter(urls: Seq<Seq<char>>)
    ensures
        non_empty_spec(urls) == urls.filter(|u: Seq<char>| u.len() > 0),
    decreases urls.len(),
{
    reveal(Seq::filter);
    if urls.len() > 0 {
        lemma_non_empty_is_filter(urls.drop_last());
    }
}

/// Whatever the family, the command line is its fixed options followed by
/// exactly the non-empty addresses given, in order; the profile and the
/// debugging port are among the fixed options.
pub proof fn lemma_launch_opens_urls(
    b: BrowserType,
    profile_dir: Seq<char>,
    urls: Seq<Seq<char>>,
    port: u16,
)
    ensures
        ({
            let args = launch_args_spec(b, profile_dir, urls, port);
            let opened = urls.filter(|u: Seq<char>| u.len() > 0);
            &&& args.len() == fixed_option_count(b) + opened.len()
            &&& args.skip(fixed_option_count(b) as int) == opened
            &&& args.take(fixed_option_count(b) as int).contains(
                "--remote-debugging-port="@ + decimal_spec(port as nat),
            )
            &&& match b {
                BrowserType::Chromium => args[0] == "--user-data-dir="@ + profile_dir,
                BrowserType::Firefox => args[0] == "--profile"@ && args[1] == profile_dir,
            }
        }),
{
    lemma_non_empty_is_filter(urls);
    let args = launch_args_spec(b, profile_dir, urls, port);
    let n = fixed_option_count(b) as int;
    assert(args.skip(n) =~= non_empty_spec(urls));
    let d = "--remote-debugging-port="@ + decimal_spec(port as nat);
    match b {
        BrowserType::Chromium => {
            assert(args.take(n)[1] == d);
        },
        BrowserType::Firefox => {
            assert(args.take(n)[2] == d);
        },
    }
}

/// The command line of a browser of family `b` with its profile in
/// `profile_dir`, debugging on `port`, opening `urls`.
pub open spec fn launch_args_spec(
    b: BrowserType,
    profile_dir: Seq<char>,
    urls: Seq<Seq<char>>,
    port: u16,
) -> Seq<Seq<char>> {
    let debug = "--remote-debugging-port="@ + decimal_spec(port as nat);
    match b {
        BrowserType::Chromium => seq![
            "--user-data-dir="@ + profile_dir,
            debug,
            "--no-first-run"@,
            "--no-default-browser-check"@,
            "--disable-sync"@,
        ] + non_empty_spec(urls),
        BrowserType::Firefox => seq!["--profile"@, profile_dir, debug, "--new-instance"@]
            + non_empty_spec(urls),
    }
}

/// The name the launcher gives instance `id` of a browser opened for
/// `prefix`.
pub open spec fn instance_name_spec(prefix: Seq<char>, id: nat) -> Seq<char> {
    prefix + " #"@ + decimal_spec(id)
}

/// The profile directory of a throw-away instance `id`.
pub open spec fn scratch_profile_spec(id: nat) -> Seq<char> {
    "/tmp/devbrowser_profile_"@ + decimal_spec(id)
}

/// The preferences written into a Firefox profile so that the browser
/// accepts remote debugging over WebDriver BiDi.
pub open spec fn firefox_prefs_spec() -> Seq<char> {
    "user_pref(\"remote.active-protocols\", 2);\nuser_pref(\"devtools.debugger.remote-enabled\", true);\nuser_pref(\"devtools.chrome.enabled\", true);\n"@
}

/// The characters of each string.
pub open spec fn string_views(v: Seq<String>) -> Seq<Seq<char>> {
    v.map_values(|s: String| s@)
}

impl BrowserType {
    /// The name of the family as the launcher shows it.
    pub fn label(&self) -> (res: String)
        ensures
            res@ == label_spec(*self),
    {
        match self {
            BrowserType::Chromium => String::from_str("Chromium"),
            BrowserType::Firefox => String::from_str("Firefox"),
        }
    }

    /// The programs tried, in order, to start a browser of the family.
    pub fn executable_candidates(&self) -> (res: Vec<String>)
        ensures
            string_views(res@) == candidates_spec(*self),
    {
        let mut v: Vec<String> = Vec::new();
        match self {
            BrowserType::Chromium => {
                v.push(String::from_str("chromium"));
                v.push(String::from_str("google-chrome-stable"));
                v.push(String::from_str("google-chrome"));
                v.push(String::from_str("brave"));
                v.push(String::from_str("microsoft-edge-stable"));
            },
            BrowserType::Firefox => {
                v.push(String::from_str("firefox"));
                v.push(String::from_str("firefox-developer-edition"));
            },
        }
        proof {
            assert(string_views(v@) =~= candidates_spec(*self));
        }
        v
    }
}

/// The debugging port of instance `id`: the first debugging port plus `id`
/// taken modulo 2^16 (`9222 + id as u16`), which must not overflow.
pub fn debug_port(id: usize) -> (port: u16)
    requires
        id % 65536 + first_debug_port() <= 65535,
    ensures
        port == id % 65536 + first_debug_port(),
{
    let low = (id % 65536) as u16;
    9222 + low
}

/// The path of the program found by `which`, from its output.
pub fn found_executable(which_output: &str) -> (res: String)
    ensures
        res@ == trim_spec(which_output@),
{
    trim(which_output)
}

/// The command line of a browser of family `b` with its profile in
/// `profile_dir`, debugging on `port`, opening the non-empty addresses of
/// `urls`.
pub fn launch_args(b: &BrowserType, profile_dir: &str, urls: &Vec<String>, port: u16) -> (res: Vec<
    String,
>)
    ensures
        string_views(res@) == launch_args_spec(*b, profile_dir@, string_views(urls@), port),
{
    let p = decimal(port as u64);
    let debug = join_text("--remote-debugging-port=", p.as_str());
    let mut args: Vec<String> = Vec::new();
    match b {
        BrowserType::Chromium => {
            args.push(join_text("--user-data-dir=", profile_dir));
            args.push(debug);
            args.push(String::from_str("--no-first-run"));
            args.push(String::from_str("--no-default-browser-check"));
            args.push(String::from_str("--disable-sync"));
        },
        BrowserType::Firefox => {
            args.push(String::from_str("--profile"));
            args.push(String::from_str(profile_dir));
            args.push(debug);
            args.push(String::from_str("--new-instance"));
        },
    }
    let ghost head = string_views(args@);
    let ghost us = string_views(urls@);
    proof {
        assert(us.take(0) =~= Seq::<Seq<char>>::empty());
        assert(head + non_empty_spec(us.take(0)) =~= head);
    }
    let mut i: usize = 0;
    while i < urls.len()
        invariant
            i <= urls@.len(),
            us == string_views(urls@),
            string_views(args@) == head + non_empty_spec(us.take(i as int)),
        decreases urls@.len() - i,
    {
        proof {
            assert(us.take(i + 1).drop_last() =~= us.take(i as int));
            assert(us.take(i + 1).last() == urls@[i as int]@);
        }
        if !urls[i].as_str().is_empty() {
            let ghost before = string_views(args@);
            args.push(String::from_str(urls[i].as_str()));
            proof {
                assert(string_views(args@) =~= before.push(urls@[i as int]@));
            }
        }
        i += 1;
    }
    proof {
        assert(us.take(urls@.len() as int) =~= us);
        assert(string_views(args@) =~= launch_args_spec(*b, profile_dir@, us, port));
    }
    args
}

/// The preferences written into a Firefox profile.
pub fn firefox_prefs() -> (res: String)
    ensures
        res@ == firefox_prefs_spec(),
{
    String::from_str(
        "user_pref(\"remote.active-protocols\", 2);\nuser_pref(\"devtools.debugger.remote-enabled\", true);\nuser_pref(\"devtools.chrome.enabled\", true);\n",
    )
}

/// The debugging socket a browser reports on a line of its error output:
/// the line from the first `ws://` on, trimmed; none when the line has no
/// `ws://`.
pub fn socket_in_line(line: &str) -> (res: Option<String>)
    ensures
        res is Some <==> exists|j: int| matches_at(line@, j, "ws://"@),
        res matches Some(s) ==> exists|i: int|
            #![trigger matches_at(line@, i, "ws://"@)]
            {
                &&& matches_at(line@, i, "ws://"@)
                &&& (forall|j: int| 0 <= j < i ==> !matches_at(line@, j, "ws://"@))
                &&& s@ == trim_spec(line@.skip(i))
            },
{
    match from_first(line, "ws://") {
        Some(rest) => Some(trim(rest.as_str())),
        None => None,
    }
}

/// The debugging socket of a launched browser: the captured one with
/// `localhost` written as `127.0.0.1`, or empty when none was captured in
/// time.
pub fn launched_socket(captured: Option<String>) -> (res: String)
    ensures
        res@ == local_address_spec(
            match captured {
                Some(s) => s@,
                None => Seq::<char>::empty(),
            },
        ),
{
    match captured {
        Some(s) => local_address(s.as_str()),
        None => {
            proof {
                reveal_strlit("");
                assert(""@ =~= Seq::<char>::empty());
            }
            local_address("")
        },
    }
}

/// The name of instance `id` of a browser opened for `prefix`.
pub fn instance_name(prefix: &str, id: usize) -> (res: String)
    ensures
        res@ == instance_name_spec(prefix@, id as nat),
{
    let a = join_text(prefix, " #");
    let d = decimal(id as u64);
    join_text(a.as_str(), d.as_str())
}

/// The profile directory of a throw-away instance `id`.
pub fn scratch_profile(id: usize) -> (res: String)
    ensures
        res@ == scratch_profile_spec(id as nat),
{
    let d = decimal(id as u64);
    join_text("/tmp/devbrowser_profile_", d.as_str())
}

} // verus!
