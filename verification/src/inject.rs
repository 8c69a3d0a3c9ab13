//! Filling a login form in a browser tab with a credential of the vault:
//! which tabs are candidates, which credential goes to a tab, and the script
//! that fills the form.
use vstd::prelude::*;
use crate::text::{
    before_first, first_piece, has_prefix, join_text, lemma_before_first, lemma_before_first_boundary,
    replace, replace_spec,
    starts_with,
};
use crate::vault::Credential;

verus! {

/// The host part of a URL as the launcher compares them: the scheme and a
/// `www.` removed, then everything from the first `/` and from the first `?`
/// dropped.
pub open spec fn url_domain_spec(url: Seq<char>) -> Seq<char> {
    let no_https = replace_spec(url, "https://"@, Seq::<char>::empty());
    let no_http = replace_spec(no_https, "http://"@, Seq::<char>::empty());
    let no_www = replace_spec(no_http, "www."@, Seq::<char>::empty());
    before_first(before_first(no_www, '/'), '?')
}

/// A credential that was picked by the user and whose fields are known.
pub open spec fn is_ready(c: Credential) -> bool {
    c.selected && c.fetched
}

/// A ready credential whose URL names the same (non-empty) domain as the tab.
pub open spec fn serves_domain(c: Credential, domain: Seq<char>) -> bool {
    &&& is_ready(c)
    &&& c.url@.len() > 0
    &&& domain.len() > 0
    &&& url_domain_spec(c.url@) == domain
}

/// The credential at `i` is the only ready one.
pub open spec fn sole_ready(creds: Seq<Credential>, i: int) -> bool {
    &&& 0 <= i < creds.len()
    &&& is_ready(creds[i])
    &&& forall|j: int| 0 <= j < creds.len() && j != i ==> !is_ready(#[trigger] creds[j])
}

/// The credential at `i` is the first that serves `domain`.
pub open spec fn first_serving(creds: Seq<Credential>, domain: Seq<char>, i: int) -> bool {
    &&& 0 <= i < creds.len()
    &&& serves_domain(creds[i], domain)
    &&& forall|j: int| 0 <= j < i ==> !serves_domain(#[trigger] creds[j], domain)
}

/// No credential serves `domain`.
pub open spec fn none_serving(creds: Seq<Credential>, domain: Seq<char>) -> bool {
    forall|j: int| 0 <= j < creds.len() ==> !serves_domain(#[trigger] creds[j], domain)
}

/// The credential at `i` is the one to fill into a tab of `domain`: the
/// first that serves the domain, or, when none does, the only ready one.
pub open spec fn chosen(creds: Seq<Credential>, domain: Seq<char>, i: int) -> bool {
    ||| first_serving(creds, domain, i)
    ||| none_serving(creds, domain) && sole_ready(creds, i)
}

/// `s` with every single quote preceded by a backslash.
pub open spec fn escape_quotes_spec(s: Seq<char>) -> Seq<char> {
    replace_spec(s, "'"@, "\\'"@)
}

pub open spec fn script_head() -> Seq<char> {
    "(function() { let passField = document.querySelector('input[type=\"password\"]'); if (!passField) return 'ERRO'; let form = passField.closest('form'); let userField = form ? form.querySelector('input[type=\"text\"], input[type=\"email\"], input:not([type=\"password\"]):not([type=\"hidden\"])') : document.querySelector('input[type=\"text\"], input[type=\"email\"]'); if (userField) { userField.value = '"@
}

pub open spec fn script_middle() -> Seq<char> {
    "'; userField.dispatchEvent(new Event('input', { bubbles: true })); userField.dispatchEvent(new Event('change', { bubbles: true })); } passField.value = '"@
}

pub open spec fn script_tail() -> Seq<char> {
    "'; passField.dispatchEvent(new Event('input', { bubbles: true })); passField.dispatchEvent(new Event('change', { bubbles: true })); return 'SUCESSO'; })();"@
}

/// The script that fills the user and password fields of the login form of
/// a page and reports `SUCESSO`, or `ERRO` when the page has no password
/// field.
pub open spec fn login_script_spec(user: Seq<char>, pass: Seq<char>) -> Seq<char> {
    script_head() + escape_quotes_spec(user) + script_middle() + escape_quotes_spec(pass)
        + script_tail()
}

/// The domain of `url` as the launcher compares them.
pub fn url_domain(url: &str) -> (res: String)
    ensures
        res@ == url_domain_spec(url@),
{
    proof {
        reveal_strlit("https://");
        reveal_strlit("http://");
        reveal_strlit("www.");
        reveal_strlit("");
        assert(""@ =~= Seq::<char>::empty());
    }
    let a = replace(url, "https://", "");
    let b = replace(a.as_str(), "http://", "");
    let c = replace(b.as_str(), "www.", "");
    let d = first_piece(c.as_str(), '/');
    first_piece(d.as_str(), '?')
}

/// Whether the launcher fills forms in a tab showing `url`: only web pages,
/// whose URL begins with `http`.
pub fn is_web_page(url: &str) -> (res: bool)
    ensures
        res == has_prefix(url@, "http"@),
{
    starts_with(url, "http")
}

/// The credential to fill into a tab showing `target_url`: the first ready
/// credential for the tab's domain; failing that, the only ready credential
/// if there is exactly one; otherwise none.
pub fn choose_credential(creds: &Vec<Credential>, target_url: &str) -> (res: Option<usize>)
    ensures
        res matches Some(i) ==> chosen(creds@, url_domain_spec(target_url@), i as int),
        res is None ==> forall|i: int| !chosen(creds@, url_domain_spec(target_url@), i),
{
    let domain = url_domain(target_url);
    let ghost d = url_domain_spec(target_url@);
    let domain_empty = domain.as_str().is_empty();
    let mut i: usize = 0;
    while i < creds.len()
        invariant
            i <= creds@.len(),
            domain@ == d,
            d == url_domain_spec(target_url@),
            domain_empty == (d.len() == 0),
            forall|j: int| 0 <= j < i ==> !serves_domain(#[trigger] creds@[j], d),
        decreases creds@.len() - i,
    {
        let c = &creds[i];
        if c.selected && c.fetched && !c.url.as_str().is_empty() {
            let cd = url_domain(c.url.as_str());
            if !domain_empty && crate::text::str_equal(domain.as_str(), cd.as_str()) {
                proof {
                    assert(serves_domain(creds@[i as int], d));
                }
                return Some(i);
            }
        }
        i += 1;
    }
    let mut count: usize = 0;
    let mut found: usize = 0;
    let mut k: usize = 0;
    while k < creds.len()
        invariant
            k <= creds@.len(),
            count <= k,
            count == 0 ==> forall|j: int| 0 <= j < k ==> !is_ready(#[trigger] creds@[j]),
            count >= 1 ==> found < k && is_ready(creds@[found as int]),
            count == 1 ==> forall|j: int|
                0 <= j < k && j != found ==> !is_ready(#[trigger] creds@[j]),
            count >= 2 ==> exists|a: int, b: int|
                0 <= a < k && 0 <= b < k && a != b && #[trigger] is_ready(creds@[a])
                    && #[trigger] is_ready(creds@[b]),
        decreases creds@.len() - k,
    {
        if creds[k].selected && creds[k].fetched {
            if count == 1 {
                assert(is_ready(creds@[found as int]) && is_ready(creds@[k as int]));
            }
            if count == 0 {
                found = k;
            }
            if count < 2 {
                count = count + 1;
            }
        }
        k += 1;
    }
    if count == 1 {
        Some(found)
    } else {
        assert forall|i: int| !first_serving(creds@, d, i) by {
            if 0 <= i < creds@.len() {
                assert(!serves_domain(creds@[i], d));
            }
        }
        if count >= 2 {
            assert forall|i: int| !sole_ready(creds@, i) by {
                let (a, b) = choose|a: int, b: int|
                    0 <= a < creds@.len() && 0 <= b < creds@.len() && a != b && #[trigger] is_ready(
                        creds@[a],
                    ) && #[trigger] is_ready(creds@[b]);
                if sole_ready(creds@, i) {
                    if a != i {
                        assert(!is_ready(creds@[a]));
                    } else {
                        assert(!is_ready(creds@[b]));
                    }
                }
            }
        }
        None
    }
}

/// At most one credential is the one to fill into a tab.
pub proof fn lemma_choice_unique(creds: Seq<Credential>, domain: Seq<char>, i: int, j: int)
    requires
        chosen(creds, domain, i),
        chosen(creds, domain, j),
    ensures
        i == j,
{
    if first_serving(creds, domain, i) && first_serving(creds, domain, j) {
        if i < j {
            assert(!serves_domain(creds[i], domain));
        } else if j < i {
            assert(!serves_domain(creds[j], domain));
        }
    } else if first_serving(creds, domain, i) {
        assert(!serves_domain(creds[i], domain));
    } else if first_serving(creds, domain, j) {
        assert(!serves_domain(creds[j], domain));
    } else if i != j {
        assert(!is_ready(creds[j]));
    }
}

/// The credential filled into a tab is one the user picked and whose fields
/// are known; when some credential serves the tab's domain, the one filled
/// in does.
pub proof fn lemma_choice_is_ready(creds: Seq<Credential>, domain: Seq<char>, i: int)
    requires
        chosen(creds, domain, i),
    ensures
        0 <= i < creds.len(),
        is_ready(creds[i]),
        (exists|j: int| 0 <= j < creds.len() && serves_domain(#[trigger] creds[j], domain))
            ==> serves_domain(creds[i], domain),
{
}

/// The domain of a URL holds neither a `/` nor a `?`.
pub proof fn lemma_domain_shape(url: Seq<char>)
    ensures
        !url_domain_spec(url).contains('/'),
        !url_domain_spec(url).contains('?'),
{
    let no_https = replace_spec(url, "https://"@, Seq::<char>::empty());
    let no_http = replace_spec(no_https, "http://"@, Seq::<char>::empty());
    let no_www = replace_spec(no_http, "www."@, Seq::<char>::empty());
    let x = before_first(no_www, '/');
    let d = before_first(x, '?');
    lemma_before_first(no_www, '/');
    lemma_before_first(x, '?');
    if d.contains('/') {
        let j = choose|j: int| 0 <= j < d.len() && d[j] == '/';
        assert(x.subrange(0, d.len() as int)[j] == '/');
        assert(x[j] == '/');
    }
}

/// The URL without its scheme and a `www.`, as the launcher strips it.
pub open spec fn stripped_url(url: Seq<char>) -> Seq<char> {
    replace_spec(
        replace_spec(replace_spec(url, "https://"@, Seq::<char>::empty()), "http://"@, Seq::<char>::empty()),
        "www."@,
        Seq::<char>::empty(),
    )
}

/// The domain of a URL is the host text itself: the stripped URL up to (not
/// including) its first `/` or `?`, or all of it when it has neither.
pub proof fn lemma_domain_is_host(url: Seq<char>)
    ensures
        ({
            let s = stripped_url(url);
            let n = url_domain_spec(url).len() as int;
            &&& n <= s.len()
            &&& url_domain_spec(url) == s.take(n)
            &&& forall|j: int| 0 <= j < n ==> s[j] != '/' && s[j] != '?'
            &&& (n == s.len() || s[n] == '/' || s[n] == '?')
        }),
{
    let s = stripped_url(url);
    let x = before_first(s, '/');
    let d = before_first(x, '?');
    assert(url_domain_spec(url) == d);
    lemma_before_first(s, '/');
    lemma_before_first(x, '?');
    lemma_before_first_boundary(s, '/');
    lemma_before_first_boundary(x, '?');
    let n = d.len() as int;
    assert(s.take(n) =~= d) by {
        assert forall|j: int| 0 <= j < n implies s.take(n)[j] == d[j] by {
            assert(x.subrange(0, n)[j] == d[j]);
            assert(s.subrange(0, x.len() as int)[j] == x[j]);
        }
    }
    assert forall|j: int| 0 <= j < n implies s[j] != '/' && s[j] != '?' by {
        assert(x.subrange(0, n)[j] == d[j]);
        assert(s.subrange(0, x.len() as int)[j] == x[j]);
        assert(d.contains(d[j]) ==> d[j] != '?');
        assert(x.contains(x[j]) ==> x[j] != '/');
    }
    if n < x.len() {
        assert(s.subrange(0, x.len() as int)[n] == x[n]);
    }
}

/// What escaping undoes: every backslash-quote pair back to a quote.
pub open spec fn unescape_quotes_spec(s: Seq<char>) -> Seq<char> {
    replace_spec(s, "\\'"@, "'"@)
}

proof fn lemma_escape_head(s: Seq<char>)
    ensures
        escape_quotes_spec(s).len() > 0 ==> escape_quotes_spec(s)[0] != '\'',
        s.len() > 0 ==> escape_quotes_spec(s).len() > 0,
{
    reveal_strlit("'");
    reveal_strlit("\\'");
    assert("'"@ =~= seq!['\'']);
    if s.len() > 0 {
        if has_prefix(s, "'"@) {
            assert(escape_quotes_spec(s)[0] == '\\');
        } else {
            assert(s.subrange(0, 1) =~= seq![s[0]]);
            assert(s[0] != '\'');
        }
    }
}

/// Escaping a value for the script loses nothing: undoing the escapes gives
/// the value back.
pub proof fn lemma_escape_roundtrip(s: Seq<char>)
    ensures
        unescape_quotes_spec(escape_quotes_spec(s)) == s,
    decreases s.len(),
{
    reveal_strlit("'");
    reveal_strlit("\\'");
    let q = "'"@;
    let bq = "\\'"@;
    assert(q =~= seq!['\'']);
    assert(bq =~= seq!['\\', '\'']);
    if s.len() > 0 {
        let rest = s.skip(1);
        lemma_escape_roundtrip(rest);
        lemma_escape_head(rest);
        let er = escape_quotes_spec(rest);
        if has_prefix(s, q) {
            assert(s.skip(q.len() as int) == rest);
            let t = bq + er;
            assert(escape_quotes_spec(s) == t);
            assert(t.subrange(0, 2) =~= bq);
            assert(t.skip(2) =~= er);
            assert(unescape_quotes_spec(t) == q + unescape_quotes_spec(er));
            assert(s =~= q + rest);
        } else {
            assert(s.subrange(0, 1) =~= seq![s[0]]);
            let t = seq![s[0]] + er;
            assert(escape_quotes_spec(s) == t);
            assert(!has_prefix(t, bq)) by {
                if has_prefix(t, bq) {
                    assert(t.subrange(0, 2)[1] == bq[1]);
                    assert(er[0] == '\'');
                }
            }
            assert(t.skip(1) =~= er);
            assert(unescape_quotes_spec(t) == seq![s[0]] + unescape_quotes_spec(er));
            assert(s =~= seq![s[0]] + rest);
        }
    } else {
        assert(escape_quotes_spec(s) == Seq::<char>::empty());
    }
}

/// The fill script opens by looking up the page's password field and gives
/// up with `ERRO` only when there is none: its text begins with the lookup
/// followed by the guard `if (!passField) return 'ERRO';`, before any value
/// is written.
pub proof fn lemma_login_script_guard(user: Seq<char>, pass: Seq<char>)
    ensures
        has_prefix(
            login_script_spec(user, pass),
            "(function() { let passField = document.querySelector('input[type=\"password\"]'); if (!passField) return 'ERRO';"@,
        ),
{
    let g = "(function() { let passField = document.querySelector('input[type=\"password\"]'); if (!passField) return 'ERRO';"@;
    reveal_strlit("(function() { let passField = document.querySelector('input[type=\"password\"]'); if (!passField) return 'ERRO';");
    reveal_strlit("(function() { let passField = document.querySelector('input[type=\"password\"]'); if (!passField) return 'ERRO'; let form = passField.closest('form'); let userField = form ? form.querySelector('input[type=\"text\"], input[type=\"email\"], input:not([type=\"password\"]):not([type=\"hidden\"])') : document.querySelector('input[type=\"text\"], input[type=\"email\"]'); if (userField) { userField.value = '");
    let h = script_head();
    assert(h.subrange(0, g.len() as int) =~= g);
    let t = login_script_spec(user, pass);
    assert(t =~= h + (escape_quotes_spec(user) + script_middle() + escape_quotes_spec(pass)
        + script_tail()));
    assert(t.subrange(0, g.len() as int) =~= h.subrange(0, g.len() as int));
}

/// `s` ends with `suffix`.
pub open spec fn has_suffix(s: Seq<char>, suffix: Seq<char>) -> bool {
    suffix.len() <= s.len() && s.skip(s.len() - suffix.len()) == suffix
}

/// The escaped user name is written into the user field and the escaped
/// password into the password field, each as a single-quoted string, and
/// the script reports `SUCESSO` at its end.
pub proof fn lemma_login_script_values(user: Seq<char>, pass: Seq<char>)
    ensures
        exists|a: Seq<char>, b: Seq<char>, c: Seq<char>|
            {
                &&& login_script_spec(user, pass) == a + escape_quotes_spec(user) + b
                    + escape_quotes_spec(pass) + c
                &&& has_suffix(a, "if (userField) { userField.value = '"@)
                &&& has_prefix(b, "';"@)
                &&& has_suffix(b, "passField.value = '"@)
                &&& has_prefix(c, "';"@)
                &&& has_suffix(c, "return 'SUCESSO'; })();"@)
            },
{
    reveal_strlit("if (userField) { userField.value = '");
    reveal_strlit("';");
    reveal_strlit("passField.value = '");
    reveal_strlit("return 'SUCESSO'; })();");
    reveal_strlit("(function() { let passField = document.querySelector('input[type=\"password\"]'); if (!passField) return 'ERRO'; let form = passField.closest('form'); let userField = form ? form.querySelector('input[type=\"text\"], input[type=\"email\"], input:not([type=\"password\"]):not([type=\"hidden\"])') : document.querySelector('input[type=\"text\"], input[type=\"email\"]'); if (userField) { userField.value = '");
    reveal_strlit("'; userField.dispatchEvent(new Event('input', { bubbles: true })); userField.dispatchEvent(new Event('change', { bubbles: true })); } passField.value = '");
    reveal_strlit("'; passField.dispatchEvent(new Event('input', { bubbles: true })); passField.dispatchEvent(new Event('change', { bubbles: true })); return 'SUCESSO'; })();");
    let a = script_head();
    let b = script_middle();
    let c = script_tail();
    assert(a.skip(a.len() - "if (userField) { userField.value = '"@.len()) =~= "if (userField) { userField.value = '"@);
    assert(b.subrange(0, 2) =~= "';"@);
    assert(b.skip(b.len() - "passField.value = '"@.len()) =~= "passField.value = '"@);
    assert(c.subrange(0, 2) =~= "';"@);
    assert(c.skip(c.len() - "return 'SUCESSO'; })();"@.len()) =~= "return 'SUCESSO'; })();"@);
    assert(login_script_spec(user, pass) == a + escape_quotes_spec(user) + b + escape_quotes_spec(pass) + c);
}

/// The script to run in a tab showing `target_url`: none unless the tab shows
/// a web page and some credential is the one for it; otherwise the script
/// that fills in that credential.
pub fn injection_script(creds: &Vec<Credential>, target_url: &str) -> (res: Option<String>)
    ensures
        res is Some <==> has_prefix(target_url@, "http"@) && exists|i: int|
            chosen(creds@, url_domain_spec(target_url@), i),
        res matches Some(s) ==> exists|i: int|
            chosen(creds@, url_domain_spec(target_url@), i) && s@ == login_script_spec(
                creds@[i].username@,
                creds@[i].password@,
            ),
{
    if !is_web_page(target_url) {
        return None;
    }
    match choose_credential(creds, target_url) {
        Some(i) => {
            let c = &creds[i];
            Some(login_script(c.username.as_str(), c.password.as_str()))
        },
        None => None,
    }
}

/// `s` with every single quote preceded by a backslash, so that it can
/// stand inside a single-quoted script string.
pub fn escape_quotes(s: &str) -> (res: String)
    ensures
        res@ == escape_quotes_spec(s@),
{
    proof {
        reveal_strlit("'");
    }
    replace(s, "'", "\\'")
}

/// The script that fills the login form of a page with `user` and `pass`.
pub fn login_script(user: &str, pass: &str) -> (res: String)
    ensures
        res@ == login_script_spec(user@, pass@),
{
    let u = escape_quotes(user);
    let p = escape_quotes(pass);
    let a = join_text(
        "(function() { let passField = document.querySelector('input[type=\"password\"]'); if (!passField) return 'ERRO'; let form = passField.closest('form'); let userField = form ? form.querySelector('input[type=\"text\"], input[type=\"email\"], input:not([type=\"password\"]):not([type=\"hidden\"])') : document.querySelector('input[type=\"text\"], input[type=\"email\"]'); if (userField) { userField.value = '",
        u.as_str(),
    );
    let b = join_text(
        a.as_str(),
        "'; userField.dispatchEvent(new Event('input', { bubbles: true })); userField.dispatchEvent(new Event('change', { bubbles: true })); } passField.value = '",
    );
    let c = join_text(b.as_str(), p.as_str());
    join_text(
        c.as_str(),
        "'; passField.dispatchEvent(new Event('input', { bubbles: true })); passField.dispatchEvent(new Event('change', { bubbles: true })); return 'SUCESSO'; })();",
    )
}

/// The credentials to fetch before filling forms: the positions, in order,
/// of those picked by the user whose fields are not known yet.
pub fn credentials_to_fetch(creds: &Vec<Credential>) -> (res: Vec<usize>)
    ensures
        forall|a: int, b: int| 0 <= a < b < res@.len() ==> res@[a] < res@[b],
        forall|k: int| 0 <= k < res@.len() ==> res@[k] < creds@.len(),
        forall|i: int|
            0 <= i < creds@.len() ==> ((#[trigger] creds@[i]).selected && !creds@[i].fetched
                <==> res@.contains(i as usize)),
{
    let mut res: Vec<usize> = Vec::new();
    let mut i: usize = 0;
    while i < creds.len()
        invariant
            i <= creds@.len(),
            forall|a: int, b: int| 0 <= a < b < res@.len() ==> res@[a] < res@[b],
            forall|k: int| 0 <= k < res@.len() ==> res@[k] < i,
            forall|j: int|
                0 <= j < i ==> ((#[trigger] creds@[j]).selected && !creds@[j].fetched
                    <==> res@.contains(j as usize)),
        decreases creds@.len() - i,
    {
        let ghost before = res@;
        if creds[i].selected && !creds[i].fetched {
            res.push(i);
            proof {
                assert(res@[before.len() as int] == i);
                assert forall|j: int| 0 <= j < i implies (#[trigger] creds@[j]).selected
                    && !creds@[j].fetched <==> res@.contains(j as usize) by {
                    if before.contains(j as usize) {
                        let k = choose|k: int| 0 <= k < before.len() && before[k] == j as usize;
                        assert(res@[k] == j as usize);
                    }
                    if res@.contains(j as usize) {
                        let k = choose|k: int| 0 <= k < res@.len() && res@[k] == j as usize;
                        assert(k < before.len());
                        assert(before[k] == j as usize);
                    }
                }
            }
        } else {
            proof {
                if res@.contains(i as usize) {
                    let k = choose|k: int| 0 <= k < res@.len() && res@[k] == i as usize;
                    assert(false);
                }
            }
        }
        i += 1;
    }
    res
}

} // verus!
