//! The KeePass vault as the launcher drives it through `keepassxc-cli`: the
//! command lines and input it hands the tool, and what it makes of the
//! tool's answers.
use vstd::prelude::*;
use crate::text::{
    after_last, chars_of, has_prefix, join_text, lemma_after_last, lemma_trim_idempotent, last_piece_chars, lines, lines_spec, matches_at_exec,
    string_of, sub_chars, trim, trim_chars, trim_spec, views_of,
};

verus! {

/// An entry of the vault.
#[derive(Clone)]
pub struct Credential {
    pub entry_path: String,
    pub site_name: String,
    pub username: String,
    pub password: String,
    pub url: String,
    pub selected: bool,
    pub fetched: bool,
}

/// The vault the launcher works with: where it is, its master password, and
/// whether the last unlock attempt succeeded.
pub struct KeePassIntegration {
    pub db_path: String,
    pub master_pass: String,
    pub is_unlocked: bool,
    pub error_msg: Option<String>,
}

/// One run of `keepassxc-cli`: its arguments and what it reads on its input.
pub struct CliCall {
    pub args: Vec<String>,
    pub input: String,
}

/// The characters of each argument.
pub open spec fn arg_views(args: Seq<String>) -> Seq<Seq<char>> {
    args.map_values(|a: String| a@)
}

impl Default for KeePassIntegration {
    fn default() -> (res: Self)
        ensures
            res.db_path@ == Seq::<char>::empty(),
            res.master_pass@ == Seq::<char>::empty(),
            !res.is_unlocked,
            res.error_msg is None,
    {
        KeePassIntegration {
            db_path: String::new(),
            master_pass: String::new(),
            is_unlocked: false,
            error_msg: None,
        }
    }
}

// ---------------------------------------------------------------------------
// What the answers of the tool mean
// ---------------------------------------------------------------------------

/// A listed line names an entry when, trimmed, it is not empty and does not
/// end with `/` (a group).
pub open spec fn names_entry(line: Seq<char>) -> bool {
    line.len() > 0 && line.last() != '/'
}

/// The paths of the entries that the lines `ls` of a recursive listing name,
/// in order.
pub open spec fn entry_paths(ls: Seq<Seq<char>>) -> Seq<Seq<char>>
    decreases ls.len(),
{
    if ls.len() == 0 {
        Seq::<Seq<char>>::empty()
    } else {
        let prev = entry_paths(ls.drop_last());
        let t = trim_spec(ls.last());
        if names_entry(t) {
            prev.push(t)
        } else {
            prev
        }
    }
}

/// `c` is the freshly listed credential for the entry at `path`.
pub open spec fn listed_credential(c: Credential, path: Seq<char>) -> bool {
    &&& c.entry_path@ == path
    &&& c.site_name@ == after_last(path, '/')
    &&& c.username@ == Seq::<char>::empty()
    &&& c.password@ == Seq::<char>::empty()
    &&& c.url@ == Seq::<char>::empty()
    &&& c.selected
    &&& !c.fetched
}

/// The value of the last of the lines `ls` that begins with `prefix`: the rest
/// of that line, trimmed.
pub open spec fn field_value(ls: Seq<Seq<char>>, prefix: Seq<char>) -> Option<Seq<char>>
    decreases ls.len(),
{
    if ls.len() == 0 {
        None
    } else if has_prefix(ls.last(), prefix) {
        Some(trim_spec(ls.last().skip(prefix.len() as int)))
    } else {
        field_value(ls.drop_last(), prefix)
    }
}

/// The value read for any field is the trimmed rest of the last line that
/// begins with the field's prefix, whatever that rest is; there is none
/// exactly when no line begins with the prefix.
pub proof fn lemma_field_value_is_last_line(ls: Seq<Seq<char>>, prefix: Seq<char>)
    ensures
        field_value(ls, prefix) is None <==> forall|j: int|
            0 <= j < ls.len() ==> !has_prefix(#[trigger] ls[j], prefix),
        field_value(ls, prefix) matches Some(v) ==> exists|i: int|
            0 <= i < ls.len() && has_prefix(#[trigger] ls[i], prefix) && v == trim_spec(
                ls[i].skip(prefix.len() as int),
            ) && forall|j: int| i < j < ls.len() ==> !has_prefix(#[trigger] ls[j], prefix),
        ls.len() > 0 && has_prefix(ls.last(), prefix) ==> field_value(ls, prefix) == Some(
            trim_spec(ls.last().skip(prefix.len() as int)),
        ),
    decreases ls.len(),
{
    if ls.len() > 0 {
        let q = ls.drop_last();
        lemma_field_value_is_last_line(q, prefix);
        if has_prefix(ls.last(), prefix) {
            assert(has_prefix(ls[ls.len() - 1], prefix));
        } else {
            assert forall|j: int| 0 <= j < q.len() implies ls[j] == q[j] by {}
            if field_value(q, prefix) is None {
                assert forall|j: int| 0 <= j < ls.len() implies !has_prefix(#[trigger] ls[j], prefix) by {
                    if j < q.len() {
                        assert(ls[j] == q[j]);
                    }
                }
            } else {
                let v = field_value(q, prefix)->0;
                let i = choose|i: int|
                    0 <= i < q.len() && has_prefix(#[trigger] q[i], prefix) && v == trim_spec(
                        q[i].skip(prefix.len() as int),
                    ) && forall|j: int| i < j < q.len() ==> !has_prefix(#[trigger] q[j], prefix);
                assert(ls[i] == q[i]);
                assert forall|j: int| i < j < ls.len() implies !has_prefix(#[trigger] ls[j], prefix) by {
                    if j < q.len() {
                        assert(ls[j] == q[j]);
                    }
                }
                let jj = choose|j: int| 0 <= j < q.len() && has_prefix(#[trigger] q[j], prefix);
                assert(ls[jj] == q[jj]);
            }
        }
    }
}

/// `current`, replaced by the value found, if one was.
pub open spec fn updated(current: Seq<char>, found: Option<Seq<char>>) -> Seq<char> {
    match found {
        Some(v) => v,
        None => current,
    }
}

pub open spec fn user_prefix() -> Seq<char> {
    "UserName: "@
}

pub open spec fn password_prefix() -> Seq<char> {
    "Password: "@
}

pub open spec fn url_prefix() -> Seq<char> {
    "URL: "@
}

/// `text` followed by a line feed.
pub open spec fn line_of(text: Seq<char>) -> Seq<char> {
    text + "\n"@
}

proof fn lemma_prefixes_exclusive(l: Seq<char>)
    ensures
        has_prefix(l, user_prefix()) ==> !has_prefix(l, password_prefix()) && !has_prefix(
            l,
            url_prefix(),
        ),
        has_prefix(l, password_prefix()) ==> !has_prefix(l, url_prefix()),
{
    reveal_strlit("UserName: ");
    reveal_strlit("Password: ");
    reveal_strlit("URL: ");
    if has_prefix(l, user_prefix()) {
        assert(l[0] == 'U' && l[1] == 's') by {
            assert(l.subrange(0, 10)[0] == user_prefix()[0]);
            assert(l.subrange(0, 10)[1] == user_prefix()[1]);
        }
        if has_prefix(l, password_prefix()) {
            assert(l.subrange(0, 10)[0] == password_prefix()[0]);
        }
        if has_prefix(l, url_prefix()) {
            assert(l.subrange(0, 5)[1] == url_prefix()[1]);
        }
    }
    if has_prefix(l, password_prefix()) && has_prefix(l, url_prefix()) {
        assert(l.subrange(0, 10)[0] == password_prefix()[0]);
        assert(l.subrange(0, 5)[0] == url_prefix()[0]);
    }
}

/// Every path a listing yields names an entry, is already trimmed, and its
/// site name holds no `/`.
pub proof fn lemma_listed_paths(ls: Seq<Seq<char>>)
    ensures
        forall|i: int|
            0 <= i < entry_paths(ls).len() ==> {
                let p = #[trigger] entry_paths(ls)[i];
                &&& names_entry(p)
                &&& trim_spec(p) == p
                &&& !after_last(p, '/').contains('/')
            },
    decreases ls.len(),
{
    if ls.len() > 0 {
        lemma_listed_paths(ls.drop_last());
        let prev = entry_paths(ls.drop_last());
        let t = trim_spec(ls.last());
        lemma_trim_idempotent(ls.last());
        lemma_after_last(t, '/');
        if names_entry(t) {
            assert forall|i: int| 0 <= i < entry_paths(ls).len() implies {
                let p = #[trigger] entry_paths(ls)[i];
                &&& names_entry(p)
                &&& trim_spec(p) == p
                &&& !after_last(p, '/').contains('/')
            } by {
                if i < prev.len() {
                    assert(entry_paths(ls)[i] == prev[i]);
                }
            }
        }
    }
}

// ---------------------------------------------------------------------------
// Commands
// ---------------------------------------------------------------------------

fn arg(s: &str) -> (res: String)
    ensures
        res@ == s@,
{
    String::from_str(s)
}

fn line(text: &str) -> (res: String)
    ensures
        res@ == line_of(text@),
{
    join_text(text, "\n")
}

/// The outcome of a run of the tool whose answer is its output: the trimmed
/// standard output on success, the trimmed standard error otherwise.
pub fn cli_result(success: bool, stdout: &str, stderr: &str) -> (res: Result<String, String>)
    ensures
        success ==> (res matches Ok(out) && out@ == trim_spec(stdout@)),
        !success ==> (res matches Err(e) && e@ == trim_spec(stderr@)),
{
    if success {
        Ok(trim(stdout))
    } else {
        Err(trim(stderr))
    }
}

/// The outcome of a run of the tool that changes the vault: `message` on
/// success, the trimmed standard error otherwise.
pub fn confirmation(success: bool, stderr: &str, message: &str) -> (res: Result<String, String>)
    ensures
        success ==> (res matches Ok(m) && m@ == message@),
        !success ==> (res matches Err(e) && e@ == trim_spec(stderr@)),
{
    if success {
        Ok(String::from_str(message))
    } else {
        Err(trim(stderr))
    }
}

impl KeePassIntegration {
    /// The run that creates a vault at `path` protected by `master_pass`: the
    /// password is typed twice.
    pub fn create_db_call(path: &str, master_pass: &str) -> (call: CliCall)
        ensures
            arg_views(call.args@) == seq!["db-create"@, "-p"@, path@],
            call.input@ == line_of(master_pass@) + line_of(master_pass@),
    {
        let mut args: Vec<String> = Vec::new();
        args.push(arg("db-create"));
        args.push(arg("-p"));
        args.push(arg(path));
        let first = line(master_pass);
        let second = line(master_pass);
        let input = join_text(first.as_str(), second.as_str());
        proof {
            assert(arg_views(args@) =~= seq!["db-create"@, "-p"@, path@]);
        }
        CliCall { args, input }
    }

    /// The outcome of creating a vault.
    pub fn create_db_result(success: bool, stderr: &str) -> (res: Result<String, String>)
        ensures
            success ==> (res matches Ok(m) && m@ == "Cofre criado"@),
            !success ==> (res matches Err(e) && e@ == trim_spec(stderr@)),
    {
        confirmation(success, stderr, "Cofre criado")
    }

    /// A run with the arguments `args` that is given the master password.
    pub fn cli_call(&self, args: Vec<String>) -> (call: CliCall)
        ensures
            call.args@ == args@,
            call.input@ == line_of(self.master_pass@),
    {
        CliCall { args, input: line(self.master_pass.as_str()) }
    }

    /// The run that checks the master password; there is none while no vault
    /// is chosen.
    pub fn unlock_call(&self) -> (call: Option<CliCall>)
        ensures
            call is None <==> self.db_path@.len() == 0,
            call matches Some(c) ==> arg_views(c.args@) == seq!["ls"@, "-q"@, self.db_path@]
                && c.input@ == line_of(self.master_pass@),
    {
        if self.db_path.as_str().is_empty() {
            return None;
        }
        let mut args: Vec<String> = Vec::new();
        args.push(arg("ls"));
        args.push(arg("-q"));
        args.push(arg(self.db_path.as_str()));
        proof {
            assert(arg_views(args@) =~= seq!["ls"@, "-q"@, self.db_path@]);
        }
        Some(self.cli_call(args))
    }

    /// Takes in the outcome of the unlock run: without a vault path nothing
    /// changes and the answer is no; otherwise the vault is unlocked exactly
    /// when the run succeeded, and a failure keeps the tool's message.
    pub fn test_unlock(&mut self, outcome: Result<String, String>) -> (unlocked: bool)
        ensures
            final(self).db_path == old(self).db_path,
            final(self).master_pass == old(self).master_pass,
            old(self).db_path@.len() == 0 ==> !unlocked && *final(self) == *old(self),
            old(self).db_path@.len() > 0 ==> {
                &&& unlocked == outcome is Ok
                &&& final(self).is_unlocked == unlocked
                &&& match outcome {
                    Ok(_) => final(self).error_msg is None,
                    Err(e) => final(self).error_msg == Some(e),
                }
            },
    {
        if self.db_path.as_str().is_empty() {
            return false;
        }
        match outcome {
            Ok(_) => {
                self.is_unlocked = true;
                self.error_msg = None;
                true
            },
            Err(e) => {
                self.is_unlocked = false;
                self.error_msg = Some(e);
                false
            },
        }
    }

    /// The run that lists every entry of the vault.
    pub fn list_call(&self) -> (call: CliCall)
        ensures
            arg_views(call.args@) == seq!["ls"@, "-R"@, self.db_path@],
            call.input@ == line_of(self.master_pass@),
    {
        let mut args: Vec<String> = Vec::new();
        args.push(arg("ls"));
        args.push(arg("-R"));
        args.push(arg(self.db_path.as_str()));
        proof {
            assert(arg_views(args@) =~= seq!["ls"@, "-R"@, self.db_path@]);
        }
        self.cli_call(args)
    }

    /// The entries named by the outcome of the listing run: one credential per
    /// line that names an entry, selected and not yet fetched; none when the
    /// run failed.
    pub fn list_all_entries(&self, outcome: Result<String, String>) -> (res: Vec<Credential>)
        ensures
            match outcome {
                Ok(out) => {
                    &&& res@.len() == entry_paths(lines_spec(out@)).len()
                    &&& forall|i: int|
                        0 <= i < res@.len() ==> listed_credential(
                            #[trigger] res@[i],
                            entry_paths(lines_spec(out@))[i],
                        )
                },
                Err(_) => res@.len() == 0,
            },
    {
        let mut entries: Vec<Credential> = Vec::new();
        let out = match outcome {
            Ok(out) => out,
            Err(_) => {
                return entries;
            },
        };
        let ls = lines(out.as_str());
        let ghost lv = lines_spec(out@);
        let mut k: usize = 0;
        while k < ls.len()
            invariant
                k <= ls@.len(),
                views_of(ls@) == lv,
                entries@.len() == entry_paths(lv.take(k as int)).len(),
                forall|i: int|
                    0 <= i < entries@.len() ==> listed_credential(
                        #[trigger] entries@[i],
                        entry_paths(lv.take(k as int))[i],
                    ),
            decreases ls@.len() - k,
        {
            proof {
                assert(lv.take(k + 1).drop_last() =~= lv.take(k as int));
                assert(lv.take(k + 1).last() == ls@[k as int]@);
            }
            let t = trim_chars(&ls[k]);
            if t.len() > 0 && t[t.len() - 1] != '/' {
                let site = last_piece_chars(&t, '/');
                let c = Credential {
                    entry_path: string_of(&t),
                    site_name: string_of(&site),
                    username: String::new(),
                    password: String::new(),
                    url: String::new(),
                    selected: true,
                    fetched: false,
                };
                entries.push(c);
            }
            k += 1;
        }
        proof {
            assert(lv.take(ls@.len() as int) =~= lv);
        }
        entries
    }

    /// The run that shows the fields of `entry`, passwords included.
    pub fn fetch_call(&self, entry: &Credential) -> (call: CliCall)
        ensures
            arg_views(call.args@) == seq![
                "show"@,
                "-q"@,
                "-s"@,
                self.db_path@,
                entry.entry_path@,
            ],
            call.input@ == line_of(self.master_pass@),
    {
        let mut args: Vec<String> = Vec::new();
        args.push(arg("show"));
        args.push(arg("-q"));
        args.push(arg("-s"));
        args.push(arg(self.db_path.as_str()));
        args.push(arg(entry.entry_path.as_str()));
        proof {
            assert(arg_views(args@) =~= seq![
                "show"@,
                "-q"@,
                "-s"@,
                self.db_path@,
                entry.entry_path@,
            ]);
        }
        self.cli_call(args)
    }

    /// Takes in the outcome of the show run for `entry`: the user name,
    /// password and URL lines of a successful run replace the fields (the last
    /// such line of each kind counts), and the entry is marked fetched
    /// whatever the outcome.
    pub fn fetch_details(&self, entry: &mut Credential, outcome: Result<String, String>)
        ensures
            final(entry).fetched,
            final(entry).entry_path == old(entry).entry_path,
            final(entry).site_name == old(entry).site_name,
            final(entry).selected == old(entry).selected,
            match outcome {
                Ok(out) => {
                    &&& final(entry).username@ == updated(
                        old(entry).username@,
                        field_value(lines_spec(out@), user_prefix()),
                    )
                    &&& final(entry).password@ == updated(
                        old(entry).password@,
                        field_value(lines_spec(out@), password_prefix()),
                    )
                    &&& final(entry).url@ == updated(
                        old(entry).url@,
                        field_value(lines_spec(out@), url_prefix()),
                    )
                },
                Err(_) => {
                    &&& final(entry).username == old(entry).username
                    &&& final(entry).password == old(entry).password
                    &&& final(entry).url == old(entry).url
                },
            },
    {
        if let Ok(out) = outcome {
            let ls = lines(out.as_str());
            let ghost lv = lines_spec(out@);
            let user_p = chars_of("UserName: ");
            let pass_p = chars_of("Password: ");
            let url_p = chars_of("URL: ");
            let mut k: usize = 0;
            while k < ls.len()
                invariant
                    k <= ls@.len(),
                    views_of(ls@) == lv,
                    user_p@ == user_prefix(),
                    pass_p@ == password_prefix(),
                    url_p@ == url_prefix(),
                    entry.entry_path == old(entry).entry_path,
                    entry.site_name == old(entry).site_name,
                    entry.selected == old(entry).selected,
                    entry.username@ == updated(
                        old(entry).username@,
                        field_value(lv.take(k as int), user_prefix()),
                    ),
                    entry.password@ == updated(
                        old(entry).password@,
                        field_value(lv.take(k as int), password_prefix()),
                    ),
                    entry.url@ == updated(
                        old(entry).url@,
                        field_value(lv.take(k as int), url_prefix()),
                    ),
                decreases ls@.len() - k,
            {
                let l = &ls[k];
                proof {
                    assert(lv.take(k + 1).drop_last() =~= lv.take(k as int));
                    assert(lv.take(k + 1).last() == l@);
                    lemma_prefixes_exclusive(l@);
                }
                if matches_at_exec(l, 0, &user_p) {
                    let rest = sub_chars(l, user_p.len(), l.len());
                    let v = trim_chars(&rest);
                    proof {
                        assert(rest@ =~= l@.skip(user_prefix().len() as int));
                    }
                    entry.username = string_of(&v);
                } else if matches_at_exec(l, 0, &pass_p) {
                    let rest = sub_chars(l, pass_p.len(), l.len());
                    let v = trim_chars(&rest);
                    proof {
                        assert(rest@ =~= l@.skip(password_prefix().len() as int));
                    }
                    entry.password = string_of(&v);
                } else if matches_at_exec(l, 0, &url_p) {
                    let rest = sub_chars(l, url_p.len(), l.len());
                    let v = trim_chars(&rest);
                    proof {
                        assert(rest@ =~= l@.skip(url_prefix().len() as int));
                    }
                    entry.url = string_of(&v);
                }
                k += 1;
            }
            proof {
                assert(lv.take(ls@.len() as int) =~= lv);
            }
        }
        entry.fetched = true;
    }

    /// The run that adds an entry: the tool asks for the master password, then
    /// for the new password twice.
    pub fn add_entry_call(&self, title: &str, user: &str, pass: &str, url: &str) -> (call: CliCall)
        ensures
            arg_views(call.args@) == seq![
                "add"@,
                "-p"@,
                "-u"@,
                user@,
                "--url"@,
                url@,
                self.db_path@,
                title@,
            ],
            call.input@ == line_of(self.master_pass@) + line_of(pass@) + line_of(pass@),
    {
        let mut args: Vec<String> = Vec::new();
        args.push(arg("add"));
        args.push(arg("-p"));
        args.push(arg("-u"));
        args.push(arg(user));
        args.push(arg("--url"));
        args.push(arg(url));
        args.push(arg(self.db_path.as_str()));
        args.push(arg(title));
        proof {
            assert(arg_views(args@) =~= seq![
                "add"@,
                "-p"@,
                "-u"@,
                user@,
                "--url"@,
                url@,
                self.db_path@,
                title@,
            ]);
        }
        let m = line(self.master_pass.as_str());
        let p1 = line(pass);
        let p2 = line(pass);
        let mp = join_text(m.as_str(), p1.as_str());
        let input = join_text(mp.as_str(), p2.as_str());
        CliCall { args, input }
    }

    /// The run that removes the entry at `entry_path`.
    pub fn rm_entry_call(&self, entry_path: &str) -> (call: CliCall)
        ensures
            arg_views(call.args@) == seq!["rm"@, "-q"@, self.db_path@, entry_path@],
            call.input@ == line_of(self.master_pass@),
    {
        let mut args: Vec<String> = Vec::new();
        args.push(arg("rm"));
        args.push(arg("-q"));
        args.push(arg(self.db_path.as_str()));
        args.push(arg(entry_path));
        proof {
            assert(arg_views(args@) =~= seq!["rm"@, "-q"@, self.db_path@, entry_path@]);
        }
        self.cli_call(args)
    }

    /// The outcome of adding or removing an entry.
    pub fn change_result(success: bool, stderr: &str) -> (res: Result<String, String>)
        ensures
            success ==> (res matches Ok(m) && m@ == "Sucesso"@),
            !success ==> (res matches Err(e) && e@ == trim_spec(stderr@)),
    {
        confirmation(success, stderr, "Sucesso")
    }
}

} // verus!
