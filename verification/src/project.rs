//! Projects: a named set of services (addresses) kept in a folder with its
//! notes and, optionally, its own vault.
use vstd::prelude::*;
use crate::text::join_text;

verus! {

/// A service of a project: a name and the address it is reached at.
#[derive(Clone)]
pub struct ProjectService {
    pub nome: String,
    pub url: String,
}

/// A project as it is stored in its `config.json`.
#[derive(Clone)]
pub struct ProjectConfig {
    pub id: String,
    pub nome: String,
    pub servicos: Vec<ProjectService>,
    pub tecnologias: Vec<String>,
}

/// The notes file a new project starts with.
pub open spec fn notes_spec(nome: Seq<char>) -> Seq<char> {
    "# "@ + nome + "\n\nAnotações do projeto..."@
}

/// The technologies recorded for a project created in the launcher.
pub open spec fn default_technologies() -> Seq<Seq<char>> {
    seq!["php"@, "wordpress"@]
}

/// The archive a project is exported to in `download_dir`.
pub open spec fn export_path_spec(download_dir: Seq<char>, id: Seq<char>) -> Seq<char> {
    download_dir + "/"@ + id + ".tar.gz"@
}

/// The notes file a new project named `nome` starts with.
pub fn notes_text(nome: &str) -> (res: String)
    ensures
        res@ == notes_spec(nome@),
{
    let a = join_text("# ", nome);
    join_text(a.as_str(), "\n\nAnotações do projeto...")
}

/// The project the form describes: there is one only when both its folder
/// name and its display name are given.
pub fn new_project(id: &str, nome: &str, servicos: Vec<ProjectService>) -> (res: Option<
    ProjectConfig,
>)
    ensures
        res is Some <==> id@.len() > 0 && nome@.len() > 0,
        res matches Some(p) ==> {
            &&& p.id@ == id@
            &&& p.nome@ == nome@
            &&& p.servicos@ == servicos@
            &&& p.tecnologias@.map_values(|t: String| t@) == default_technologies()
        },
{
    if id.is_empty() || nome.is_empty() {
        return None;
    }
    let mut tecnologias: Vec<String> = Vec::new();
    tecnologias.push(String::from_str("php"));
    tecnologias.push(String::from_str("wordpress"));
    proof {
        assert(tecnologias@.map_values(|t: String| t@) =~= default_technologies());
    }
    let config = ProjectConfig {
        id: String::from_str(id),
        nome: String::from_str(nome),
        servicos: servicos,
        tecnologias: tecnologias,
    };
    Some(config)
}

/// Adds the service `nome` at `url` to the form, unless the address is
/// empty; says whether it was added.
pub fn add_service(servicos: &mut Vec<ProjectService>, nome: &str, url: &str) -> (added: bool)
    ensures
        added == (url@.len() > 0),
        added ==> {
            &&& final(servicos)@.len() == old(servicos)@.len() + 1
            &&& final(servicos)@.drop_last() == old(servicos)@
            &&& final(servicos)@.last().nome@ == nome@
            &&& final(servicos)@.last().url@ == url@
        },
        !added ==> final(servicos)@ == old(servicos)@,
{
    if url.is_empty() {
        return false;
    }
    servicos.push(ProjectService { nome: String::from_str(nome), url: String::from_str(url) });
    proof {
        assert(servicos@.drop_last() =~= old(servicos)@);
    }
    true
}

/// The archive the project `id` is exported to in `download_dir`.
pub fn export_path(download_dir: &str, id: &str) -> (res: String)
    ensures
        res@ == export_path_spec(download_dir@, id@),
{
    let a = join_text(download_dir, "/");
    let b = join_text(a.as_str(), id);
    join_text(b.as_str(), ".tar.gz")
}

} // verus!
