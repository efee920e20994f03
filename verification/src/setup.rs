//! The decisions taken once at application start: which data directory to
//! use, whether to seed the database from the bundled template, and how to
//! invoke the backend.
use vstd::prelude::*;
use crate::config::connection_string;
use crate::config::connection_view;

verus! {

/// The per-user data directory: the platform's application-data directory
/// when one could be resolved, otherwise the given fallback under the
/// temporary directory.
pub fn choose_data_dir(app_dir: Option<String>, fallback: String) -> (r: String)
    ensures
        match app_dir {
            Some(d) => r@ == d@,
            None => r@ == fallback@,
        },
{
    match app_dir {
        Some(d) => d,
        None => fallback,
    }
}

/// What the first-run seeding step does to the database file.
#[derive(Clone, Copy, PartialEq, Eq, Structural, Debug)]
pub enum SeedAction {
    /// No database file exists and the bundled template does: copy it.
    CopyTemplate,
    /// Either the database already exists or there is nothing to copy.
    LeaveInPlace,
}

/// The database file is seeded exactly when it does not exist yet and the
/// bundled template is present.
pub fn seed_action(db_exists: bool, template_exists: bool) -> (a: SeedAction)
    ensures
        a == (if !db_exists && template_exists {
            SeedAction::CopyTemplate
        } else {
            SeedAction::LeaveInPlace
        }),
{
    if !db_exists && template_exists {
        SeedAction::CopyTemplate
    } else {
        SeedAction::LeaveInPlace
    }
}

/// The bytes the database file holds after seeding: an existing database is
/// kept as it is; only an absent one is filled from the template.
pub open spec fn seeded_content(existing: Option<Seq<u8>>, template: Option<Seq<u8>>) -> Option<
    Seq<u8>,
> {
    if existing is Some {
        existing
    } else {
        template
    }
}

pub open spec fn content_view(o: Option<Vec<u8>>) -> Option<Seq<u8>> {
    match o {
        Some(v) => Some(v@),
        None => None,
    }
}

/// Applies the seeding step to the database file's contents.
pub fn apply_seed(existing: Option<Vec<u8>>, template: Option<Vec<u8>>) -> (r: Option<Vec<u8>>)
    ensures
        content_view(r) == seeded_content(content_view(existing), content_view(template)),
{
    match existing {
        Some(v) => Some(v),
        None => template,
    }
}

/// On a first run with a template present, the seeded database is
/// byte-identical to the template.
pub proof fn lemma_fresh_install_copies_template(template: Seq<u8>)
    ensures
        seeded_content(None, Some(template)) == Some(template),
{
}

/// An existing database is never modified or replaced, whatever the
/// template holds.
pub proof fn lemma_existing_database_untouched(existing: Seq<u8>, template: Option<Seq<u8>>)
    ensures
        seeded_content(Some(existing), template) == Some(existing),
{
}

/// How the backend is spawned: the bundled executable's identifier, its
/// command-line arguments, and the one environment variable it reads.
pub struct BackendLaunch {
    pub program: String,
    pub args: Vec<String>,
    pub env_key: String,
    pub env_value: String,
}

/// Builds the backend invocation for the database at `db_path`: the
/// `api-server` sidecar, asked to bind `127.0.0.1:8000`, with the
/// connection string in `DATABASE_URL`.
pub fn plan_launch(db_path: &str) -> (p: BackendLaunch)
    ensures
        p.program@ == "api-server"@,
        p.args@.len() == 4,
        p.args@[0]@ == "--host"@,
        p.args@[1]@ == "127.0.0.1"@,
        p.args@[2]@ == "--port"@,
        p.args@[3]@ == "8000"@,
        p.args@[3]@ == crate::config::dec_rep(crate::DEFAULT_PORT as int),
        p.env_key@ == "DATABASE_URL"@,
        p.env_value@ == connection_view(db_path@),
{
    proof {
        reveal_strlit("8000");
        assert(crate::config::dec_rep(8) =~= seq!['8']);
        assert(crate::config::dec_rep(80) =~= seq!['8', '0']);
        assert(crate::config::dec_rep(800) =~= seq!['8', '0', '0']);
        assert(crate::config::dec_rep(8000) =~= seq!['8', '0', '0', '0']);
        assert("8000"@ =~= seq!['8', '0', '0', '0']);
    }
    let mut args: Vec<String> = Vec::new();
    args.push(String::from_str("--host"));
    args.push(String::from_str("127.0.0.1"));
    args.push(String::from_str("--port"));
    args.push(String::from_str("8000"));
    BackendLaunch {
        program: String::from_str("api-server"),
        args,
        env_key: String::from_str("DATABASE_URL"),
        env_value: connection_string(db_path),
    }
}

} // verus!
