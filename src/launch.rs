//! Resolution of the editor binary and the plan of the process to launch.
use vstd::prelude::*;
use vstd::string::StringExecFns;

verus! {

/// How the bridge reaches the editor.
pub enum ConnectionMode {
    /// Launch a local editor process and talk over its standard streams.
    Child,
    /// Connect to a running editor at this address.
    RemoteTcp(String),
}

/// What the caller chose at startup; read-only to the bridge.
pub struct LaunchOptions {
    pub nvim_path: Option<String>,
    pub nvim_args: Vec<String>,
    pub mode: ConnectionMode,
}

/// Why no editor binary could be used.
#[derive(PartialEq, Eq, Structural, Clone, Copy, Debug)]
pub enum LaunchError {
    /// The candidate that was found cannot be run.
    NoPermission,
    /// No candidate was given or found on the search path.
    NotFound,
}

/// A binary that was named or found, and whether it passed its existence check.
pub struct Candidate {
    pub path: String,
    pub usable: bool,
}

/// Where the standard error stream of the child goes.
#[derive(PartialEq, Eq, Structural, Clone, Copy, Debug)]
pub enum StderrMode {
    Inherit,
    Piped,
}

/// A command ready to be spawned.
pub struct LaunchPlan {
    pub program: String,
    pub args: Vec<String>,
    pub stderr: StderrMode,
}

/// The endpoint that the session connects to.
pub enum Endpoint {
    Child(LaunchPlan),
    Tcp(String),
}

/// The outcome of resolution over the candidates in order of preference:
/// the first one present decides, by its existence check.
pub open spec fn selection(
    explicit: Option<(Seq<char>, bool)>,
    lvim: Option<(Seq<char>, bool)>,
    nvim: Option<(Seq<char>, bool)>,
) -> Result<Seq<char>, LaunchError> {
    let first = if explicit is Some {
        explicit
    } else if lvim is Some {
        lvim
    } else {
        nvim
    };
    match first {
        None => Err(LaunchError::NotFound),
        Some((p, ok)) => if ok {
            Ok(p)
        } else {
            Err(LaunchError::NoPermission)
        },
    }
}

pub open spec fn candidate_model(c: Option<Candidate>) -> Option<(Seq<char>, bool)> {
    match c {
        None => None,
        Some(c) => Some((c.path@, c.usable)),
    }
}

pub open spec fn result_model(r: Result<String, LaunchError>) -> Result<Seq<char>, LaunchError> {
    match r {
        Ok(s) => Ok(s@),
        Err(e) => Err(e),
    }
}

/// Picks the binary among the explicit path and the two fallbacks found on
/// the search path, in that order of preference.
pub fn select_binary(
    explicit: Option<Candidate>,
    lvim: Option<Candidate>,
    nvim: Option<Candidate>,
) -> (r: Result<String, LaunchError>)
    ensures
        result_model(r) == selection(
            candidate_model(explicit),
            candidate_model(lvim),
            candidate_model(nvim),
        ),
{
    let first = match explicit {
        Some(c) => Some(c),
        None => match lvim {
            Some(c) => Some(c),
            None => nvim,
        },
    };
    match first {
        None => Err(LaunchError::NotFound),
        Some(c) => if c.usable {
            Ok(c.path)
        } else {
            Err(LaunchError::NoPermission)
        },
    }
}

/// Relies on which::which: looks the name up in the directories of the
/// search path; the answer depends on the file system, so nothing is stated.
#[verifier::external_body]
fn find_on_search_path(name: &str) -> (r: Option<String>) {
    which::which(name).ok().and_then(|p| p.into_os_string().into_string().ok())
}

/// Relies on std::path::Path::exists: whether the path names an existing
/// file; the answer depends on the file system, so nothing is stated.
#[verifier::external_body]
fn path_exists(path: &str) -> (r: bool) {
    std::path::Path::new(path).exists()
}

fn probe(path: Option<String>) -> (r: Option<Candidate>)
    ensures
        path is None <==> r is None,
        path is Some ==> r->0.path == path->0,
{
    match path {
        None => None,
        Some(p) => {
            let usable = path_exists(p.as_str());
            Some(Candidate { path: p, usable })
        },
    }
}

/// Resolves the editor binary: the explicit path when given, else the first of
/// `lvim` and `nvim` found on the search path. A candidate that fails its
/// existence check is refused, and resolution does not go on past it.
pub fn resolve_binary(explicit: Option<String>) -> (r: Result<String, LaunchError>)
    ensures
        explicit is Some ==> (result_model(r) == Ok::<Seq<char>, LaunchError>(explicit->0@)
            || result_model(r) == Err::<Seq<char>, LaunchError>(LaunchError::NoPermission)),
{
    if explicit.is_some() {
        return select_binary(probe(explicit), None, None);
    }
    let lvim = probe(find_on_search_path("lvim"));
    if lvim.is_some() {
        return select_binary(None, lvim, None);
    }
    let nvim = probe(find_on_search_path("nvim"));
    select_binary(None, None, nvim)
}

/// Standard error is inherited in debug builds and captured otherwise.
pub fn stderr_mode(debug_build: bool) -> (r: StderrMode)
    ensures
        r == (if debug_build {
            StderrMode::Inherit
        } else {
            StderrMode::Piped
        }),
{
    if debug_build {
        StderrMode::Inherit
    } else {
        StderrMode::Piped
    }
}

/// The flag that starts the editor in embedded mode.
pub open spec fn embed_flag() -> Seq<char> {
    "--embed"@
}

/// The arguments of the editor process: the embed flag, then the caller's own.
pub open spec fn launch_args(extra: Seq<String>) -> Seq<Seq<char>> {
    seq![embed_flag()] + extra.map_values(|a: String| a@)
}

pub open spec fn args_model(args: Seq<String>) -> Seq<Seq<char>> {
    args.map_values(|a: String| a@)
}

/// Builds the argument list of the editor process.
pub fn build_launch_args(extra: &Vec<String>) -> (r: Vec<String>)
    ensures
        args_model(r@) == launch_args(extra@),
{
    let mut r: Vec<String> = Vec::new();
    r.push(String::from_str("--embed"));
    let mut i: usize = 0;
    while i < extra.len()
        invariant
            i <= extra@.len(),
            args_model(r@) == seq![embed_flag()] + args_model(extra@.subrange(0, i as int)),
        decreases extra@.len() - i,
    {
        let a = extra[i].clone();
        let ghost before = r@;
        r.push(a);
        assert(r@ == before.push(a));
        assert(args_model(r@) =~= args_model(before).push(a@));
        assert(extra@.subrange(0, i + 1) =~= extra@.subrange(0, i as int).push(extra@[i as int]));
        assert(args_model(r@) =~= seq![embed_flag()] + args_model(extra@.subrange(0, i + 1)));
        i = i + 1;
    }
    assert(extra@.subrange(0, i as int) =~= extra@);
    r
}

/// Plans the connection: the address for a remote editor, or for a child
/// process the resolved binary with its arguments.
pub fn plan_connection(opts: &LaunchOptions, debug_build: bool) -> (r: Result<
    Endpoint,
    LaunchError,
>)
    ensures
        opts.mode is RemoteTcp ==> (r matches Ok(Endpoint::Tcp(a)) && a == opts.mode->RemoteTcp_0),
        opts.mode is Child ==> match r {
            Ok(Endpoint::Child(plan)) => {
                &&& args_model(plan.args@) == launch_args(opts.nvim_args@)
                &&& plan.stderr == (if debug_build {
                    StderrMode::Inherit
                } else {
                    StderrMode::Piped
                })
                &&& opts.nvim_path is Some ==> plan.program@ == opts.nvim_path->0@
            },
            Ok(Endpoint::Tcp(_)) => false,
            Err(e) => opts.nvim_path is Some ==> e == LaunchError::NoPermission,
        },
{
    match &opts.mode {
        ConnectionMode::RemoteTcp(address) => Ok(Endpoint::Tcp(address.clone())),
        ConnectionMode::Child => {
            let program = match resolve_binary(opts.nvim_path.clone()) {
                Ok(p) => p,
                Err(e) => {
                    return Err(e);
                },
            };
            let args = build_launch_args(&opts.nvim_args);
            Ok(Endpoint::Child(LaunchPlan { program, args, stderr: stderr_mode(debug_build) }))
        },
    }
}

} // verus!
