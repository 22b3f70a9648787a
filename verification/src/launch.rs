//! Backend sidecar launch support: bearer-token issuing, resolution of the
//! sidecar executable and its arguments across run modes, the environment
//! handed to the spawned process, the runtime configuration exposed to the
//! UI boundary, and the script injected into the window. Reading environment
//! variables, checking the filesystem and spawning the process happen
//! outside the library; the decisions here are driven by those facts.

use vstd::prelude::*;
use vstd::string::*;
use rand::Rng;
use crate::parse::dec_seq;
use crate::parse::u16_to_dec;
use crate::readiness::BackendEvent;
use crate::text::{
    chars_to_string, is_blank, is_blank_chars, join_with, to_chars, trim_chars, trim_seq,
};

verus! {

/// ASCII alphanumeric: a digit, an uppercase or a lowercase letter.
pub open spec fn is_alnum_char(c: char) -> bool {
    (48 <= c as u32 && c as u32 <= 57) || (65 <= c as u32 && c as u32 <= 90) || (97 <= c as u32
        && c as u32 <= 122)
}

/// Relies on rand's `Alphanumeric` distribution (via `thread_rng`,
/// `sample_iter` and `take`): every sampled byte is one of the 62 ASCII
/// alphanumeric characters, drawn uniformly, so collecting `len` of them
/// gives a string of exactly `len` alphanumeric characters. Which characters
/// come back is random; nothing more is promised.
#[verifier::external_body]
fn sample_alphanumeric_chars(len: usize) -> (r: String)
    ensures
        r@.len() == len,
        forall|i: int| 0 <= i < r@.len() ==> is_alnum_char(r@[i]),
{
    rand::thread_rng()
        .sample_iter(&rand::distributions::Alphanumeric)
        .take(len)
        .map(char::from)
        .collect()
}

/// Issues the opaque bearer credential shared between launcher and backend:
/// 40 characters, each ASCII alphanumeric.
pub fn random_token() -> (r: String)
    ensures
        r@.len() == 40,
        forall|i: int| 0 <= i < r@.len() ==> is_alnum_char(r@[i]),
{
    sample_alphanumeric_chars(40)
}

/// The workspace root for development mode: the working directory when it
/// holds a `backend` subdirectory, else its parent when that does, else the
/// working directory after all.
pub fn resolve_workspace_root(
    cwd: String,
    cwd_has_backend: bool,
    parent: String,
    parent_has_backend: bool,
) -> (r: String)
    ensures
        cwd_has_backend ==> r@ == cwd@,
        !cwd_has_backend && parent_has_backend ==> r@ == parent@,
        !cwd_has_backend && !parent_has_backend ==> r@ == cwd@,
{
    if cwd_has_backend {
        cwd
    } else if parent_has_backend {
        parent
    } else {
        cwd
    }
}

/// The packaged backend binary's file name on each platform family.
pub open spec fn binary_name_spec(windows: bool) -> Seq<char> {
    if windows {
        "filesmind-backend.exe"@
    } else {
        "filesmind-backend"@
    }
}

/// The packaged backend binary's file name.
pub fn sidecar_binary_name(windows: bool) -> (r: String)
    ensures
        r@ == binary_name_spec(windows),
{
    if windows {
        String::from_str("filesmind-backend.exe")
    } else {
        String::from_str("filesmind-backend")
    }
}

/// Joins a directory and a name with a single separator.
pub fn join_path(dir: &str, name: &str) -> (r: String)
    ensures
        r@ == dir@ + "/"@ + name@,
{
    let mut s = String::from_str(dir);
    s.append("/");
    s.append(name);
    s
}

/// The candidate paths for the packaged backend binary, in search order:
/// next to the current executable, then in the resource directory's
/// `binaries` subfolder, then directly in the resource directory.
pub open spec fn candidates_spec(
    exe_dir: Option<Seq<char>>,
    resource_dir: Option<Seq<char>>,
    windows: bool,
) -> Seq<Seq<char>> {
    let bin = binary_name_spec(windows);
    let from_exe: Seq<Seq<char>> = match exe_dir {
        Some(d) => seq![d + "/"@ + bin],
        None => Seq::<Seq<char>>::empty(),
    };
    let from_res: Seq<Seq<char>> = match resource_dir {
        Some(d) => seq![d + "/binaries/"@ + bin, d + "/"@ + bin],
        None => Seq::<Seq<char>>::empty(),
    };
    from_exe + from_res
}

/// Builds the candidate path list for the packaged backend binary.
pub fn sidecar_candidates(
    exe_dir: Option<&str>,
    resource_dir: Option<&str>,
    windows: bool,
) -> (r: Vec<String>)
    ensures
        r.deep_view() == candidates_spec(exe_dir.deep_view(), resource_dir.deep_view(), windows),
{
    let bin = sidecar_binary_name(windows);
    let mut r: Vec<String> = Vec::new();
    if let Some(d) = exe_dir {
        r.push(join_path(d, bin.as_str()));
    }
    if let Some(d) = resource_dir {
        let mut inner = String::from_str(d);
        inner.append("/binaries/");
        inner.append(bin.as_str());
        r.push(inner);
        r.push(join_path(d, bin.as_str()));
    }
    proof {
        assert(r.deep_view() =~~= candidates_spec(
            exe_dir.deep_view(),
            resource_dir.deep_view(),
            windows,
        ));
    }
    r
}

/// A resolved sidecar invocation: the executable and its arguments.
pub struct SidecarCommand {
    pub program: String,
    pub args: Vec<String>,
}

/// A startup failure. Each is fatal to backend startup but recovered into a
/// degraded empty-configuration fallback, never a process abort.
pub enum LaunchError {
    PortBindFailure,
    SidecarNotFound { checked: Vec<String> },
    DataDirFailure,
    SpawnFailure { program: String },
}

/// The message a startup failure carries to the UI boundary.
pub open spec fn launch_error_message(e: LaunchError) -> Seq<char> {
    match e {
        LaunchError::PortBindFailure => "bind local random port failed"@,
        LaunchError::SidecarNotFound { checked } => "backend sidecar not found; checked: "@
            + join_with(checked.deep_view(), ", "@),
        LaunchError::DataDirFailure => "create app data dir failed"@,
        LaunchError::SpawnFailure { program } => "spawn backend sidecar failed: "@ + program@,
    }
}

/// Joins the parts with the separator between consecutive elements.
#[verifier::loop_isolation(false)]
pub fn join_strings(parts: &Vec<String>, sep: &str) -> (r: String)
    ensures
        r@ == join_with(parts.deep_view(), sep@),
{
    let mut r = String::new();
    let mut i: usize = 0;
    while i < parts.len()
        invariant
            i <= parts@.len(),
            r@ == join_with(parts.deep_view().take(i as int), sep@),
        decreases parts@.len() - i,
    {
        if i > 0 {
            r.append(sep);
        }
        r.append(parts[i].as_str());
        proof {
            let dv = parts.deep_view();
            assert(dv.take(i + 1).drop_last() =~= dv.take(i as int));
            assert(dv.take(i + 1).last() == dv[i as int]);
            if i == 0 {
                assert(join_with(dv.take(1), sep@) == dv[0]);
            }
        }
        i += 1;
    }
    proof {
        assert(parts.deep_view().take(parts@.len() as int) =~= parts.deep_view());
    }
    r
}

impl LaunchError {
    /// The failure's message, never empty.
    pub fn message(&self) -> (r: String)
        ensures
            r@ == launch_error_message(*self),
            r@.len() > 0,
    {
        proof {
            reveal_strlit("bind local random port failed");
            reveal_strlit("backend sidecar not found; checked: ");
            reveal_strlit("create app data dir failed");
            reveal_strlit("spawn backend sidecar failed: ");
        }
        match self {
            LaunchError::PortBindFailure => String::from_str("bind local random port failed"),
            LaunchError::SidecarNotFound { checked } => {
                let mut s = String::from_str("backend sidecar not found; checked: ");
                let joined = join_strings(checked, ", ");
                s.append(joined.as_str());
                s
            },
            LaunchError::DataDirFailure => String::from_str("create app data dir failed"),
            LaunchError::SpawnFailure { program } => {
                let mut s = String::from_str("spawn backend sidecar failed: ");
                s.append(program.as_str());
                s
            },
        }
    }
}

/// Index of the first set flag, or the length when none is set.
pub open spec fn first_true(flags: Seq<bool>) -> int
    decreases flags.len(),
{
    if flags.len() == 0 {
        0
    } else if flags[0] {
        0
    } else {
        1 + first_true(flags.drop_first())
    }
}

proof fn lemma_first_true_at(flags: Seq<bool>, j: int)
    requires
        0 <= j <= flags.len(),
        forall|k: int| 0 <= k < j ==> !flags[k],
        j == flags.len() || flags[j],
    ensures
        first_true(flags) == j,
    decreases j,
{
    if flags.len() == 0 {
    } else if j == 0 {
    } else {
        let t = flags.drop_first();
        assert(forall|k: int| 0 <= k < j - 1 ==> !#[trigger] t[k]);
        lemma_first_true_at(t, j - 1);
    }
}

/// Resolves the sidecar invocation. Resolution order, first match wins: an
/// explicit non-blank override path (trimmed, with no arguments); in
/// development mode, the language interpreter run against the backend
/// entry-point script under the workspace root; else the first candidate
/// path that exists. When nothing matches, the failure lists every
/// candidate that was checked.
#[verifier::loop_isolation(false)]
pub fn find_sidecar_path(
    override_path: Option<String>,
    dev_mode: bool,
    workspace_root: &str,
    candidates: Vec<String>,
    present: &Vec<bool>,
) -> (r: Result<SidecarCommand, LaunchError>)
    requires
        candidates@.len() == present@.len(),
    ensures
        ({
            let overridden = override_path matches Some(p) && !is_blank(p@);
            &&& (overridden ==> (r matches Ok(c) && c.program@ == trim_seq(
                override_path.unwrap()@,
            ) && c.args@.len() == 0))
            &&& (!overridden && dev_mode ==> (r matches Ok(c) && c.program@ == "python"@
                && c.args.deep_view() =~= seq![
                workspace_root@ + "/"@ + "backend/desktop_server.py"@,
            ]))
            &&& (!overridden && !dev_mode && (exists|i: int|
                0 <= i < present@.len() && present@[i]) ==> (r matches Ok(c) && c.program@
                == candidates.deep_view()[first_true(present@)] && c.args@.len() == 0))
            &&& (!overridden && !dev_mode && (forall|i: int|
                0 <= i < present@.len() ==> !present@[i]) ==> (r matches Err(e) && e matches
                LaunchError::SidecarNotFound { checked } && checked.deep_view()
                == candidates.deep_view()))
        }),
{
    if let Some(p) = override_path {
        let chars = to_chars(p.as_str());
        if !is_blank_chars(&chars) {
            let trimmed = trim_chars(&chars);
            return Ok(SidecarCommand { program: chars_to_string(&trimmed), args: Vec::new() });
        }
    }
    if dev_mode {
        let script = join_path(workspace_root, "backend/desktop_server.py");
        let mut args: Vec<String> = Vec::new();
        args.push(script);
        return Ok(SidecarCommand { program: String::from_str("python"), args });
    }
    let n = candidates.len();
    let mut i: usize = 0;
    while i < n
        invariant
            i <= n,
            forall|k: int| 0 <= k < i ==> !present@[k],
        decreases n - i,
    {
        if present[i] {
            proof {
                lemma_first_true_at(present@, i as int);
            }
            let program = candidates[i].clone();
            return Ok(SidecarCommand { program, args: Vec::new() });
        }
        i += 1;
    }
    Err(LaunchError::SidecarNotFound { checked: candidates })
}

/// The loopback base URL the backend serves on the chosen port.
pub fn backend_base_url(port: u16) -> (r: String)
    ensures
        r@ == "http://127.0.0.1:"@ + dec_seq(port as int),
{
    let mut s = String::from_str("http://127.0.0.1:");
    let digits = u16_to_dec(port);
    let ds = chars_to_string(&digits);
    s.append(ds.as_str());
    s
}

/// The environment bindings injected into the spawned backend process:
/// host, port, bearer token, data and log directories under the application
/// data directory, application version, and the fixed compatibility flag.
pub fn backend_env(port: u16, token: &str, app_data_dir: &str, app_version: &str) -> (r: Vec<
    (String, String),
>)
    ensures
        r@.len() == 7,
        r@[0].0@ == "FILESMIND_HOST"@ && r@[0].1@ == "127.0.0.1"@,
        r@[1].0@ == "FILESMIND_PORT"@ && r@[1].1@ == dec_seq(port as int),
        r@[2].0@ == "FILESMIND_AUTH_TOKEN"@ && r@[2].1@ == token@,
        r@[3].0@ == "FILESMIND_DATA_DIR"@ && r@[3].1@ == app_data_dir@ + "/"@ + "data"@,
        r@[4].0@ == "FILESMIND_LOG_DIR"@ && r@[4].1@ == app_data_dir@ + "/"@ + "logs"@,
        r@[5].0@ == "FILESMIND_APP_VERSION"@ && r@[5].1@ == app_version@,
        r@[6].0@ == "PYTORCH_ENABLE_MPS_FALLBACK"@ && r@[6].1@ == "1"@,
{
    let digits = u16_to_dec(port);
    let mut r: Vec<(String, String)> = Vec::new();
    r.push((String::from_str("FILESMIND_HOST"), String::from_str("127.0.0.1")));
    r.push((String::from_str("FILESMIND_PORT"), chars_to_string(&digits)));
    r.push((String::from_str("FILESMIND_AUTH_TOKEN"), String::from_str(token)));
    r.push((String::from_str("FILESMIND_DATA_DIR"), join_path(app_data_dir, "data")));
    r.push((String::from_str("FILESMIND_LOG_DIR"), join_path(app_data_dir, "logs")));
    r.push((String::from_str("FILESMIND_APP_VERSION"), String::from_str(app_version)));
    r.push((String::from_str("PYTORCH_ENABLE_MPS_FALLBACK"), String::from_str("1")));
    r
}

/// The immutable configuration snapshot the UI boundary reads; empty values
/// signal that no backend is available.
pub struct RuntimeConfigPayload {
    pub backend_base_url: String,
    pub auth_token: String,
}

impl RuntimeConfigPayload {
    /// The configuration for a running backend.
    pub fn new(base_url: &str, token: &str) -> (r: RuntimeConfigPayload)
        ensures
            r.backend_base_url@ == base_url@,
            r.auth_token@ == token@,
    {
        RuntimeConfigPayload {
            backend_base_url: String::from_str(base_url),
            auth_token: String::from_str(token),
        }
    }

    /// The degraded configuration signalling that no backend is available.
    pub fn empty() -> (r: RuntimeConfigPayload)
        ensures
            r.backend_base_url@.len() == 0,
            r.auth_token@.len() == 0,
    {
        RuntimeConfigPayload { backend_base_url: String::new(), auth_token: String::new() }
    }
}

/// The degraded startup outcome after any launch failure: an empty runtime
/// configuration together with the failure event that carries the message,
/// so the application continues instead of aborting.
pub fn fallback_runtime(error: String) -> (r: (RuntimeConfigPayload, BackendEvent))
    ensures
        r.0.backend_base_url@.len() == 0,
        r.0.auth_token@.len() == 0,
        r.1 matches BackendEvent::Failed { error: e } && e@ == error@,
{
    (RuntimeConfigPayload::empty(), BackendEvent::Failed { error })
}

/// How one character is written inside a double-quoted JavaScript string
/// literal: backslashes and quotes are escaped, a line feed becomes `\n`,
/// and a carriage return is dropped.
pub open spec fn js_escape_char(c: char) -> Seq<char> {
    if c == '\\' {
        seq!['\\', '\\']
    } else if c == '"' {
        seq!['\\', '"']
    } else if c == '\n' {
        seq!['\\', 'n']
    } else if c == '\r' {
        Seq::<char>::empty()
    } else {
        seq![c]
    }
}

/// Characterwise escaping of a whole string.
pub open spec fn js_escape_seq(s: Seq<char>) -> Seq<char>
    decreases s.len(),
{
    if s.len() == 0 {
        Seq::<char>::empty()
    } else {
        js_escape_char(s[0]) + js_escape_seq(s.drop_first())
    }
}

proof fn lemma_js_escape_concat(a: Seq<char>, b: Seq<char>)
    ensures
        js_escape_seq(a + b) == js_escape_seq(a) + js_escape_seq(b),
    decreases a.len(),
{
    if a.len() == 0 {
        assert(a + b =~= b);
        assert(js_escape_seq(a) + js_escape_seq(b) =~= js_escape_seq(b));
    } else {
        assert((a + b).len() > 0);
        assert((a + b)[0] == a[0]);
        assert((a + b).drop_first() =~= a.drop_first() + b);
        lemma_js_escape_concat(a.drop_first(), b);
        assert(js_escape_char(a[0]) + (js_escape_seq(a.drop_first()) + js_escape_seq(b)) =~= (
        js_escape_char(a[0]) + js_escape_seq(a.drop_first())) + js_escape_seq(b));
    }
}

/// Escapes a value for inclusion in a double-quoted JavaScript string
/// literal.
#[verifier::loop_isolation(false)]
pub fn js_escape(value: &str) -> (r: String)
    ensures
        r@ == js_escape_seq(value@),
{
    let chars = to_chars(value);
    let mut out: Vec<char> = Vec::new();
    let mut i: usize = 0;
    while i < chars.len()
        invariant
            i <= chars@.len(),
            chars@ == value@,
            out@ == js_escape_seq(value@.take(i as int)),
        decreases chars@.len() - i,
    {
        let c = chars[i];
        proof {
            assert(value@.take(i + 1) =~= value@.take(i as int) + seq![value@[i as int]]);
            lemma_js_escape_concat(value@.take(i as int), seq![value@[i as int]]);
            let single = seq![value@[i as int]];
            assert(single.drop_first() =~= Seq::<char>::empty());
            assert(single[0] == value@[i as int]);
            assert(js_escape_seq(Seq::<char>::empty()) == Seq::<char>::empty());
            assert(js_escape_seq(single) =~= js_escape_char(value@[i as int]));
        }
        if c == '\\' {
            out.push('\\');
            out.push('\\');
        } else if c == '"' {
            out.push('\\');
            out.push('"');
        } else if c == '\n' {
            out.push('\\');
            out.push('n');
        } else if c == '\r' {
        } else {
            out.push(c);
        }
        proof {
            assert(out@ =~= js_escape_seq(value@.take(i + 1)));
        }
        i += 1;
    }
    proof {
        assert(value@.take(chars@.len() as int) =~= value@);
    }
    chars_to_string(&out)
}

/// The script injected into the application window to expose the runtime
/// configuration, with both values escaped.
pub fn runtime_injection_script(base_url: &str, token: &str) -> (r: String)
    ensures
        r@ == "window.__FILESMIND_RUNTIME__ = { backendBaseUrl: \""@ + js_escape_seq(base_url@)
            + "\", authToken: \""@ + js_escape_seq(token@) + "\" };"@,
{
    let mut s = String::from_str("window.__FILESMIND_RUNTIME__ = { backendBaseUrl: \"");
    let eb = js_escape(base_url);
    s.append(eb.as_str());
    s.append("\", authToken: \"");
    let et = js_escape(token);
    s.append(et.as_str());
    s.append("\" };");
    s
}

} // verus!
