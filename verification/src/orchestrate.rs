//! Provisioning pipelines' decision rules and the launch preparation.
//!
//! The pipelines themselves interleave network and disk work; what stands
//! here is every decision they take: which download URL fits the platform,
//! whether the runtime needs provisioning at all, which precondition failure
//! a launch attempt must report, and the exact command line and environment
//! the supervised process is started with.

use vstd::prelude::*;
use vstd::string::StrSliceExecFns;

verus! {

/// Outcome of checking the two provisioning preconditions of a launch.
#[derive(PartialEq, Eq, Structural, Clone, Copy, Debug)]
pub enum SetupCheck {
    /// Both the runtime and the application bundle are in place.
    Ready,
    /// The interpreter binary is missing: runtime setup must run first.
    RuntimeMissing,
    /// The application bundle is missing: application setup must run first.
    ApplicationMissing,
}

/// Decides which named precondition failure, if any, a launch attempt
/// reports. The missing runtime is reported first: it is the earlier step
/// of the two.
pub fn plan_launch(node_present: bool, core_present: bool) -> (r: SetupCheck)
    ensures
        !node_present ==> r == SetupCheck::RuntimeMissing,
        node_present && !core_present ==> r == SetupCheck::ApplicationMissing,
        node_present && core_present ==> r == SetupCheck::Ready,
{
    if !node_present {
        SetupCheck::RuntimeMissing
    } else if !core_present {
        SetupCheck::ApplicationMissing
    } else {
        SetupCheck::Ready
    }
}

/// The runtime archive URL for a platform, from the small static table:
/// `None` when the platform is unsupported.
pub open spec fn spec_node_url(os: Seq<char>, arch: Seq<char>) -> Option<Seq<char>> {
    if os == "macos"@ && arch == "aarch64"@ {
        Option::Some("https://mirrors.huaweicloud.com/nodejs/v20.19.0/node-v20.19.0-darwin-arm64.tar.gz"@)
    } else if os == "macos"@ && arch == "x86_64"@ {
        Option::Some("https://mirrors.huaweicloud.com/nodejs/v20.19.0/node-v20.19.0-darwin-x64.tar.gz"@)
    } else if os == "windows"@ {
        Option::Some("https://mirrors.huaweicloud.com/nodejs/v20.19.0/node-v20.19.0-win-x64.zip"@)
    } else {
        Option::None
    }
}

/// Resolves the runtime download URL for the given OS and architecture
/// names (as `std::env::consts` spells them).
pub fn get_node_url(os: &String, arch: &String) -> (r: Result<String, String>)
    ensures
        match r {
            Result::Ok(u) => spec_node_url(os@, arch@) == Option::Some(u@),
            Result::Err(_) => spec_node_url(os@, arch@) is None,
        },
{
    let macos = ("macos").to_owned();
    let windows = ("windows").to_owned();
    let aarch64 = ("aarch64").to_owned();
    let x86_64 = ("x86_64").to_owned();
    if *os == macos && *arch == aarch64 {
        Result::Ok(
            ("https://mirrors.huaweicloud.com/nodejs/v20.19.0/node-v20.19.0-darwin-arm64.tar.gz").to_owned(),
        )
    } else if *os == macos && *arch == x86_64 {
        Result::Ok(
            ("https://mirrors.huaweicloud.com/nodejs/v20.19.0/node-v20.19.0-darwin-x64.tar.gz").to_owned(),
        )
    } else if *os == windows {
        Result::Ok(
            ("https://mirrors.huaweicloud.com/nodejs/v20.19.0/node-v20.19.0-win-x64.zip").to_owned(),
        )
    } else {
        Result::Err(("unsupported platform").to_owned())
    }
}

/// Decides what the ensure-runtime pipeline does: nothing when the
/// interpreter binary already resolves, otherwise a download of the
/// platform's runtime archive — or a failure on an unsupported platform.
pub fn plan_runtime_setup(binary_present: bool, os: &String, arch: &String) -> (r: Result<
    Option<String>,
    String,
>)
    ensures
        binary_present ==> (r matches Result::Ok(p) && p is None),
        !binary_present ==> match spec_node_url(os@, arch@) {
            Option::Some(u) => (r matches Result::Ok(p) && p matches Option::Some(s) && s@ == u),
            Option::None => r is Err,
        },
{
    if binary_present {
        Result::Ok(Option::None)
    } else {
        match get_node_url(os, arch) {
            Result::Ok(u) => Result::Ok(Option::Some(u)),
            Result::Err(e) => Result::Err(e),
        }
    }
}

/// The arguments and environment the supervised process is spawned with.
pub struct LaunchPlan {
    /// Arguments to the interpreter: the entrypoint script, then `start`.
    pub args: Vec<String>,
    /// The fixed working environment: non-interactive, authentication and
    /// setup gating disabled, bound to a fixed local loopback host and port.
    pub env: Vec<(String, String)>,
}

/// The environment table the supervised process always receives, with the
/// caller's data directory as the user folder.
pub open spec fn spec_launch_env(user_data: Seq<char>) -> Seq<(Seq<char>, Seq<char>)> {
    seq![
        ("N8N_USER_FOLDER"@, user_data),
        ("N8N_DISABLE_INTERACTIVE_REPL"@, "true"@),
        ("N8N_BLOCK_IFRAME_EMBEDS"@, "false"@),
        ("N8N_USE_SAMESITE_COOKIE_STRICT"@, "false"@),
        ("N8N_CORS_ALLOWED_ORIGINS"@, "*"@),
        ("N8N_SECURE_COOKIE"@, "false"@),
        ("N8N_USER_MANAGEMENT_DISABLED"@, "true"@),
        ("SKIP_SETUP"@, "true"@),
        ("N8N_PORT"@, "5678"@),
        ("N8N_HOST"@, "127.0.0.1"@),
    ]
}

/// Builds the spawn plan for the supervised process: the entrypoint with the
/// fixed `start` argument, and the full fixed environment.
pub fn launch_command(entrypoint: String, user_data: String) -> (r: LaunchPlan)
    ensures
        r.args@.len() == 2,
        r.args@[0]@ == entrypoint@,
        r.args@[1]@ == "start"@,
        r.env@.len() == spec_launch_env(user_data@).len(),
        forall|i: int|
            0 <= i < r.env@.len() ==> #[trigger] r.env@[i].0@ == spec_launch_env(user_data@)[i].0
                && r.env@[i].1@ == spec_launch_env(user_data@)[i].1,
{
    let mut args: Vec<String> = Vec::new();
    args.push(entrypoint);
    args.push(("start").to_owned());
    let mut env: Vec<(String, String)> = Vec::new();
    env.push((("N8N_USER_FOLDER").to_owned(), user_data));
    env.push((("N8N_DISABLE_INTERACTIVE_REPL").to_owned(), ("true").to_owned()));
    env.push((("N8N_BLOCK_IFRAME_EMBEDS").to_owned(), ("false").to_owned()));
    env.push((("N8N_USE_SAMESITE_COOKIE_STRICT").to_owned(), ("false").to_owned()));
    env.push((("N8N_CORS_ALLOWED_ORIGINS").to_owned(), ("*").to_owned()));
    env.push((("N8N_SECURE_COOKIE").to_owned(), ("false").to_owned()));
    env.push((("N8N_USER_MANAGEMENT_DISABLED").to_owned(), ("true").to_owned()));
    env.push((("SKIP_SETUP").to_owned(), ("true").to_owned()));
    env.push((("N8N_PORT").to_owned(), ("5678").to_owned()));
    env.push((("N8N_HOST").to_owned(), ("127.0.0.1").to_owned()));
    LaunchPlan { args, env }
}

/// The well-known "latest release" endpoint the trusted digest manifest is
/// fetched from.
pub fn manifest_endpoint() -> (r: String)
    ensures
        r@ == "https://api.github.com/repos/tangtao646/n8n-core-builder/releases/latest"@,
{
    ("https://api.github.com/repos/tangtao646/n8n-core-builder/releases/latest").to_owned()
}

/// The download URL of the platform's application bundle, through the
/// accelerating proxy configured for the current distribution channel.
pub fn core_download_url(windows: bool) -> (r: String)
    ensures
        windows ==> r@
            == "https://gh-proxy.com/https://github.com/tangtao646/n8n-core-builder/releases/latest/download/n8n-core-windows.zip"@,
        !windows ==> r@
            == "https://gh-proxy.com/https://github.com/tangtao646/n8n-core-builder/releases/latest/download/n8n-core-macos.zip"@,
{
    if windows {
        ("https://gh-proxy.com/https://github.com/tangtao646/n8n-core-builder/releases/latest/download/n8n-core-windows.zip").to_owned()
    } else {
        ("https://gh-proxy.com/https://github.com/tangtao646/n8n-core-builder/releases/latest/download/n8n-core-macos.zip").to_owned()
    }
}

/// Directory, under the application-private data root, the runtime is
/// installed into.
pub fn runtime_dir_name() -> (r: String)
    ensures
        r@ == "runtime"@,
{
    ("runtime").to_owned()
}

/// Directory, under the application-private data root, the application
/// bundle is installed into.
pub fn core_dir_name() -> (r: String)
    ensures
        r@ == "n8n-core"@,
{
    ("n8n-core").to_owned()
}

/// Directory, under the application-private data root, for the supervised
/// process's own mutable state.
pub fn data_dir_name() -> (r: String)
    ensures
        r@ == "n8n-data"@,
{
    ("n8n-data").to_owned()
}

/// The canonical executable path of the installed application bundle,
/// relative to the application-private data root. The bundle counts as
/// installed exactly when this path exists.
pub fn installed_binary_rel_path() -> (r: Vec<String>)
    ensures
        r@.len() == 5,
        r@[0]@ == "n8n-core"@,
        r@[1]@ == "node_modules"@,
        r@[2]@ == "n8n"@,
        r@[3]@ == "bin"@,
        r@[4]@ == "n8n"@,
{
    let mut r: Vec<String> = Vec::new();
    r.push(("n8n-core").to_owned());
    r.push(("node_modules").to_owned());
    r.push(("n8n").to_owned());
    r.push(("bin").to_owned());
    r.push(("n8n").to_owned());
    r
}

} // verus!
