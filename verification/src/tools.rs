//! The server's own upkeep: finding the external tools, checking for and installing a new
//! release, opening folders and serving the start page.
use vstd::prelude::*;
use crate::catalog::same_text;
use crate::commands::{opt_trimmed, opt_trimmed_spec, CommandPlan, Rejection};
use crate::text::{
    decimal, decimal_seq, lemma_split_nonempty, opt_text, replace, replace_seq, split_on,
    split_seq, starts_with, starts_with_seq, ends_with, ends_with_seq, trim, trim_seq,
};

verus! {

/// The tool path set in an environment variable, trimmed; `None` when unset or blank.
pub fn env_path_candidate(env: &Option<String>) -> (r: Option<String>)
    ensures
        opt_text(r) == opt_trimmed_spec(opt_text(*env)),
{
    opt_trimmed(env)
}

/// Where a tool is found without asking the system: the environment's path when it exists
/// (`env_exists`), else the bundled path when it exists. `None` means: ask `where`.
pub fn local_tool_path(env_candidate: Option<String>, env_exists: bool, bundled: &str, bundled_exists: bool) -> (r: Option<String>)
    ensures
        opt_text(r) == (if env_candidate is Some && env_exists { opt_text(env_candidate) }
            else if bundled_exists { Some(bundled@) } else { None }),
{
    match env_candidate {
        Some(c) if env_exists => Some(c),
        _ => if bundled_exists { Some(bundled.to_owned()) } else { None },
    }
}

/// The path `where` printed first: the first line of its output, trimmed, when not blank.
pub open spec fn first_line_spec(stdout: Seq<char>) -> Option<Seq<char>> {
    let line = trim_seq(split_seq(stdout, seq!['\n'])[0]);
    if line.len() > 0 { Some(line) } else { None }
}

/// The first path that `where` printed.
pub fn first_line_path(stdout: &str) -> (r: Option<String>)
    ensures
        opt_text(r) == first_line_spec(stdout@),
{
    let nl = vec!['\n'];
    let lines = split_on(stdout, &nl);
    proof { lemma_split_nonempty(stdout@, nl@); }
    assert(nl@ == seq!['\n']);
    let line = trim(lines[0].as_str());
    assert(lines.deep_view()[0] == lines[0]@);
    if line.as_str().is_empty() { None } else { Some(line) }
}

/// The configured path of a tool: the environment value if not blank, else the default when
/// it exists, else the alternative when it exists, else the default.
pub open spec fn configured_path_spec(env: Option<Seq<char>>, default: Seq<char>, default_exists: bool, alt: Option<(Seq<char>, bool)>) -> Seq<char> {
    match opt_trimmed_spec(env) {
        Some(p) => p,
        None => if default_exists {
            default
        } else {
            match alt {
                Some(a) => if a.1 { a.0 } else { default },
                None => default,
            }
        },
    }
}

/// The path of a tool that lives at a fixed place unless the environment names another.
pub fn configured_tool_path(env: &Option<String>, default: &str, default_exists: bool, alt: Option<(&str, bool)>) -> (r: String)
    ensures
        r@ == configured_path_spec(opt_text(*env), default@, default_exists,
            match alt { Some(a) => Some((a.0@, a.1)), None => None }),
{
    match opt_trimmed(env) {
        Some(p) => p,
        None => if default_exists {
            default.to_owned()
        } else {
            match alt {
                Some((a, true)) => a.to_owned(),
                _ => default.to_owned(),
            }
        },
    }
}

/// What the update check reports.
#[derive(Debug)]
pub struct UpdateInfo {
    pub current: String,
    pub latest: String,
    pub url: Option<String>,
    pub update_available: bool,
    pub notes: String,
}

/// The download of the `windows-x86_64` platform, if the release lists one.
pub open spec fn windows_url(platforms: Seq<(Seq<char>, Seq<char>)>) -> Option<Seq<char>>
    decreases platforms.len(),
{
    if platforms.len() == 0 {
        None
    } else if platforms[0].0 == "windows-x86_64"@ {
        Some(platforms[0].1)
    } else {
        windows_url(platforms.drop_first())
    }
}

/// The view of the platform list of a release.
pub open spec fn platforms_view(p: Seq<(String, String)>) -> Seq<(Seq<char>, Seq<char>)> {
    p.map_values(|e: (String, String)| (e.0@, e.1@))
}

/// Compares the running version with the latest release: an update is available when the
/// versions differ; its download is the `windows-x86_64` one.
pub fn update_info(current: &str, latest: &str, notes: &str, platforms: &Vec<(String, String)>) -> (r: UpdateInfo)
    ensures
        r.current@ == current@,
        r.latest@ == latest@,
        r.notes@ == notes@,
        r.update_available == (latest@ != current@),
        opt_text(r.url) == windows_url(platforms_view(platforms@)),
{
    let ghost pv = platforms_view(platforms@);
    let mut url: Option<String> = None;
    let mut i: usize = 0;
    assert(pv.skip(0) == pv);
    while i < platforms.len()
        invariant
            i <= platforms.len(),
            pv == platforms_view(platforms@),
            url is None,
            windows_url(pv) == windows_url(pv.skip(i as int)),
        decreases platforms.len() - i,
    {
        assert(pv.skip(i as int)[0] == (platforms@[i as int].0@, platforms@[i as int].1@));
        assert(pv.skip(i as int).drop_first() == pv.skip(i + 1));
        if same_text(platforms[i].0.as_str(), "windows-x86_64") {
            url = Some(platforms[i].1.clone());
            proof { reveal_strlit("windows-x86_64"); }
            return UpdateInfo {
                current: current.to_owned(),
                latest: latest.to_owned(),
                url,
                update_available: !same_text(latest, current),
                notes: notes.to_owned(),
            };
        }
        i += 1;
    }
    UpdateInfo {
        current: current.to_owned(),
        latest: latest.to_owned(),
        url,
        update_available: !same_text(latest, current),
        notes: notes.to_owned(),
    }
}

/// The refusal, if any, of an update request: the trimmed URL must be an https URL of a zip file.
pub open spec fn update_url_refusal(url: Seq<char>) -> Option<Seq<char>> {
    let u = trim_seq(url);
    if u.len() == 0 || !starts_with_seq(u, "https://"@) {
        Some("url must be an https URL"@)
    } else if !ends_with_seq(u, ".zip"@) {
        Some("url must point to a zip file"@)
    } else {
        None
    }
}

/// Checks the URL of an update archive, returning it trimmed.
pub fn check_update_url(url: &str) -> (r: Result<String, Rejection>)
    ensures
        match update_url_refusal(url@) {
            Some(m) => r matches Err(e) && e.status == 400 && e.message@ == m,
            None => r matches Ok(u) && u@ == trim_seq(url@),
        },
{
    let u = trim(url);
    if u.as_str().is_empty() || !starts_with(u.as_str(), "https://") {
        return Err(Rejection { status: 400, message: "url must be an https URL".to_owned() });
    }
    if !ends_with(u.as_str(), ".zip") {
        return Err(Rejection { status: 400, message: "url must point to a zip file".to_owned() });
    }
    Ok(u)
}

/// The PowerShell script that downloads a release archive, waits for the running server to
/// exit, copies the new files into the application folder and starts the new version.
pub const UPDATER_SCRIPT: &'static str = r#"
$ErrorActionPreference = "Stop"
$appDir = $args[0]
$url = $args[1]
$oldPid = $args[2]
$tmp = Join-Path $appDir "update_tmp"
if (Test-Path $tmp) { Remove-Item $tmp -Recurse -Force }
New-Item -ItemType Directory -Path $tmp -Force | Out-Null
$zip = Join-Path $tmp "kasugai_converter.zip"
Write-Output "Downloading update..."
curl.exe -s -S -L --fail -o $zip $url
if ($LASTEXITCODE -ne 0) { throw "download failed" }
Write-Output "Extracting update..."
Expand-Archive -Path $zip -DestinationPath $tmp -Force
Write-Output "Waiting for old process to exit..."
while (Get-Process -Id $oldPid -ErrorAction SilentlyContinue) { Start-Sleep -Milliseconds 200 }
$src = Join-Path $tmp "kasugai_converter.exe"
if (-not (Test-Path $src)) { throw "kasugai_converter.exe not found in archive" }
$srcStatic = Join-Path $tmp "static"
$srcResources = Join-Path $tmp "resources"
$srcTools = Join-Path $tmp "tools"
Copy-Item $src -Destination (Join-Path $appDir "kasugai_converter.exe") -Force
if (Test-Path $srcStatic) { Copy-Item $srcStatic -Destination $appDir -Recurse -Force }
if (Test-Path $srcResources) { Copy-Item $srcResources -Destination $appDir -Recurse -Force }
if (Test-Path $srcTools) { Copy-Item $srcTools -Destination $appDir -Recurse -Force }
Remove-Item $tmp -Recurse -Force
Write-Output "Starting new version..."
Start-Process -FilePath (Join-Path $appDir "kasugai_converter.exe") -WorkingDirectory $appDir -ArgumentList "--open-browser"
"#;

/// The command that runs the updater script hidden, for the application folder, the
/// archive URL and the id of the process to wait for.
pub fn updater_command(script_path: &str, app_dir: &str, url: &str, pid: u32) -> (c: CommandPlan)
    ensures
        c.program@ == "powershell"@,
        c.args.deep_view() == seq!["-WindowStyle"@, "Hidden"@, "-ExecutionPolicy"@, "Bypass"@, "-File"@,
            script_path@, app_dir@, url@, decimal_seq(pid as nat)],
{
    let mut args: Vec<String> = Vec::new();
    args.push("-WindowStyle".to_owned());
    args.push("Hidden".to_owned());
    args.push("-ExecutionPolicy".to_owned());
    args.push("Bypass".to_owned());
    args.push("-File".to_owned());
    args.push(script_path.to_owned());
    args.push(app_dir.to_owned());
    args.push(url.to_owned());
    args.push(decimal(pid as u64));
    assert(args.deep_view() =~= seq!["-WindowStyle"@, "Hidden"@, "-ExecutionPolicy"@, "Bypass"@, "-File"@,
            script_path@, app_dir@, url@, decimal_seq(pid as nat)]);
    CommandPlan { program: "powershell".to_owned(), args }
}

/// How many more times the server tries to bind its port after asking the server already
/// holding it to stop.
pub const BIND_RETRIES: u32 = 60;

/// The wait before each of those tries, in milliseconds.
pub const BIND_RETRY_DELAY_MS: u64 = 500;

/// Whether the server tries to bind its port once more, after `tries` tries that followed
/// the stop request have failed: yes until there have been `BIND_RETRIES` of them.
pub fn bind_again(tries: u32) -> (r: bool)
    ensures
        r == (tries < BIND_RETRIES),
{
    tries < BIND_RETRIES
}

/// The folder to open: the trimmed path, refused when blank.
pub fn folder_to_open(path: &str) -> (r: Result<String, Rejection>)
    ensures
        trim_seq(path@).len() == 0 ==> (r matches Err(e) && e.status == 400 && e.message@ == "path is required"@),
        trim_seq(path@).len() > 0 ==> (r matches Ok(p) && p@ == trim_seq(path@)),
{
    let p = trim(path);
    if p.as_str().is_empty() {
        return Err(Rejection { status: 400, message: "path is required".to_owned() });
    }
    Ok(p)
}

/// The start page with the version filled in for every `<version>`.
pub fn index_page(html: &str, version: &str) -> (r: String)
    ensures
        r@ == replace_seq(html@, "<version>"@, version@),
{
    proof { reveal_strlit("<version>"); }
    replace(html, "<version>", version)
}

} // verus!
