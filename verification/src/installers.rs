//! The installers of the external tools: each is a PowerShell script run with `-Command`.
use vstd::prelude::*;
use crate::commands::{CommandPlan, Rejection};
use crate::catalog::same_text;
use crate::text::{replace, replace_seq};

verus! {

/// The PowerShell script that installs the embedded Python 3.12.4 with pip under `tools/`.
pub const PYTHON_INSTALL_SCRIPT: &'static str = r#"
$ErrorActionPreference = "Stop"
$tools = "tools"
$tmp = "$tools/temp-python"
Remove-Item "$tools/python" -Recurse -Force -ErrorAction SilentlyContinue
Remove-Item $tmp -Recurse -Force -ErrorAction SilentlyContinue
New-Item -ItemType Directory -Path $tmp -Force
Write-Output "Downloading Python 3.12.4..."
curl.exe -s -S -L --fail -o "$tmp/python.zip" "https://www.python.org/ftp/python/3.12.4/python-3.12.4-embed-amd64.zip"
if ($LASTEXITCODE -ne 0) { throw "Python download failed" }
Write-Output "Extracting Python..."
Expand-Archive -Path "$tmp/python.zip" -DestinationPath "$tools/python" -Force
Remove-Item $tmp -Recurse -Force
$pth = Get-ChildItem "$tools/python" -Filter "python*._pth" | Select-Object -First 1
if ($pth) {
    $content = Get-Content $pth.FullName
    $content = $content -replace '^#import site', 'import site'
    $content | Set-Content $pth.FullName
}
$python = "$tools/python/python.exe"
Write-Output "Checking pip..."
& $python -m pip --version
if ($LASTEXITCODE -ne 0) {
    Write-Output "Bootstrapping pip..."
    curl.exe -s -S -L --fail -o "$tools/python/get-pip.py" "https://bootstrap.pypa.io/get-pip.py"
    if ($LASTEXITCODE -ne 0) { throw "get-pip.py download failed" }
    & $python "$tools/python/get-pip.py" --no-setuptools --no-wheel
    if ($LASTEXITCODE -ne 0) { throw "pip bootstrap failed" }
    Remove-Item "$tools/python/get-pip.py"
}
Write-Output "Upgrading pip..."
& $python -m pip install --upgrade pip --no-warn-script-location --progress-bar off
if ($LASTEXITCODE -ne 0) { throw "pip upgrade failed" }
Write-Output "Python installed to $tools/python"
"#;

/// The PowerShell script that installs JDK 21 under `tools/`.
pub const JDK_INSTALL_SCRIPT: &'static str = r#"
$ErrorActionPreference = "Stop"
$tools = "tools"
$tmp = "$tools/temp-jdk"
Remove-Item "$tools/jdk-21" -Recurse -Force -ErrorAction SilentlyContinue
New-Item -ItemType Directory -Path $tmp -Force
Write-Host "Downloading JDK 21..."
curl.exe -s -S -L --fail -o "$tmp/jdk.zip" "https://api.adoptium.net/v3/binary/latest/21/ga/windows/x64/jdk/hotspot/normal/eclipse?project=jdk"
if ($LASTEXITCODE -ne 0) { throw "JDK download failed" }
Write-Host "Extracting JDK..."
Expand-Archive -Path "$tmp/jdk.zip" -DestinationPath $tmp -Force
$dir = Get-ChildItem $tmp -Directory | Select-Object -First 1
if (-not $dir) { throw "No extracted directory found" }
$dst = "$tools/jdk-21"
Move-Item $dir.FullName $dst -Force
Remove-Item $tmp -Recurse -Force
Write-Host "JDK installed to $dst"
"#;

/// The PowerShell script that installs the mago-3d-tiler jar under `tools/`.
pub const MAGO_INSTALL_SCRIPT: &'static str = r#"
$ErrorActionPreference = "Stop"
$tools = "tools"
New-Item -ItemType Directory -Path $tools -Force
Write-Host "Downloading mago-3d-tiler JAR..."
curl.exe -s -S -L --fail -o "$tools/mago-3d-tiler.jar" "https://github.com/Gaia3D/mago-3d-tiler/releases/download/v1.15.4/mago-3d-tiler-1.15.4.jar"
if ($LASTEXITCODE -ne 0) { throw "mago-3d-tiler download failed" }
Write-Host "JAR saved to $tools/mago-3d-tiler.jar"
"#;

/// The PowerShell script that installs Py3DTiles with pip under `tools/`.
pub const PY3DTILES_INSTALL_SCRIPT: &'static str = r#"
$ErrorActionPreference = "Stop"
$tools = "tools"
$python = if (Test-Path "$tools/python/python.exe") { "$tools/python/python.exe" } else { "python" }
Write-Output "Upgrading pip..."
& $python -m pip install --upgrade pip --no-warn-script-location --progress-bar off
if ($LASTEXITCODE -ne 0) { throw "pip upgrade failed" }
Write-Output "Installing py3dtiles..."
& $python -m pip install --no-warn-script-location --progress-bar off py3dtiles
if ($LASTEXITCODE -ne 0) { throw "py3dtiles install failed" }
Write-Output "py3dtiles installed"
"#;

/// The PowerShell script that installs pg2b3dm under `tools/`.
pub const PG2B3DM_INSTALL_SCRIPT: &'static str = r#"
$ErrorActionPreference = "Stop"
$tools = "tools"
$tmp = "$tools/temp-pg2b3dm"
$dst = "$tools/pg2b3dm"
Remove-Item $tmp -Recurse -Force -ErrorAction SilentlyContinue
Remove-Item $dst -Recurse -Force -ErrorAction SilentlyContinue
New-Item -ItemType Directory -Path $tmp -Force
Write-Host "Downloading pg2b3dm..."
curl.exe -s -S -L --fail -o "$tmp/pg2b3dm.zip" "https://github.com/Geodan/pg2b3dm/releases/download/v2.27.0/pg2b3dm-win-x64.zip"
if ($LASTEXITCODE -ne 0) { throw "pg2b3dm download failed" }
Write-Host "Extracting pg2b3dm..."
Expand-Archive -Path "$tmp/pg2b3dm.zip" -DestinationPath $tmp -Force
$exe = Get-ChildItem $tmp -Recurse -Filter "pg2b3dm.exe" | Select-Object -First 1
if (-not $exe) { throw "pg2b3dm.exe not found in archive" }
$dir = Split-Path $exe.FullName
New-Item -ItemType Directory -Path $dst -Force
Move-Item "$dir/*" $dst -Force -ErrorAction SilentlyContinue
Remove-Item $tmp -Recurse -Force
Write-Host "pg2b3dm installed to $dst"
"#;

/// The PowerShell script that installs gocesiumtiler under `tools/`.
pub const GOCESIUMTILER_INSTALL_SCRIPT: &'static str = r#"
$ErrorActionPreference = "Stop"
$tools = "tools"
$tmp = "$tools/temp-gocesiumtiler"
$dst = "$tools/gocesiumtiler"
Remove-Item $tmp -Recurse -Force -ErrorAction SilentlyContinue
Remove-Item $dst -Recurse -Force -ErrorAction SilentlyContinue
New-Item -ItemType Directory -Path $tmp -Force
Write-Output "Downloading gocesiumtiler..."
curl.exe -s -S -L --fail -o "$tmp/gocesiumtiler.zip" "https://github.com/mfbonfigli/gocesiumtiler/releases/download/v2.0.1/gocesiumtiler-v2.0.1.zip"
if ($LASTEXITCODE -ne 0) { throw "gocesiumtiler download failed" }
Write-Output "Extracting gocesiumtiler..."
Expand-Archive -Path "$tmp/gocesiumtiler.zip" -DestinationPath $tmp -Force
$exe = Get-ChildItem $tmp -Recurse -Filter "gocesiumtiler-win-x64.exe" | Select-Object -First 1
if (-not $exe) { throw "gocesiumtiler-win-x64.exe not found in archive" }
$dir = Split-Path $exe.FullName
New-Item -ItemType Directory -Path $dst -Force
Move-Item "$dir/*" $dst -Force -ErrorAction SilentlyContinue
if (Test-Path "$dst/gocesiumtiler.exe") { Remove-Item "$dst/gocesiumtiler.exe" -Force }
Rename-Item "$dst/gocesiumtiler-win-x64.exe" "gocesiumtiler.exe"
Remove-Item $tmp -Recurse -Force
Write-Output "gocesiumtiler installed to $dst"
"#;

/// The PowerShell script that installs IfcConvert of IfcOpenShell under `tools/`.
pub const IFCOPENSHELL_INSTALL_SCRIPT: &'static str = r#"
$ErrorActionPreference = "Stop"
$tools = "tools"
$tmp = "$tools/temp-ifcopenshell"
$dst = "$tools/ifcopenshell"
Remove-Item $tmp -Recurse -Force -ErrorAction SilentlyContinue
Remove-Item $dst -Recurse -Force -ErrorAction SilentlyContinue
New-Item -ItemType Directory -Path $tmp -Force
Write-Output "Downloading IfcOpenShell..."
curl.exe -s -S -L --fail -o "$tmp/ifcopenshell.zip" "https://github.com/IfcOpenShell/IfcOpenShell/releases/download/ifcconvert-0.8.4/ifcconvert-0.8.4-win64.zip"
if ($LASTEXITCODE -ne 0) { throw "ifcopenshell download failed" }
Write-Output "Extracting IfcOpenShell..."
Expand-Archive -Path "$tmp/ifcopenshell.zip" -DestinationPath $tmp -Force
$exe = Get-ChildItem $tmp -Recurse -Filter "IfcConvert.exe" | Select-Object -First 1
if (-not $exe) { throw "IfcConvert.exe not found in archive" }
$dir = Split-Path $exe.FullName
New-Item -ItemType Directory -Path $dst -Force
Move-Item "$dir/*" $dst -Force -ErrorAction SilentlyContinue
Remove-Item $tmp -Recurse -Force
Write-Output "ifcopenshell installed to $dst"
"#;

/// The PowerShell script that installs cjio with pip under `tools/`.
pub const CJIO_INSTALL_SCRIPT: &'static str = r#"
$ErrorActionPreference = "Stop"
$tools = "tools"
$python = if (Test-Path "$tools/python/python.exe") { "$tools/python/python.exe" } else { "python" }
Write-Output "Installing cjio..."
& $python -m pip install --no-warn-script-location --progress-bar off cjio
if ($LASTEXITCODE -ne 0) { throw "cjio install failed" }
Write-Output "cjio installed"
"#;

/// The PowerShell script that installs Node.js; `{version}` stands for the release under `tools/`.
pub const NODE_INSTALL_SCRIPT: &'static str = r#"
$ErrorActionPreference = "Stop"
$tools = "tools"
$tmp = "$tools/temp-node"
$dst = "$tools/node"
Remove-Item $tmp -Recurse -Force -ErrorAction SilentlyContinue
Remove-Item $dst -Recurse -Force -ErrorAction SilentlyContinue
New-Item -ItemType Directory -Path $tmp -Force
Write-Output "Downloading Node.js {version}..."
curl.exe -s -S -L --fail -o "$tmp/node.zip" "https://nodejs.org/dist/{version}/node-{version}-win-x64.zip"
if ($LASTEXITCODE -ne 0) { throw "node download failed" }
Write-Output "Extracting Node.js..."
Expand-Archive -Path "$tmp/node.zip" -DestinationPath $tmp -Force
$dir = Get-ChildItem $tmp -Directory | Select-Object -First 1
if (-not $dir) { throw "node directory not found in archive" }
New-Item -ItemType Directory -Path $dst -Force
Move-Item "$($dir.FullName)/*" $dst -Force -ErrorAction SilentlyContinue
Remove-Item $tmp -Recurse -Force
Write-Output "node installed to $dst"
"#;

/// What can be installed.
#[derive(Clone, Copy, PartialEq, Eq, Structural, Debug)]
pub enum InstallTarget {
    Python,
    Jdk,
    Mago,
    Py3dtiles,
    Pg2b3dm,
    Gocesiumtiler,
    Ifcopenshell,
    Cjio,
    Node,
}

/// The install target a name in the route denotes.
pub open spec fn install_target_spec(name: Seq<char>) -> Option<InstallTarget> {
    if name == "python"@ { Some(InstallTarget::Python) }
    else if name == "jdk"@ { Some(InstallTarget::Jdk) }
    else if name == "mago"@ { Some(InstallTarget::Mago) }
    else if name == "py3dtiles"@ { Some(InstallTarget::Py3dtiles) }
    else if name == "pg2b3dm"@ { Some(InstallTarget::Pg2b3dm) }
    else if name == "gocesiumtiler"@ { Some(InstallTarget::Gocesiumtiler) }
    else if name == "ifcopenshell"@ { Some(InstallTarget::Ifcopenshell) }
    else if name == "cjio"@ { Some(InstallTarget::Cjio) }
    else if name == "node"@ { Some(InstallTarget::Node) }
    else { None }
}

/// The install target named `name`, if any.
pub fn install_target(name: &str) -> (r: Option<InstallTarget>)
    ensures
        r == install_target_spec(name@),
{
    if same_text(name, "python") { Some(InstallTarget::Python) }
    else if same_text(name, "jdk") { Some(InstallTarget::Jdk) }
    else if same_text(name, "mago") { Some(InstallTarget::Mago) }
    else if same_text(name, "py3dtiles") { Some(InstallTarget::Py3dtiles) }
    else if same_text(name, "pg2b3dm") { Some(InstallTarget::Pg2b3dm) }
    else if same_text(name, "gocesiumtiler") { Some(InstallTarget::Gocesiumtiler) }
    else if same_text(name, "ifcopenshell") { Some(InstallTarget::Ifcopenshell) }
    else if same_text(name, "cjio") { Some(InstallTarget::Cjio) }
    else if same_text(name, "node") { Some(InstallTarget::Node) }
    else { None }
}

/// The Node.js release to install: the `NODE_VERSION` environment value, else `v24.18.0`.
pub open spec fn node_version_spec(env: Option<Seq<char>>) -> Seq<char> {
    match env { Some(v) => v, None => "v24.18.0"@ }
}

/// The script that installs a target; the Node.js script names the release `version`.
pub open spec fn install_script_spec(t: InstallTarget, version: Seq<char>) -> Seq<char> {
    match t {
        InstallTarget::Python => PYTHON_INSTALL_SCRIPT@,
        InstallTarget::Jdk => JDK_INSTALL_SCRIPT@,
        InstallTarget::Mago => MAGO_INSTALL_SCRIPT@,
        InstallTarget::Py3dtiles => PY3DTILES_INSTALL_SCRIPT@,
        InstallTarget::Pg2b3dm => PG2B3DM_INSTALL_SCRIPT@,
        InstallTarget::Gocesiumtiler => GOCESIUMTILER_INSTALL_SCRIPT@,
        InstallTarget::Ifcopenshell => IFCOPENSHELL_INSTALL_SCRIPT@,
        InstallTarget::Cjio => CJIO_INSTALL_SCRIPT@,
        InstallTarget::Node => replace_seq(NODE_INSTALL_SCRIPT@, "{version}"@, version),
    }
}

/// What an install request becomes: 404 for an unknown name, else PowerShell running the
/// target's script.
pub fn plan_install(name: &str, node_version_env: Option<&str>) -> (r: Result<CommandPlan, Rejection>)
    ensures
        match install_target_spec(name@) {
            None => r matches Err(e) && e.status == 404 && e.message@ == "install target not found"@,
            Some(t) => r matches Ok(p) && p.program@ == "powershell"@
                && p.args.deep_view() == seq!["-Command"@, install_script_spec(t,
                    node_version_spec(match node_version_env { Some(v) => Some(v@), None => None }))],
        },
{
    let script: String = match install_target(name) {
        None => return Err(Rejection { status: 404, message: "install target not found".to_owned() }),
        Some(InstallTarget::Python) => PYTHON_INSTALL_SCRIPT.to_owned(),
        Some(InstallTarget::Jdk) => JDK_INSTALL_SCRIPT.to_owned(),
        Some(InstallTarget::Mago) => MAGO_INSTALL_SCRIPT.to_owned(),
        Some(InstallTarget::Py3dtiles) => PY3DTILES_INSTALL_SCRIPT.to_owned(),
        Some(InstallTarget::Pg2b3dm) => PG2B3DM_INSTALL_SCRIPT.to_owned(),
        Some(InstallTarget::Gocesiumtiler) => GOCESIUMTILER_INSTALL_SCRIPT.to_owned(),
        Some(InstallTarget::Ifcopenshell) => IFCOPENSHELL_INSTALL_SCRIPT.to_owned(),
        Some(InstallTarget::Cjio) => CJIO_INSTALL_SCRIPT.to_owned(),
        Some(InstallTarget::Node) => {
            let version = match node_version_env { Some(v) => v.to_owned(), None => "v24.18.0".to_owned() };
            proof { reveal_strlit("{version}"); }
            replace(NODE_INSTALL_SCRIPT, "{version}", version.as_str())
        },
    };
    let mut args: Vec<String> = Vec::new();
    args.push("-Command".to_owned());
    args.push(script);
    Ok(CommandPlan { program: "powershell".to_owned(), args })
}

} // verus!
