//! Boot persistence: the unit files, task arguments and launcher scripts that
//! make the OS start the bridge at login and restart it on crash. Writing
//! them and calling the OS tools stays with the caller.

use vstd::prelude::*;

use crate::services::ServiceKind;
use crate::text::push_str;

verus! {

/// Whether a boot unit is installed for an instance.
#[derive(Debug, Clone, Copy, PartialEq, Eq)]
pub struct AutostartStatus {
    pub installed: bool,
}

/// Human label for `status` (`on` / `-`).
pub fn status_label(status: &AutostartStatus) -> (r: &'static str)
    ensures
        r@ == if status.installed {
            "on"@
        } else {
            "-"@
        },
{
    if status.installed {
        "on"
    } else {
        "-"
    }
}

/// Everything needed to render and install one boot unit (paths as text).
#[derive(Debug, Clone)]
pub struct UnitCtx {
    pub name: String,
    pub kind: ServiceKind,
    pub exe: String,
    pub config: String,
    pub log: String,
}

/// The systemd user unit for an instance.
pub open spec fn systemd_text(name: Seq<char>, exe: Seq<char>, config: Seq<char>, log: Seq<char>) -> Seq<char> {
    "[Unit]\nDescription=fbsy "@ + name + " (fingerbridge attendance service)\nAfter=network-online.target\n\n[Service]\nType=simple\nExecStart="@
        + exe + " __service-supervised "@ + name + " --config "@ + config + " --log-path "@ + log
        + "\nRestart=always\nRestartSec=3\nStandardOutput=append:"@ + log + "\nStandardError=append:"@
        + log + "\n\n[Install]\nWantedBy=default.target\n"@
}

/// systemd **user** unit contents.
pub fn systemd_unit(ctx: &UnitCtx) -> (r: String)
    ensures
        r@ == systemd_text(ctx.name@, ctx.exe@, ctx.config@, ctx.log@),
{
    let mut s = String::from_str("[Unit]\nDescription=fbsy ");
    push_str(&mut s, ctx.name.as_str());
    push_str(
        &mut s,
        " (fingerbridge attendance service)\nAfter=network-online.target\n\n[Service]\nType=simple\nExecStart=",
    );
    push_str(&mut s, ctx.exe.as_str());
    push_str(&mut s, " __service-supervised ");
    push_str(&mut s, ctx.name.as_str());
    push_str(&mut s, " --config ");
    push_str(&mut s, ctx.config.as_str());
    push_str(&mut s, " --log-path ");
    push_str(&mut s, ctx.log.as_str());
    push_str(&mut s, "\nRestart=always\nRestartSec=3\nStandardOutput=append:");
    push_str(&mut s, ctx.log.as_str());
    push_str(&mut s, "\nStandardError=append:");
    push_str(&mut s, ctx.log.as_str());
    push_str(&mut s, "\n\n[Install]\nWantedBy=default.target\n");
    s
}

/// The launchd LaunchAgent plist for an instance.
pub open spec fn plist_text(name: Seq<char>, exe: Seq<char>, config: Seq<char>, log: Seq<char>) -> Seq<char> {
    "<?xml version=\"1.0\" encoding=\"UTF-8\"?>\n<!DOCTYPE plist PUBLIC \"-//Apple//DTD PLIST 1.0//EN\" \"http://www.apple.com/DTDs/PropertyList-1.0.dtd\">\n<plist version=\"1.0\">\n<dict>\n  <key>Label</key>\n  <string>com.fbsy."@
        + name + "</string>\n  <key>ProgramArguments</key>\n  <array>\n    <string>"@ + exe
        + "</string>\n    <string>__service-supervised</string>\n    <string>"@ + name
        + "</string>\n    <string>--config</string>\n    <string>"@ + config
        + "</string>\n    <string>--log-path</string>\n    <string>"@ + log
        + "</string>\n  </array>\n  <key>RunAtLoad</key>\n  <true/>\n  <key>KeepAlive</key>\n  <true/>\n  <key>StandardOutPath</key>\n  <string>"@
        + log + "</string>\n  <key>StandardErrorPath</key>\n  <string>"@ + log
        + "</string>\n</dict>\n</plist>\n"@
}

/// launchd user LaunchAgent plist contents.
pub fn launchd_plist(ctx: &UnitCtx) -> (r: String)
    ensures
        r@ == plist_text(ctx.name@, ctx.exe@, ctx.config@, ctx.log@),
{
    let mut s = String::from_str(
        "<?xml version=\"1.0\" encoding=\"UTF-8\"?>\n<!DOCTYPE plist PUBLIC \"-//Apple//DTD PLIST 1.0//EN\" \"http://www.apple.com/DTDs/PropertyList-1.0.dtd\">\n<plist version=\"1.0\">\n<dict>\n  <key>Label</key>\n  <string>com.fbsy.",
    );
    push_str(&mut s, ctx.name.as_str());
    push_str(&mut s, "</string>\n  <key>ProgramArguments</key>\n  <array>\n    <string>");
    push_str(&mut s, ctx.exe.as_str());
    push_str(&mut s, "</string>\n    <string>__service-supervised</string>\n    <string>");
    push_str(&mut s, ctx.name.as_str());
    push_str(&mut s, "</string>\n    <string>--config</string>\n    <string>");
    push_str(&mut s, ctx.config.as_str());
    push_str(&mut s, "</string>\n    <string>--log-path</string>\n    <string>");
    push_str(&mut s, ctx.log.as_str());
    push_str(
        &mut s,
        "</string>\n  </array>\n  <key>RunAtLoad</key>\n  <true/>\n  <key>KeepAlive</key>\n  <true/>\n  <key>StandardOutPath</key>\n  <string>",
    );
    push_str(&mut s, ctx.log.as_str());
    push_str(&mut s, "</string>\n  <key>StandardErrorPath</key>\n  <string>");
    push_str(&mut s, ctx.log.as_str());
    push_str(&mut s, "</string>\n</dict>\n</plist>\n");
    s
}

/// The parent `std::path::Path::parent` gives for a path text.
pub uninterp spec fn path_parent(path: Seq<char>) -> Option<Seq<char>>;

/// The path `std::path::Path::join` gives.
pub uninterp spec fn path_join(base: Seq<char>, part: Seq<char>) -> Seq<char>;

/// `Path::parent`, displayed. The contract names the result only.
#[verifier::external_body]
fn parent_of(path: &str) -> (r: Option<String>)
    ensures
        match r {
            Some(p) => path_parent(path@) == Some(p@),
            None => path_parent(path@) is None,
        },
{
    std::path::Path::new(path).parent().map(|p| p.display().to_string())
}

/// `Path::join`, displayed. The contract names the result only.
#[verifier::external_body]
fn join_path(base: &str, part: &str) -> (r: String)
    ensures
        r@ == path_join(base@, part@),
{
    std::path::Path::new(base).join(part).display().to_string()
}

/// `fbsy-<name>`: the scheduled task of an instance.
pub open spec fn task_name_of(name: Seq<char>) -> Seq<char> {
    "fbsy-"@ + name
}

pub fn task_name(name: &str) -> (r: String)
    ensures
        r@ == task_name_of(name@),
{
    let mut s = String::from_str("fbsy-");
    push_str(&mut s, name);
    s
}

/// `<name>-launcher.<ext>` under `<base>/run`, where base is the config's
/// grandparent directory; just the file name when there is none.
pub open spec fn launcher_file(config: Seq<char>, name: Seq<char>, ext: Seq<char>) -> Seq<char> {
    let file = name + "-launcher."@ + ext;
    match path_parent(config) {
        Some(p) => match path_parent(p) {
            Some(base) => path_join(path_join(base, "run"@), file),
            None => file,
        },
        None => file,
    }
}

fn launcher_path(ctx: &UnitCtx, ext: &str) -> (r: String)
    ensures
        r@ == launcher_file(ctx.config@, ctx.name@, ext@),
{
    let mut file = ctx.name.clone();
    push_str(&mut file, "-launcher.");
    push_str(&mut file, ext);
    match parent_of(ctx.config.as_str()) {
        Some(p) => match parent_of(p.as_str()) {
            Some(base) => {
                let run = join_path(base.as_str(), "run");
                join_path(run.as_str(), file.as_str())
            },
            None => file,
        },
        None => file,
    }
}

/// The hidden-window VBS launcher's path.
pub fn launcher_vbs_path(ctx: &UnitCtx) -> (r: String)
    ensures
        r@ == launcher_file(ctx.config@, ctx.name@, "vbs"@),
{
    launcher_path(ctx, "vbs")
}

/// The command launcher's path.
pub fn windows_launcher_cmd_path(ctx: &UnitCtx) -> (r: String)
    ensures
        r@ == launcher_file(ctx.config@, ctx.name@, "cmd"@),
{
    launcher_path(ctx, "cmd")
}

/// `schtasks /create` arguments for an ONLOGON task that runs the VBS
/// launcher through `wscript` (no visible console window).
pub fn schtasks_create_args(ctx: &UnitCtx) -> (r: Vec<String>)
    ensures
        r@.map_values(|a: String| a@) == seq![
            "/create"@,
            "/tn"@,
            task_name_of(ctx.name@),
            "/tr"@,
            "wscript.exe \""@ + launcher_file(ctx.config@, ctx.name@, "vbs"@) + "\""@,
            "/sc"@,
            "onlogon"@,
            "/f"@,
        ],
{
    let mut run = String::from_str("wscript.exe \"");
    let vbs = launcher_vbs_path(ctx);
    push_str(&mut run, vbs.as_str());
    push_str(&mut run, "\"");
    let mut r: Vec<String> = Vec::new();
    r.push(String::from_str("/create"));
    r.push(String::from_str("/tn"));
    r.push(task_name(ctx.name.as_str()));
    r.push(String::from_str("/tr"));
    r.push(run);
    r.push(String::from_str("/sc"));
    r.push(String::from_str("onlogon"));
    r.push(String::from_str("/f"));
    assert(r@.map_values(|a: String| a@) =~= seq![
        "/create"@,
        "/tn"@,
        task_name_of(ctx.name@),
        "/tr"@,
        "wscript.exe \""@ + launcher_file(ctx.config@, ctx.name@, "vbs"@) + "\""@,
        "/sc"@,
        "onlogon"@,
        "/f"@,
    ]);
    r
}

/// The VBS launcher: runs the command launcher with window style 0.
pub open spec fn vbs_text(cmd_path: Seq<char>) -> Seq<char> {
    "Set shell = CreateObject(\"WScript.Shell\")\r\nshell.Run \"cmd.exe /C call \" & Chr(34) & \""@ + cmd_path
        + "\" & Chr(34), 0, False\r\n"@
}

pub fn windows_launcher_vbs(ctx: &UnitCtx) -> (r: String)
    ensures
        r@ == vbs_text(launcher_file(ctx.config@, ctx.name@, "cmd"@)),
{
    let mut s = String::from_str(
        "Set shell = CreateObject(\"WScript.Shell\")\r\nshell.Run \"cmd.exe /C call \" & Chr(34) & \"",
    );
    let cmd = windows_launcher_cmd_path(ctx);
    push_str(&mut s, cmd.as_str());
    push_str(&mut s, "\" & Chr(34), 0, False\r\n");
    s
}

/// The command launcher: make the log directory, run the supervised bridge
/// with its output appended to the log.
pub open spec fn cmd_text(log_dir: Seq<char>, exe: Seq<char>, name: Seq<char>, config: Seq<char>, log: Seq<char>) -> Seq<char> {
    "@echo off\r\nif not exist \""@ + log_dir + "\" mkdir \""@ + log_dir + "\"\r\n\""@ + exe
        + "\" __service-supervised "@ + name + " --config \""@ + config + "\" --log-path \""@ + log
        + "\" >> \""@ + log + "\" 2>&1\r\n"@
}

pub fn windows_launcher_cmd(ctx: &UnitCtx) -> (r: String)
    ensures
        r@ == cmd_text(
            match path_parent(ctx.log@) {
                Some(d) => d,
                None => "."@,
            },
            ctx.exe@,
            ctx.name@,
            ctx.config@,
            ctx.log@,
        ),
{
    let log_dir = match parent_of(ctx.log.as_str()) {
        Some(d) => d,
        None => String::from_str("."),
    };
    let mut s = String::from_str("@echo off\r\nif not exist \"");
    push_str(&mut s, log_dir.as_str());
    push_str(&mut s, "\" mkdir \"");
    push_str(&mut s, log_dir.as_str());
    push_str(&mut s, "\"\r\n\"");
    push_str(&mut s, ctx.exe.as_str());
    push_str(&mut s, "\" __service-supervised ");
    push_str(&mut s, ctx.name.as_str());
    push_str(&mut s, " --config \"");
    push_str(&mut s, ctx.config.as_str());
    push_str(&mut s, "\" --log-path \"");
    push_str(&mut s, ctx.log.as_str());
    push_str(&mut s, "\" >> \"");
    push_str(&mut s, ctx.log.as_str());
    push_str(&mut s, "\" 2>&1\r\n");
    s
}

} // verus!
