//! The files by which an operating system runs the runner as a service.
use vstd::prelude::*;
use vstd::string::*;

use crate::constants::OsPlatform;
use crate::text;

verus! {

/// The systemd unit, up to the first place that is filled in.
pub const SYSTEMD_UNIT_1: &'static str = "[Unit]\nDescription=GitHub Actions Runner (";

/// The systemd unit, between the places 1 and 2 that are filled in.
pub const SYSTEMD_UNIT_2: &'static str = ")\nAfter=network.target\n\n[Service]\nExecStart=";

/// The systemd unit, between the places 2 and 3 that are filled in.
pub const SYSTEMD_UNIT_3: &'static str = "/Runner.Listener run --startuptype service\nWorkingDirectory=";

/// The systemd unit, from the last place that is filled in.
pub const SYSTEMD_UNIT_4: &'static str = "\nKillMode=process\nKillSignal=SIGTERM\nTimeoutStopSec=5min\nRestart=always\nRestartSec=5\n\n[Install]\nWantedBy=multi-user.target\n";

/// The script that installs the systemd unit, up to the first place that is filled in.
pub const SYSTEMD_INSTALL_1: &'static str = "#!/bin/bash\n# Install the runner as a systemd service\n\nSVC_NAME=\"";

/// The script that installs the systemd unit, from the last place that is filled in.
pub const SYSTEMD_INSTALL_2: &'static str = "\"\n\nif [ \"$(id -u)\" -ne 0 ]; then\n    echo \"Must run as root to install service\"\n    exit 1\nfi\n\necho \"Installing service $SVC_NAME...\"\nsystemctl daemon-reload\nsystemctl enable \"$SVC_NAME\"\nsystemctl start \"$SVC_NAME\"\necho \"Service installed and started.\"\n";

/// The script that removes the systemd unit, up to the first place that is filled in.
pub const SYSTEMD_UNINSTALL_1: &'static str = "#!/bin/bash\n# Uninstall the runner service\n\nSVC_NAME=\"";

/// The script that removes the systemd unit, from the last place that is filled in.
pub const SYSTEMD_UNINSTALL_2: &'static str = "\"\n\nif [ \"$(id -u)\" -ne 0 ]; then\n    echo \"Must run as root to uninstall service\"\n    exit 1\nfi\n\necho \"Uninstalling service $SVC_NAME...\"\nsystemctl stop \"$SVC_NAME\" 2>/dev/null\nsystemctl disable \"$SVC_NAME\" 2>/dev/null\nrm -f \"/etc/systemd/system/$SVC_NAME.service\"\nsystemctl daemon-reload\necho \"Service uninstalled.\"\n";

/// The launchd job, up to the first place that is filled in.
pub const LAUNCHD_PLIST_1: &'static str = "<?xml version=\"1.0\" encoding=\"UTF-8\"?>\n<!DOCTYPE plist PUBLIC \"-//Apple//DTD PLIST 1.0//EN\" \"http://www.apple.com/DTDs/PropertyList-1.0.dtd\">\n<plist version=\"1.0\">\n<dict>\n    <key>Label</key>\n    <string>";

/// The launchd job, between the places 1 and 2 that are filled in.
pub const LAUNCHD_PLIST_2: &'static str = "</string>\n    <key>ProgramArguments</key>\n    <array>\n        <string>";

/// The launchd job, between the places 2 and 3 that are filled in.
pub const LAUNCHD_PLIST_3: &'static str = "/Runner.Listener</string>\n        <string>run</string>\n        <string>--startuptype</string>\n        <string>service</string>\n    </array>\n    <key>WorkingDirectory</key>\n    <string>";

/// The launchd job, between the places 3 and 4 that are filled in.
pub const LAUNCHD_PLIST_4: &'static str = "</string>\n    <key>RunAtLoad</key>\n    <true/>\n    <key>KeepAlive</key>\n    <true/>\n    <key>StandardOutPath</key>\n    <string>";

/// The launchd job, between the places 4 and 5 that are filled in.
pub const LAUNCHD_PLIST_5: &'static str = "/_diag/runner.stdout.log</string>\n    <key>StandardErrorPath</key>\n    <string>";

/// The launchd job, from the last place that is filled in.
pub const LAUNCHD_PLIST_6: &'static str = "/_diag/runner.stderr.log</string>\n    <key>EnvironmentVariables</key>\n    <dict>\n        <key>PATH</key>\n        <string>/usr/local/bin:/usr/bin:/bin:/usr/sbin:/sbin</string>\n    </dict>\n    <key>ProcessType</key>\n    <string>Interactive</string>\n    <key>SessionCreate</key>\n    <true/>\n</dict>\n</plist>\n";

/// The script that manages the launchd job, up to the first place that is filled in.
pub const LAUNCHD_SCRIPT_1: &'static str = "#!/bin/bash\n# Service management script for macOS\n\nLABEL=\"";

/// The script that manages the launchd job, between the places 1 and 2 that are filled in.
pub const LAUNCHD_SCRIPT_2: &'static str = "\"\nPLIST=\"";

/// The script that manages the launchd job, between the places 2 and 3 that are filled in.
pub const LAUNCHD_SCRIPT_3: &'static str = "/";

/// The script that manages the launchd job, from the last place that is filled in.
pub const LAUNCHD_SCRIPT_4: &'static str = ".plist\"\nACTION=\"${1:-status}\"\n\ncase \"$ACTION\" in\n    install)\n        cp \"$PLIST\" ~/Library/LaunchAgents/\n        launchctl load ~/Library/LaunchAgents/\"$LABEL\".plist\n        echo \"Service installed and loaded.\"\n        ;;\n    uninstall)\n        launchctl unload ~/Library/LaunchAgents/\"$LABEL\".plist 2>/dev/null\n        rm -f ~/Library/LaunchAgents/\"$LABEL\".plist\n        echo \"Service uninstalled.\"\n        ;;\n    start)\n        launchctl start \"$LABEL\"\n        echo \"Service started.\"\n        ;;\n    stop)\n        launchctl stop \"$LABEL\"\n        echo \"Service stopped.\"\n        ;;\n    status)\n        launchctl list | grep \"$LABEL\" && echo \"Running\" || echo \"Not running\"\n        ;;\n    *)\n        echo \"Usage: $0 {install|uninstall|start|stop|status}\"\n        ;;\nesac\n";

/// The script that installs the Windows service, up to the first place that is filled in.
pub const WINDOWS_INSTALL_1: &'static str = "@echo off\nREM Install the runner as a Windows service\nsc.exe create \"";

/// The script that installs the Windows service, between the places 1 and 2 that are filled in.
pub const WINDOWS_INSTALL_2: &'static str = "\" binPath= \"";

/// The script that installs the Windows service, between the places 2 and 3 that are filled in.
pub const WINDOWS_INSTALL_3: &'static str = "\\Runner.Listener.exe run --startuptype service\" start= auto\nsc.exe description \"";

/// The script that installs the Windows service, between the places 3 and 4 that are filled in.
pub const WINDOWS_INSTALL_4: &'static str = "\" \"GitHub Actions Runner (";

/// The script that installs the Windows service, between the places 4 and 5 that are filled in.
pub const WINDOWS_INSTALL_5: &'static str = ")\"\nsc.exe start \"";

/// The script that installs the Windows service, from the last place that is filled in.
pub const WINDOWS_INSTALL_6: &'static str = "\"\necho Service installed and started.\n";

/// The script that removes the Windows service, up to the first place that is filled in.
pub const WINDOWS_UNINSTALL_1: &'static str = "@echo off\nREM Uninstall the runner service\nsc.exe stop \"";

/// The script that removes the Windows service, between the places 1 and 2 that are filled in.
pub const WINDOWS_UNINSTALL_2: &'static str = "\" 2>nul\nsc.exe delete \"";

/// The script that removes the Windows service, from the last place that is filled in.
pub const WINDOWS_UNINSTALL_3: &'static str = "\"\necho Service uninstalled.\n";

/// The systemd unit.
pub open spec fn systemd_unit_text(agent: Seq<char>, bin: Seq<char>, root: Seq<char>) -> Seq<char> {
    SYSTEMD_UNIT_1@ + agent + SYSTEMD_UNIT_2@ + bin + SYSTEMD_UNIT_3@ + root + SYSTEMD_UNIT_4@
}

fn systemd_unit(agent_name: &str, bin_dir: &str, root_dir: &str) -> (r: String)
    ensures
        r@ == systemd_unit_text(agent_name@, bin_dir@, root_dir@),
{
    let mut s = SYSTEMD_UNIT_1.to_owned();
    s.append(agent_name);
    s.append(SYSTEMD_UNIT_2);
    s.append(bin_dir);
    s.append(SYSTEMD_UNIT_3);
    s.append(root_dir);
    s.append(SYSTEMD_UNIT_4);
    s
}

/// The script that installs the systemd unit.
pub open spec fn systemd_install_script_text(service: Seq<char>) -> Seq<char> {
    SYSTEMD_INSTALL_1@ + service + SYSTEMD_INSTALL_2@
}

fn systemd_install_script(service_name: &str) -> (r: String)
    ensures
        r@ == systemd_install_script_text(service_name@),
{
    let mut s = SYSTEMD_INSTALL_1.to_owned();
    s.append(service_name);
    s.append(SYSTEMD_INSTALL_2);
    s
}

/// The script that removes the systemd unit.
pub open spec fn systemd_uninstall_script_text(service: Seq<char>) -> Seq<char> {
    SYSTEMD_UNINSTALL_1@ + service + SYSTEMD_UNINSTALL_2@
}

fn systemd_uninstall_script(service_name: &str) -> (r: String)
    ensures
        r@ == systemd_uninstall_script_text(service_name@),
{
    let mut s = SYSTEMD_UNINSTALL_1.to_owned();
    s.append(service_name);
    s.append(SYSTEMD_UNINSTALL_2);
    s
}

/// The launchd job.
pub open spec fn launchd_plist_text(service: Seq<char>, bin: Seq<char>, root: Seq<char>) -> Seq<char> {
    LAUNCHD_PLIST_1@ + service + LAUNCHD_PLIST_2@ + bin + LAUNCHD_PLIST_3@ + root + LAUNCHD_PLIST_4@ + root + LAUNCHD_PLIST_5@ + root + LAUNCHD_PLIST_6@
}

fn launchd_plist(service_name: &str, bin_dir: &str, root_dir: &str) -> (r: String)
    ensures
        r@ == launchd_plist_text(service_name@, bin_dir@, root_dir@),
{
    let mut s = LAUNCHD_PLIST_1.to_owned();
    s.append(service_name);
    s.append(LAUNCHD_PLIST_2);
    s.append(bin_dir);
    s.append(LAUNCHD_PLIST_3);
    s.append(root_dir);
    s.append(LAUNCHD_PLIST_4);
    s.append(root_dir);
    s.append(LAUNCHD_PLIST_5);
    s.append(root_dir);
    s.append(LAUNCHD_PLIST_6);
    s
}

/// The script that manages the launchd job.
pub open spec fn launchd_script_text(service: Seq<char>, root: Seq<char>) -> Seq<char> {
    LAUNCHD_SCRIPT_1@ + service + LAUNCHD_SCRIPT_2@ + root + LAUNCHD_SCRIPT_3@ + service + LAUNCHD_SCRIPT_4@
}

fn launchd_script(service_name: &str, root_dir: &str) -> (r: String)
    ensures
        r@ == launchd_script_text(service_name@, root_dir@),
{
    let mut s = LAUNCHD_SCRIPT_1.to_owned();
    s.append(service_name);
    s.append(LAUNCHD_SCRIPT_2);
    s.append(root_dir);
    s.append(LAUNCHD_SCRIPT_3);
    s.append(service_name);
    s.append(LAUNCHD_SCRIPT_4);
    s
}

/// The script that installs the Windows service.
pub open spec fn windows_install_script_text(service: Seq<char>, bin: Seq<char>, agent: Seq<char>) -> Seq<char> {
    WINDOWS_INSTALL_1@ + service + WINDOWS_INSTALL_2@ + bin + WINDOWS_INSTALL_3@ + service + WINDOWS_INSTALL_4@ + agent + WINDOWS_INSTALL_5@ + service + WINDOWS_INSTALL_6@
}

fn windows_install_script(service_name: &str, bin_dir: &str, agent_name: &str) -> (r: String)
    ensures
        r@ == windows_install_script_text(service_name@, bin_dir@, agent_name@),
{
    let mut s = WINDOWS_INSTALL_1.to_owned();
    s.append(service_name);
    s.append(WINDOWS_INSTALL_2);
    s.append(bin_dir);
    s.append(WINDOWS_INSTALL_3);
    s.append(service_name);
    s.append(WINDOWS_INSTALL_4);
    s.append(agent_name);
    s.append(WINDOWS_INSTALL_5);
    s.append(service_name);
    s.append(WINDOWS_INSTALL_6);
    s
}

/// The script that removes the Windows service.
pub open spec fn windows_uninstall_script_text(service: Seq<char>) -> Seq<char> {
    WINDOWS_UNINSTALL_1@ + service + WINDOWS_UNINSTALL_2@ + service + WINDOWS_UNINSTALL_3@
}

fn windows_uninstall_script(service_name: &str) -> (r: String)
    ensures
        r@ == windows_uninstall_script_text(service_name@),
{
    let mut s = WINDOWS_UNINSTALL_1.to_owned();
    s.append(service_name);
    s.append(WINDOWS_UNINSTALL_2);
    s.append(service_name);
    s.append(WINDOWS_UNINSTALL_3);
    s
}

/// Where a file goes.
#[derive(Debug, Clone, Copy, PartialEq, Eq, Structural)]
pub enum ServiceFolder {
    /// The directory of the system's systemd units.
    SystemdUnits,
    /// The root of the installation.
    Root,
}

/// A file that is written.
#[derive(Debug)]
pub struct ServiceFile {
    pub folder: ServiceFolder,
    pub name: String,
    pub content: String,
    /// Whether the file can be executed.
    pub executable: bool,
}

/// A file that is written.
pub struct ServiceFileView {
    pub folder: ServiceFolder,
    pub name: Seq<char>,
    pub content: Seq<char>,
    pub executable: bool,
}

impl ServiceFile {
    pub open spec fn view(&self) -> ServiceFileView {
        ServiceFileView {
            folder: self.folder,
            name: self.name@,
            content: self.content@,
            executable: self.executable,
        }
    }
}

/// What the service's marker file says.
#[derive(Debug)]
pub struct ServiceMarker {
    pub service_name: String,
    pub service_display_name: String,
}

/// What is written for the service.
#[derive(Debug)]
pub struct ServiceConfig {
    pub files: Vec<ServiceFile>,
    pub marker: ServiceMarker,
}

/// The files, by what they hold.
pub open spec fn file_views(files: Seq<ServiceFile>) -> Seq<ServiceFileView> {
    files.map_values(|f: ServiceFile| f@)
}

/// The name of the service.
pub open spec fn service_name(agent: Seq<char>) -> Seq<char> {
    "actions.runner."@ + agent
}

/// The files of the service, in the order in which they are written. The systemd unit goes to
/// the system's units if the system has any, else to the root of the installation.
pub open spec fn service_files(
    platform: OsPlatform,
    agent: Seq<char>,
    bin: Seq<char>,
    root: Seq<char>,
    has_systemd_units: bool,
) -> Seq<ServiceFileView> {
    let service = service_name(agent);
    match platform {
        OsPlatform::Linux => seq![
            ServiceFileView {
                folder: if has_systemd_units {
                    ServiceFolder::SystemdUnits
                } else {
                    ServiceFolder::Root
                },
                name: service + ".service"@,
                content: systemd_unit_text(agent, bin, root),
                executable: false,
            },
            ServiceFileView {
                folder: ServiceFolder::Root,
                name: "svc.sh"@,
                content: systemd_install_script_text(service),
                executable: true,
            },
            ServiceFileView {
                folder: ServiceFolder::Root,
                name: "svc-uninstall.sh"@,
                content: systemd_uninstall_script_text(service),
                executable: true,
            },
        ],
        OsPlatform::MacOS => seq![
            ServiceFileView {
                folder: ServiceFolder::Root,
                name: service + ".plist"@,
                content: launchd_plist_text(service, bin, root),
                executable: false,
            },
            ServiceFileView {
                folder: ServiceFolder::Root,
                name: "svc.sh"@,
                content: launchd_script_text(service, root),
                executable: true,
            },
        ],
        OsPlatform::Windows => seq![
            ServiceFileView {
                folder: ServiceFolder::Root,
                name: "install-svc.cmd"@,
                content: windows_install_script_text(service, bin, agent),
                executable: false,
            },
            ServiceFileView {
                folder: ServiceFolder::Root,
                name: "uninstall-svc.cmd"@,
                content: windows_uninstall_script_text(service),
                executable: false,
            },
        ],
    }
}

fn root_file(name: String, content: String, executable: bool) -> (r: ServiceFile)
    ensures
        r@ == (ServiceFileView {
            folder: ServiceFolder::Root,
            name: name@,
            content: content@,
            executable,
        }),
{
    ServiceFile { folder: ServiceFolder::Root, name, content, executable }
}

/// Runs the runner as a service.
pub struct ServiceControlManager;

impl ServiceControlManager {
    /// What is written for the service.
    pub fn generate_service_config(
        platform: OsPlatform,
        agent_name: &str,
        bin_dir: &str,
        root_dir: &str,
        has_systemd_units: bool,
    ) -> (r: ServiceConfig)
        ensures
            file_views(r.files@) == service_files(
                platform,
                agent_name@,
                bin_dir@,
                root_dir@,
                has_systemd_units,
            ),
            r.marker.service_name@ == service_name(agent_name@),
            r.marker.service_display_name@ == "GitHub Actions Runner ("@ + agent_name@ + ")"@,
    {
        let mut service = "actions.runner.".to_owned();
        service.append(agent_name);
        let mut display = "GitHub Actions Runner (".to_owned();
        display.append(agent_name);
        display.append(")");
        let mut files: Vec<ServiceFile> = Vec::new();
        match platform {
            OsPlatform::Linux => {
                let mut unit = service.clone();
                unit.append(".service");
                let folder = if has_systemd_units {
                    ServiceFolder::SystemdUnits
                } else {
                    ServiceFolder::Root
                };
                let content = systemd_unit(agent_name, bin_dir, root_dir);
                files.push(ServiceFile { folder, name: unit, content, executable: false });
                files.push(
                    root_file("svc.sh".to_owned(), systemd_install_script(service.as_str()), true),
                );
                files.push(
                    root_file(
                        "svc-uninstall.sh".to_owned(),
                        systemd_uninstall_script(service.as_str()),
                        true,
                    ),
                );
            },
            OsPlatform::MacOS => {
                let mut plist = service.clone();
                plist.append(".plist");
                files.push(
                    root_file(plist, launchd_plist(service.as_str(), bin_dir, root_dir), false),
                );
                files.push(
                    root_file(
                        "svc.sh".to_owned(),
                        launchd_script(service.as_str(), root_dir),
                        true,
                    ),
                );
            },
            OsPlatform::Windows => {
                files.push(
                    root_file(
                        "install-svc.cmd".to_owned(),
                        windows_install_script(service.as_str(), bin_dir, agent_name),
                        false,
                    ),
                );
                files.push(
                    root_file(
                        "uninstall-svc.cmd".to_owned(),
                        windows_uninstall_script(service.as_str()),
                        false,
                    ),
                );
            },
        }
        assert(file_views(files@) =~= service_files(
            platform,
            agent_name@,
            bin_dir@,
            root_dir@,
            has_systemd_units,
        ));
        ServiceConfig {
            files,
            marker: ServiceMarker { service_name: service, service_display_name: display },
        }
    }
}

// ---------------------------------------------------------------------------
// Laws
// ---------------------------------------------------------------------------

/// The service of an agent bears the agent's whole name, so that no two agents share one.
pub proof fn law_service_names_differ(a: Seq<char>, b: Seq<char>)
    ensures
        service_name(a) == service_name(b) ==> a == b,
        text::has_suffix(service_name(a), a),
{
    let front = "actions.runner."@;
    let x = service_name(a);
    let y = service_name(b);
    assert(x.skip(front.len() as int) == a);
    assert(y.skip(front.len() as int) == b);
    assert(x.subrange(x.len() - a.len(), x.len() as int) == a);
}

/// On Linux there are a unit and scripts that install and remove it; on macOS a job and a
/// script that manages it; on Windows scripts that install and remove the service. Just the
/// shell scripts can be executed, and only the unit may go elsewhere than to the root.
pub proof fn law_service_files(
    platform: OsPlatform,
    agent: Seq<char>,
    bin: Seq<char>,
    root: Seq<char>,
    has_systemd_units: bool,
)
    ensures
        ({
            let files = service_files(platform, agent, bin, root, has_systemd_units);
            let service = "actions.runner."@ + agent;
            &&& platform == OsPlatform::Linux ==> {
                &&& files.len() == 3
                &&& files[0].name == service + ".service"@
                &&& files[0].content == systemd_unit_text(agent, bin, root)
                &&& files[0].folder == ServiceFolder::SystemdUnits <==> has_systemd_units
                &&& !files[0].executable
                &&& files[1].name == "svc.sh"@
                &&& files[1].content == systemd_install_script_text(service)
                &&& files[1].folder == ServiceFolder::Root
                &&& files[1].executable
                &&& files[2].name == "svc-uninstall.sh"@
                &&& files[2].content == systemd_uninstall_script_text(service)
                &&& files[2].folder == ServiceFolder::Root
                &&& files[2].executable
            }
            &&& platform == OsPlatform::MacOS ==> {
                &&& files.len() == 2
                &&& files[0].name == service + ".plist"@
                &&& files[0].content == launchd_plist_text(service, bin, root)
                &&& files[0].folder == ServiceFolder::Root
                &&& !files[0].executable
                &&& files[1].name == "svc.sh"@
                &&& files[1].content == launchd_script_text(service, root)
                &&& files[1].folder == ServiceFolder::Root
                &&& files[1].executable
            }
            &&& platform == OsPlatform::Windows ==> {
                &&& files.len() == 2
                &&& files[0].name == "install-svc.cmd"@
                &&& files[0].content == windows_install_script_text(service, bin, agent)
                &&& files[0].folder == ServiceFolder::Root
                &&& !files[0].executable
                &&& files[1].name == "uninstall-svc.cmd"@
                &&& files[1].content == windows_uninstall_script_text(service)
                &&& files[1].folder == ServiceFolder::Root
                &&& !files[1].executable
            }
        }),
{
}

proof fn lemma_holds_middle(front: Seq<char>, middle: Seq<char>, back: Seq<char>)
    ensures
        text::occurs(front + middle + back, middle),
{
    let all = front + middle + back;
    let n = front.len() as int;
    assert(all.subrange(n, n + middle.len()) == middle);
    assert(text::occurs_at(all, middle, n));
}

/// Every way of running the service starts the listener from the program's directory, as a
/// service.
pub proof fn law_service_starts_listener(
    service: Seq<char>,
    agent: Seq<char>,
    bin: Seq<char>,
    root: Seq<char>,
)
    ensures
        text::occurs(
            systemd_unit_text(agent, bin, root),
            bin + "/Runner.Listener run --startuptype service\nWorkingDirectory="@ + root,
        ),
        text::occurs(
            launchd_plist_text(service, bin, root),
            bin
                + "/Runner.Listener</string>\n        <string>run</string>\n        <string>--startuptype</string>\n        <string>service</string>\n    </array>\n    <key>WorkingDirectory</key>\n    <string>"@
                + root,
        ),
        text::occurs(
            windows_install_script_text(service, bin, agent),
            service + "\" binPath= \""@ + bin
                + "\\Runner.Listener.exe run --startuptype service\" start= auto\nsc.exe description \""@
                + service,
        ),
{
    let a = systemd_unit_text(agent, bin, root);
    let m = bin + SYSTEMD_UNIT_3@ + root;
    lemma_holds_middle(SYSTEMD_UNIT_1@ + agent + SYSTEMD_UNIT_2@, m, SYSTEMD_UNIT_4@);
    assert(a == (SYSTEMD_UNIT_1@ + agent + SYSTEMD_UNIT_2@) + m + SYSTEMD_UNIT_4@);
    let b = launchd_plist_text(service, bin, root);
    let m = bin + LAUNCHD_PLIST_3@ + root;
    let back = LAUNCHD_PLIST_4@ + root + LAUNCHD_PLIST_5@ + root + LAUNCHD_PLIST_6@;
    lemma_holds_middle(LAUNCHD_PLIST_1@ + service + LAUNCHD_PLIST_2@, m, back);
    assert(b == (LAUNCHD_PLIST_1@ + service + LAUNCHD_PLIST_2@) + m + back);
    let c = windows_install_script_text(service, bin, agent);
    let m = service + WINDOWS_INSTALL_2@ + bin + WINDOWS_INSTALL_3@ + service;
    let back = WINDOWS_INSTALL_4@ + agent + WINDOWS_INSTALL_5@ + service + WINDOWS_INSTALL_6@;
    lemma_holds_middle(WINDOWS_INSTALL_1@, m, back);
    assert(c == WINDOWS_INSTALL_1@ + m + back);
}

/// What installs a service and what removes it speak of the same service.
pub proof fn law_scripts_name_service(service: Seq<char>, root: Seq<char>)
    ensures
        text::has_prefix(
            systemd_install_script_text(service),
            SYSTEMD_INSTALL_1@ + service + "\""@,
        ),
        text::has_prefix(
            systemd_uninstall_script_text(service),
            SYSTEMD_UNINSTALL_1@ + service + "\""@,
        ),
        text::has_prefix(
            launchd_script_text(service, root),
            LAUNCHD_SCRIPT_1@ + service + "\"\nPLIST=\""@ + root + "/"@ + service,
        ),
        text::has_prefix(
            windows_uninstall_script_text(service),
            WINDOWS_UNINSTALL_1@ + service + "\" 2>nul\nsc.exe delete \""@ + service,
        ),
{
    reveal_strlit("\"");
    reveal_strlit("\"\n\nif [ \"$(id -u)\" -ne 0 ]; then\n    echo \"Must run as root to install service\"\n    exit 1\nfi\n\necho \"Installing service $SVC_NAME...\"\nsystemctl daemon-reload\nsystemctl enable \"$SVC_NAME\"\nsystemctl start \"$SVC_NAME\"\necho \"Service installed and started.\"\n");
    reveal_strlit("\"\n\nif [ \"$(id -u)\" -ne 0 ]; then\n    echo \"Must run as root to uninstall service\"\n    exit 1\nfi\n\necho \"Uninstalling service $SVC_NAME...\"\nsystemctl stop \"$SVC_NAME\" 2>/dev/null\nsystemctl disable \"$SVC_NAME\" 2>/dev/null\nrm -f \"/etc/systemd/system/$SVC_NAME.service\"\nsystemctl daemon-reload\necho \"Service uninstalled.\"\n");
    let a = systemd_install_script_text(service);
    let x = SYSTEMD_INSTALL_1@ + service + "\""@;
    assert(SYSTEMD_INSTALL_2@[0] == '"');
    assert(a.subrange(0, x.len() as int) =~= x);
    let b = systemd_uninstall_script_text(service);
    let y = SYSTEMD_UNINSTALL_1@ + service + "\""@;
    assert(SYSTEMD_UNINSTALL_2@[0] == '"');
    assert(b.subrange(0, y.len() as int) =~= y);
    let c = launchd_script_text(service, root);
    let z = LAUNCHD_SCRIPT_1@ + service + LAUNCHD_SCRIPT_2@ + root + LAUNCHD_SCRIPT_3@ + service;
    assert(c.subrange(0, z.len() as int) =~= z);
    let d = windows_uninstall_script_text(service);
    let w = WINDOWS_UNINSTALL_1@ + service + WINDOWS_UNINSTALL_2@ + service;
    assert(d.subrange(0, w.len() as int) =~= w);
}

} // verus!
