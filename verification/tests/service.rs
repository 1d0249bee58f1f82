use powerext::platform::Platform;
use powerext::service::{failure, install, status, uninstall, Step, Use, Word};

/// A step, on one line.
fn show(s: &Step) -> String {
    match s {
        Step::CreateDir { dir } => format!("mkdir ~/{dir}"),
        Step::Write { file, .. } => format!("write ~/{file}"),
        Step::Run { program, args, result } => {
            let mut line = program.to_string();
            for a in args {
                match a {
                    Word::Text(t) => line = format!("{line} {t}"),
                    Word::InHome(f) => line = format!("{line} ~/{f}"),
                }
            }
            match result {
                Use::Ignore => line,
                Use::Require(m) => format!("{line} || {m}"),
                Use::Show => format!("{line} | show"),
            }
        }
        Step::Remove { file, must } => format!("rm{} ~/{file}", if *must { "" } else { " -f" }),
        Step::CreateService { name, display_name, argument } => {
            format!("create {name} ({display_name}) {argument}")
        }
        Step::DeleteService { name } => format!("delete {name}"),
        Step::Print { line } => format!("print {line}"),
    }
}

fn lines(steps: &[Step]) -> Vec<String> {
    steps.iter().map(show).collect()
}

fn text(steps: &[Step]) -> String {
    steps.iter().find_map(|s| match s {
        Step::Write { text, .. } => Some(text.clone()),
        _ => None,
    }).unwrap()
}

#[test]
fn the_service_is_installed_with_systemd() {
    let steps = install(Platform::Linux, "/opt/powerext");
    assert_eq!(lines(&steps), vec![
        "mkdir ~/.config/systemd/user",
        "write ~/.config/systemd/user/PowerEXT.service",
        "systemctl --user daemon-reload",
        "systemctl --user enable --now PowerEXT || systemctl enable failed",
        "print Installed and started via systemd user service.",
    ]);
    assert_eq!(
        text(&steps),
        "[Unit]\nDescription=PowerEXT filesystem monitor\n\n[Service]\nExecStart=/opt/powerext start\nRestart=always\n\n[Install]\nWantedBy=default.target\n",
    );
}

#[test]
fn the_service_is_installed_with_launchd() {
    let steps = install(Platform::MacOs, "/opt/powerext");
    assert_eq!(lines(&steps), vec![
        "mkdir ~/Library/LaunchAgents",
        "write ~/Library/LaunchAgents/com.PowerEXT.plist",
        "launchctl load ~/Library/LaunchAgents/com.PowerEXT.plist || launchctl load failed",
        "print Installed and started via launchd.",
    ]);
    assert_eq!(text(&steps), r#"<?xml version="1.0" encoding="UTF-8"?>
<!DOCTYPE plist PUBLIC "-//Apple//DTD PLIST 1.0//EN" "http://www.apple.com/DTDs/PropertyList-1.0.dtd">
<plist version="1.0"><dict>
  <key>Label</key><string>com.PowerEXT</string>
  <key>ProgramArguments</key>
  <array><string>/opt/powerext</string><string>start</string></array>
  <key>RunAtLoad</key><true/>
  <key>KeepAlive</key><true/>
  <key>StandardOutPath</key><string>/tmp/PowerEXT.log</string>
  <key>StandardErrorPath</key><string>/tmp/PowerEXT.err</string>
</dict></plist>"#);
}

#[test]
fn the_service_is_installed_on_windows() {
    assert_eq!(lines(&install(Platform::Windows, "x.exe")), vec![
        "create PowerEXT (PowerEXT filesystem monitor) start",
        "sc start PowerEXT || sc start failed",
        "print Installed and started as Windows service.",
    ]);
}

#[test]
fn the_service_is_removed() {
    assert_eq!(lines(&uninstall(Platform::Linux)), vec![
        "systemctl --user disable --now PowerEXT",
        "rm -f ~/.config/systemd/user/PowerEXT.service",
        "systemctl --user daemon-reload",
        "print Uninstalled systemd user service.",
    ]);
    assert_eq!(lines(&uninstall(Platform::MacOs)), vec![
        "launchctl unload ~/Library/LaunchAgents/com.PowerEXT.plist",
        "rm ~/Library/LaunchAgents/com.PowerEXT.plist",
        "print Uninstalled launchd agent.",
    ]);
    assert_eq!(lines(&uninstall(Platform::Windows)), vec![
        "delete PowerEXT",
        "print Uninstalled Windows service.",
    ]);
}

#[test]
fn the_state_of_the_service_is_shown() {
    assert_eq!(lines(&status(Platform::Linux)), vec!["systemctl --user status PowerEXT"]);
    assert_eq!(lines(&status(Platform::MacOs)), vec!["launchctl list com.PowerEXT | show"]);
    assert_eq!(lines(&status(Platform::Windows)), vec!["sc query PowerEXT"]);
}

#[test]
fn nothing_is_done_on_other_systems() {
    assert!(install(Platform::Other, "x").is_empty());
    assert!(uninstall(Platform::Other).is_empty());
    assert!(status(Platform::Other).is_empty());
}

#[test]
fn what_is_written_is_removed() {
    for p in [Platform::Linux, Platform::MacOs] {
        let removed: Vec<&str> = uninstall(p).iter().filter_map(|s| match s {
            Step::Remove { file, .. } => Some(*file),
            _ => None,
        }).collect();
        for s in install(p, "x") {
            if let Step::Write { file, .. } = s {
                assert!(removed.contains(&file));
            }
        }
    }
}

#[test]
fn only_a_required_program_makes_all_fail() {
    assert_eq!(failure(Use::Require("m"), false), Some("m"));
    assert_eq!(failure(Use::Require("m"), true), None);
    assert_eq!(failure(Use::Ignore, false), None);
    assert_eq!(failure(Use::Show, false), None);
}
