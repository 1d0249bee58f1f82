//! The system service: what is done to install, remove and show it.
//!
//! Each function gives the steps in order. A step that fails ends the whole, unless it says
//! otherwise.

use crate::platform::Platform;
use crate::text::cat3;
use vstd::prelude::*;
use vstd::string::*;

verus! {

/// An argument of a program.
#[derive(Clone, Copy, Debug)]
pub enum Word {
    /// The argument itself.
    Text(&'static str),
    /// The path of a file below the home directory.
    InHome(&'static str),
}

/// The contents of a [`Word`].
pub enum WordView {
    Text(Seq<char>),
    InHome(Seq<char>),
}

impl View for Word {
    type V = WordView;

    open spec fn view(&self) -> WordView {
        match *self {
            Word::Text(s) => WordView::Text(s@),
            Word::InHome(s) => WordView::InHome(s@),
        }
    }
}

/// What becomes of the result of a program.
#[derive(Clone, Copy, Debug)]
pub enum Use {
    /// It does not matter whether it succeeds.
    Ignore,
    /// Where it does not succeed, all fails with this message.
    Require(&'static str),
    /// What it puts out is shown.
    Show,
}

/// The contents of a [`Use`].
pub enum UseView {
    Ignore,
    Require(Seq<char>),
    Show,
}

impl View for Use {
    type V = UseView;

    open spec fn view(&self) -> UseView {
        match *self {
            Use::Ignore => UseView::Ignore,
            Use::Require(m) => UseView::Require(m@),
            Use::Show => UseView::Show,
        }
    }
}

/// A step. Files and directories are given by their paths below the home directory.
#[derive(Debug)]
pub enum Step {
    /// Create a directory, with those above it.
    CreateDir { dir: &'static str },
    /// Write a text to a file.
    Write { file: &'static str, text: String },
    /// Run a program.
    Run { program: &'static str, args: Vec<Word>, result: Use },
    /// Remove a file; `must` says whether that has to succeed.
    Remove { file: &'static str, must: bool },
    /// Create a service of its own process, which is started with the system and runs this
    /// program with one argument.
    CreateService { name: &'static str, display_name: &'static str, argument: &'static str },
    /// Delete a service.
    DeleteService { name: &'static str },
    /// Print a line.
    Print { line: &'static str },
}

/// The contents of a [`Step`].
pub enum StepView {
    CreateDir { dir: Seq<char> },
    Write { file: Seq<char>, text: Seq<char> },
    Run { program: Seq<char>, args: Seq<WordView>, result: UseView },
    Remove { file: Seq<char>, must: bool },
    CreateService { name: Seq<char>, display_name: Seq<char>, argument: Seq<char> },
    DeleteService { name: Seq<char> },
    Print { line: Seq<char> },
}

/// The contents of a list of arguments.
pub open spec fn word_views(args: Seq<Word>) -> Seq<WordView> {
    args.map_values(|a: Word| a@)
}

impl View for Step {
    type V = StepView;

    open spec fn view(&self) -> StepView {
        match *self {
            Step::CreateDir { dir } => StepView::CreateDir { dir: dir@ },
            Step::Write { file, text } => StepView::Write { file: file@, text: text@ },
            Step::Run { program, args, result } => StepView::Run {
                program: program@,
                args: word_views(args@),
                result: result@,
            },
            Step::Remove { file, must } => StepView::Remove { file: file@, must },
            Step::CreateService { name, display_name, argument } => StepView::CreateService {
                name: name@,
                display_name: display_name@,
                argument: argument@,
            },
            Step::DeleteService { name } => StepView::DeleteService { name: name@ },
            Step::Print { line } => StepView::Print { line: line@ },
        }
    }
}

/// The contents of a list of steps.
pub open spec fn step_views(steps: Seq<Step>) -> Seq<StepView> {
    steps.map_values(|s: Step| s@)
}

/// The description of the agent for launchd, which runs the program at `exe`.
pub open spec fn plist_text(exe: Seq<char>) -> Seq<char> {
    "<?xml version=\"1.0\" encoding=\"UTF-8\"?>
<!DOCTYPE plist PUBLIC \"-//Apple//DTD PLIST 1.0//EN\" \"http://www.apple.com/DTDs/PropertyList-1.0.dtd\">
<plist version=\"1.0\"><dict>
  <key>Label</key><string>com.PowerEXT</string>
  <key>ProgramArguments</key>
  <array><string>"@ + exe + "</string><string>start</string></array>
  <key>RunAtLoad</key><true/>
  <key>KeepAlive</key><true/>
  <key>StandardOutPath</key><string>/tmp/PowerEXT.log</string>
  <key>StandardErrorPath</key><string>/tmp/PowerEXT.err</string>
</dict></plist>"@
}

/// The description of the service for systemd, which runs the program at `exe`.
pub open spec fn unit_text(exe: Seq<char>) -> Seq<char> {
    "[Unit]\nDescription=PowerEXT filesystem monitor\n\n[Service]\nExecStart="@ + exe
        + " start\nRestart=always\n\n[Install]\nWantedBy=default.target\n"@
}

/// The steps that install the service.
pub open spec fn install_steps(platform: Platform, exe: Seq<char>) -> Seq<StepView> {
    match platform {
        Platform::MacOs => seq![
            StepView::CreateDir { dir: "Library/LaunchAgents"@ },
            StepView::Write {
                file: "Library/LaunchAgents/com.PowerEXT.plist"@,
                text: plist_text(exe),
            },
            StepView::Run {
                program: "launchctl"@,
                args: seq![
                    WordView::Text("load"@),
                    WordView::InHome("Library/LaunchAgents/com.PowerEXT.plist"@),
                ],
                result: UseView::Require("launchctl load failed"@),
            },
            StepView::Print { line: "Installed and started via launchd."@ },
        ],
        Platform::Linux => seq![
            StepView::CreateDir { dir: ".config/systemd/user"@ },
            StepView::Write {
                file: ".config/systemd/user/PowerEXT.service"@,
                text: unit_text(exe),
            },
            StepView::Run {
                program: "systemctl"@,
                args: seq![WordView::Text("--user"@), WordView::Text("daemon-reload"@)],
                result: UseView::Ignore,
            },
            StepView::Run {
                program: "systemctl"@,
                args: seq![
                    WordView::Text("--user"@),
                    WordView::Text("enable"@),
                    WordView::Text("--now"@),
                    WordView::Text("PowerEXT"@),
                ],
                result: UseView::Require("systemctl enable failed"@),
            },
            StepView::Print { line: "Installed and started via systemd user service."@ },
        ],
        Platform::Windows => seq![
            StepView::CreateService {
                name: "PowerEXT"@,
                display_name: "PowerEXT filesystem monitor"@,
                argument: "start"@,
            },
            StepView::Run {
                program: "sc"@,
                args: seq![WordView::Text("start"@), WordView::Text("PowerEXT"@)],
                result: UseView::Require("sc start failed"@),
            },
            StepView::Print { line: "Installed and started as Windows service."@ },
        ],
        Platform::Other => Seq::empty(),
    }
}

/// The steps that remove the service.
pub open spec fn uninstall_steps(platform: Platform) -> Seq<StepView> {
    match platform {
        Platform::MacOs => seq![
            StepView::Run {
                program: "launchctl"@,
                args: seq![
                    WordView::Text("unload"@),
                    WordView::InHome("Library/LaunchAgents/com.PowerEXT.plist"@),
                ],
                result: UseView::Ignore,
            },
            StepView::Remove { file: "Library/LaunchAgents/com.PowerEXT.plist"@, must: true },
            StepView::Print { line: "Uninstalled launchd agent."@ },
        ],
        Platform::Linux => seq![
            StepView::Run {
                program: "systemctl"@,
                args: seq![
                    WordView::Text("--user"@),
                    WordView::Text("disable"@),
                    WordView::Text("--now"@),
                    WordView::Text("PowerEXT"@),
                ],
                result: UseView::Ignore,
            },
            StepView::Remove { file: ".config/systemd/user/PowerEXT.service"@, must: false },
            StepView::Run {
                program: "systemctl"@,
                args: seq![WordView::Text("--user"@), WordView::Text("daemon-reload"@)],
                result: UseView::Ignore,
            },
            StepView::Print { line: "Uninstalled systemd user service."@ },
        ],
        Platform::Windows => seq![
            StepView::DeleteService { name: "PowerEXT"@ },
            StepView::Print { line: "Uninstalled Windows service."@ },
        ],
        Platform::Other => Seq::empty(),
    }
}

/// The steps that show the state of the service.
pub open spec fn status_steps(platform: Platform) -> Seq<StepView> {
    match platform {
        Platform::MacOs => seq![
            StepView::Run {
                program: "launchctl"@,
                args: seq![WordView::Text("list"@), WordView::Text("com.PowerEXT"@)],
                result: UseView::Show,
            },
        ],
        Platform::Linux => seq![
            StepView::Run {
                program: "systemctl"@,
                args: seq![
                    WordView::Text("--user"@),
                    WordView::Text("status"@),
                    WordView::Text("PowerEXT"@),
                ],
                result: UseView::Ignore,
            },
        ],
        Platform::Windows => seq![
            StepView::Run {
                program: "sc"@,
                args: seq![WordView::Text("query"@), WordView::Text("PowerEXT"@)],
                result: UseView::Ignore,
            },
        ],
        Platform::Other => Seq::empty(),
    }
}

fn command(program: &'static str, args: Vec<Word>, result: Use) -> (res: Step)
    ensures
        res@ == (StepView::Run { program: program@, args: word_views(args@), result: result@ }),
{
    Step::Run { program, args, result }
}

fn reload() -> (res: Step)
    ensures
        res@ == (StepView::Run {
            program: "systemctl"@,
            args: seq![WordView::Text("--user"@), WordView::Text("daemon-reload"@)],
            result: UseView::Ignore,
        }),
{
    let args = vec![Word::Text("--user"), Word::Text("daemon-reload")];
    assert(word_views(args@) =~= seq![WordView::Text("--user"@), WordView::Text("daemon-reload"@)]);
    command("systemctl", args, Use::Ignore)
}

/// The steps that install the program at `exe` as a service and start it.
pub fn install(platform: Platform, exe: &str) -> (res: Vec<Step>)
    ensures
        step_views(res@) == install_steps(platform, exe@),
{
    let steps = match platform {
        Platform::MacOs => {
            let text = cat3(
                "<?xml version=\"1.0\" encoding=\"UTF-8\"?>
<!DOCTYPE plist PUBLIC \"-//Apple//DTD PLIST 1.0//EN\" \"http://www.apple.com/DTDs/PropertyList-1.0.dtd\">
<plist version=\"1.0\"><dict>
  <key>Label</key><string>com.PowerEXT</string>
  <key>ProgramArguments</key>
  <array><string>",
                exe,
                "</string><string>start</string></array>
  <key>RunAtLoad</key><true/>
  <key>KeepAlive</key><true/>
  <key>StandardOutPath</key><string>/tmp/PowerEXT.log</string>
  <key>StandardErrorPath</key><string>/tmp/PowerEXT.err</string>
</dict></plist>",
            );
            let args = vec![
                Word::Text("load"),
                Word::InHome("Library/LaunchAgents/com.PowerEXT.plist"),
            ];
            assert(word_views(args@) =~= seq![
                WordView::Text("load"@),
                WordView::InHome("Library/LaunchAgents/com.PowerEXT.plist"@),
            ]);
            vec![
                Step::CreateDir { dir: "Library/LaunchAgents" },
                Step::Write { file: "Library/LaunchAgents/com.PowerEXT.plist", text },
                command("launchctl", args, Use::Require("launchctl load failed")),
                Step::Print { line: "Installed and started via launchd." },
            ]
        },
        Platform::Linux => {
            let text = cat3(
                "[Unit]\nDescription=PowerEXT filesystem monitor\n\n[Service]\nExecStart=",
                exe,
                " start\nRestart=always\n\n[Install]\nWantedBy=default.target\n",
            );
            let args = vec![
                Word::Text("--user"),
                Word::Text("enable"),
                Word::Text("--now"),
                Word::Text("PowerEXT"),
            ];
            assert(word_views(args@) =~= seq![
                WordView::Text("--user"@),
                WordView::Text("enable"@),
                WordView::Text("--now"@),
                WordView::Text("PowerEXT"@),
            ]);
            vec![
                Step::CreateDir { dir: ".config/systemd/user" },
                Step::Write { file: ".config/systemd/user/PowerEXT.service", text },
                reload(),
                command("systemctl", args, Use::Require("systemctl enable failed")),
                Step::Print { line: "Installed and started via systemd user service." },
            ]
        },
        Platform::Windows => {
            let args = vec![Word::Text("start"), Word::Text("PowerEXT")];
            assert(word_views(args@) =~= seq![
                WordView::Text("start"@),
                WordView::Text("PowerEXT"@),
            ]);
            vec![
                Step::CreateService {
                    name: "PowerEXT",
                    display_name: "PowerEXT filesystem monitor",
                    argument: "start",
                },
                command("sc", args, Use::Require("sc start failed")),
                Step::Print { line: "Installed and started as Windows service." },
            ]
        },
        Platform::Other => Vec::new(),
    };
    assert(step_views(steps@) =~= install_steps(platform, exe@));
    steps
}

/// The steps that remove the service.
pub fn uninstall(platform: Platform) -> (res: Vec<Step>)
    ensures
        step_views(res@) == uninstall_steps(platform),
{
    let steps = match platform {
        Platform::MacOs => {
            let args = vec![
                Word::Text("unload"),
                Word::InHome("Library/LaunchAgents/com.PowerEXT.plist"),
            ];
            assert(word_views(args@) =~= seq![
                WordView::Text("unload"@),
                WordView::InHome("Library/LaunchAgents/com.PowerEXT.plist"@),
            ]);
            vec![
                command("launchctl", args, Use::Ignore),
                Step::Remove { file: "Library/LaunchAgents/com.PowerEXT.plist", must: true },
                Step::Print { line: "Uninstalled launchd agent." },
            ]
        },
        Platform::Linux => {
            let args = vec![
                Word::Text("--user"),
                Word::Text("disable"),
                Word::Text("--now"),
                Word::Text("PowerEXT"),
            ];
            assert(word_views(args@) =~= seq![
                WordView::Text("--user"@),
                WordView::Text("disable"@),
                WordView::Text("--now"@),
                WordView::Text("PowerEXT"@),
            ]);
            vec![
                command("systemctl", args, Use::Ignore),
                Step::Remove { file: ".config/systemd/user/PowerEXT.service", must: false },
                reload(),
                Step::Print { line: "Uninstalled systemd user service." },
            ]
        },
        Platform::Windows => vec![
            Step::DeleteService { name: "PowerEXT" },
            Step::Print { line: "Uninstalled Windows service." },
        ],
        Platform::Other => Vec::new(),
    };
    assert(step_views(steps@) =~= uninstall_steps(platform));
    steps
}

/// The steps that show the state of the service.
pub fn status(platform: Platform) -> (res: Vec<Step>)
    ensures
        step_views(res@) == status_steps(platform),
{
    let steps = match platform {
        Platform::MacOs => {
            let args = vec![Word::Text("list"), Word::Text("com.PowerEXT")];
            assert(word_views(args@) =~= seq![
                WordView::Text("list"@),
                WordView::Text("com.PowerEXT"@),
            ]);
            vec![command("launchctl", args, Use::Show)]
        },
        Platform::Linux => {
            let args = vec![Word::Text("--user"), Word::Text("status"), Word::Text("PowerEXT")];
            assert(word_views(args@) =~= seq![
                WordView::Text("--user"@),
                WordView::Text("status"@),
                WordView::Text("PowerEXT"@),
            ]);
            vec![command("systemctl", args, Use::Ignore)]
        },
        Platform::Windows => {
            let args = vec![Word::Text("query"), Word::Text("PowerEXT")];
            assert(word_views(args@) =~= seq![
                WordView::Text("query"@),
                WordView::Text("PowerEXT"@),
            ]);
            vec![command("sc", args, Use::Ignore)]
        },
        Platform::Other => Vec::new(),
    };
    assert(step_views(steps@) =~= status_steps(platform));
    steps
}

/// Whether a program that was run makes all fail, and with what message.
pub fn failure(result: Use, success: bool) -> (res: Option<&'static str>)
    ensures
        res == match result {
            Use::Require(m) if !success => Some(m),
            _ => None,
        },
{
    match result {
        Use::Require(m) => if success {
            None
        } else {
            Some(m)
        },
        _ => None,
    }
}

/// Whether a step removes the file at a path.
pub open spec fn removes(step: StepView, path: Seq<char>) -> bool {
    step matches StepView::Remove { file, .. } && file == path
}

/// Every file and every service that the installation makes, the removal takes away again.
pub proof fn law_uninstall_undoes_install(platform: Platform, exe: Seq<char>, i: int)
    requires
        0 <= i < install_steps(platform, exe).len(),
    ensures
        install_steps(platform, exe)[i] matches StepView::Write { file, .. } ==> exists|j: int|
            0 <= j < uninstall_steps(platform).len() && removes(
                #[trigger] uninstall_steps(platform)[j],
                file,
            ),
        install_steps(platform, exe)[i] matches StepView::CreateService { name, .. } ==> exists|
            j: int,
        |
            0 <= j < uninstall_steps(platform).len() && (
            #[trigger] uninstall_steps(platform)[j]) == (StepView::DeleteService { name }),
{
    let steps = uninstall_steps(platform);
    match platform {
        Platform::MacOs => {
            assert(steps[1] is Remove);
            assert(i == 0 || i == 1 || i == 2 || i == 3);
        },
        Platform::Linux => {
            assert(steps[1] is Remove);
            assert(i == 0 || i == 1 || i == 2 || i == 3 || i == 4);
        },
        Platform::Windows => {
            assert(steps[0] is DeleteService);
            assert(i == 0 || i == 1 || i == 2);
        },
        Platform::Other => {},
    }
}

/// Whether a step starts the service, and makes all fail where that fails.
pub open spec fn starts(step: StepView) -> bool {
    step matches StepView::Run { args, result, .. } && result is Require && (args.contains(
        WordView::Text("--now"@),
    ) || args.contains(WordView::Text("load"@)) || args.contains(WordView::Text("start"@)))
}

/// The installation starts the service on every system that it is for.
pub proof fn law_install_starts_the_service(platform: Platform, exe: Seq<char>)
    requires
        platform != Platform::Other,
    ensures
        exists|i: int|
            0 <= i < install_steps(platform, exe).len() && starts(
                #[trigger] install_steps(platform, exe)[i],
            ),
{
    let steps = install_steps(platform, exe);
    match platform {
        Platform::MacOs => {
            assert(steps[2]->args[0] == WordView::Text("load"@));
            assert(starts(steps[2]));
        },
        Platform::Linux => {
            assert(steps[3]->args[2] == WordView::Text("--now"@));
            assert(starts(steps[3]));
        },
        Platform::Windows => {
            assert(steps[1]->args[0] == WordView::Text("start"@));
            assert(starts(steps[1]));
        },
        Platform::Other => {},
    }
}

/// The description for systemd runs this program with `start`, has it started again whenever it
/// ends, and has it started with the session of the user.
pub proof fn law_the_unit_runs_the_program(exe: Seq<char>) -> (r: Seq<char>)
    ensures
        unit_text(exe) == r + "\n[Service]\nExecStart="@ + exe
            + " start\nRestart=always\n\n[Install]\nWantedBy=default.target\n"@,
{
    let head = "[Unit]\nDescription=PowerEXT filesystem monitor\n\n[Service]\nExecStart="@;
    reveal_strlit("[Unit]\nDescription=PowerEXT filesystem monitor\n\n[Service]\nExecStart=");
    reveal_strlit("\n[Service]\nExecStart=");
    let a = head.take(head.len() - "\n[Service]\nExecStart="@.len());
    assert(head =~= a + "\n[Service]\nExecStart="@);
    assert(unit_text(exe) =~= a + "\n[Service]\nExecStart="@ + exe
        + " start\nRestart=always\n\n[Install]\nWantedBy=default.target\n"@);
    a
}

/// The description for launchd names the service, runs this program with `start`, and has it
/// started with the session of the user and again whenever it ends.
pub proof fn law_the_agent_runs_the_program(exe: Seq<char>) -> (r: (Seq<char>, Seq<char>))
    ensures
        plist_text(exe) == r.0
            + "<key>Label</key><string>com.PowerEXT</string>\n  <key>ProgramArguments</key>\n  <array><string>"@
            + exe
            + "</string><string>start</string></array>\n  <key>RunAtLoad</key><true/>\n  <key>KeepAlive</key><true/>\n"@
            + r.1,
{
    let head = "<?xml version=\"1.0\" encoding=\"UTF-8\"?>
<!DOCTYPE plist PUBLIC \"-//Apple//DTD PLIST 1.0//EN\" \"http://www.apple.com/DTDs/PropertyList-1.0.dtd\">
<plist version=\"1.0\"><dict>
  <key>Label</key><string>com.PowerEXT</string>
  <key>ProgramArguments</key>
  <array><string>"@;
    let tail = "</string><string>start</string></array>
  <key>RunAtLoad</key><true/>
  <key>KeepAlive</key><true/>
  <key>StandardOutPath</key><string>/tmp/PowerEXT.log</string>
  <key>StandardErrorPath</key><string>/tmp/PowerEXT.err</string>
</dict></plist>"@;
    reveal_strlit(
        "<?xml version=\"1.0\" encoding=\"UTF-8\"?>
<!DOCTYPE plist PUBLIC \"-//Apple//DTD PLIST 1.0//EN\" \"http://www.apple.com/DTDs/PropertyList-1.0.dtd\">
<plist version=\"1.0\"><dict>
  <key>Label</key><string>com.PowerEXT</string>
  <key>ProgramArguments</key>
  <array><string>",
    );
    reveal_strlit(
        "</string><string>start</string></array>
  <key>RunAtLoad</key><true/>
  <key>KeepAlive</key><true/>
  <key>StandardOutPath</key><string>/tmp/PowerEXT.log</string>
  <key>StandardErrorPath</key><string>/tmp/PowerEXT.err</string>
</dict></plist>",
    );
    reveal_strlit(
        "<key>Label</key><string>com.PowerEXT</string>\n  <key>ProgramArguments</key>\n  <array><string>",
    );
    reveal_strlit(
        "</string><string>start</string></array>\n  <key>RunAtLoad</key><true/>\n  <key>KeepAlive</key><true/>\n",
    );
    let before =
        "<key>Label</key><string>com.PowerEXT</string>\n  <key>ProgramArguments</key>\n  <array><string>"@;
    let after =
        "</string><string>start</string></array>\n  <key>RunAtLoad</key><true/>\n  <key>KeepAlive</key><true/>\n"@;
    let a = head.take(head.len() - before.len());
    let b = tail.skip(after.len() as int);
    assert(head =~= a + before);
    assert(tail =~= after + b);
    assert(plist_text(exe) =~= a + before + exe + after + b);
    (a, b)
}

/// What a step says of itself is what it holds: every path, every text, every argument, and what
/// becomes of the result of a program.
pub proof fn law_the_contents_of_a_step(s: Step)
    ensures
        match s {
            Step::CreateDir { dir } => s@ == (StepView::CreateDir { dir: dir@ }),
            Step::Write { file, text } => s@ == (StepView::Write { file: file@, text: text@ }),
            Step::Run { program, args, result } => {
                &&& s@ matches StepView::Run { program: p, args: said, result: u }
                &&& p == program@
                &&& said.len() == args@.len()
                &&& forall|i: int|
                    0 <= i < args@.len() ==> match #[trigger] args@[i] {
                        Word::Text(t) => said[i] == WordView::Text(t@),
                        Word::InHome(t) => said[i] == WordView::InHome(t@),
                    }
                &&& match result {
                    Use::Ignore => u == UseView::Ignore,
                    Use::Require(m) => u == UseView::Require(m@),
                    Use::Show => u == UseView::Show,
                }
            },
            Step::Remove { file, must } => s@ == (StepView::Remove { file: file@, must }),
            Step::CreateService { name, display_name, argument } => s@ == (
            StepView::CreateService {
                name: name@,
                display_name: display_name@,
                argument: argument@,
            }),
            Step::DeleteService { name } => s@ == (StepView::DeleteService { name: name@ }),
            Step::Print { line } => s@ == (StepView::Print { line: line@ }),
        },
{
}

/// The installation hands the description of this very program to the system: it is written, to a
/// file whose directory was created before, and the system is told of it afterwards. On Windows the
/// service itself is created, to run the program with `start`, and then started.
pub proof fn law_install_registers_the_program(exe: Seq<char>)
    ensures
        ({
            let steps = install_steps(Platform::Linux, exe);
            steps.len() == 5 && steps[2] == (StepView::Run {
                program: "systemctl"@,
                args: seq![WordView::Text("--user"@), WordView::Text("daemon-reload"@)],
                result: UseView::Ignore,
            }) && steps[4] == (StepView::Print {
                line: "Installed and started via systemd user service."@,
            }) && exists|i: int, j: int, k: int|
                #![trigger steps[i], steps[j], steps[k]]
                0 <= i < j < 2 < k < 4 && steps[i] == (StepView::CreateDir {
                    dir: ".config/systemd/user"@,
                }) && steps[j] == (StepView::Write {
                    file: ".config/systemd/user/PowerEXT.service"@,
                    text: unit_text(exe),
                }) && steps[k] == (StepView::Run {
                    program: "systemctl"@,
                    args: seq![
                        WordView::Text("--user"@),
                        WordView::Text("enable"@),
                        WordView::Text("--now"@),
                        WordView::Text("PowerEXT"@),
                    ],
                    result: UseView::Require("systemctl enable failed"@),
                })
        }),
        ({
            let steps = install_steps(Platform::MacOs, exe);
            steps.len() == 4 && steps[3] == (StepView::Print {
                line: "Installed and started via launchd."@,
            }) && exists|i: int, j: int, k: int|
                #![trigger steps[i], steps[j], steps[k]]
                0 <= i < j < k < 3 && steps[i] == (StepView::CreateDir {
                    dir: "Library/LaunchAgents"@,
                }) && steps[j] == (StepView::Write {
                    file: "Library/LaunchAgents/com.PowerEXT.plist"@,
                    text: plist_text(exe),
                }) && steps[k] == (StepView::Run {
                    program: "launchctl"@,
                    args: seq![
                        WordView::Text("load"@),
                        WordView::InHome("Library/LaunchAgents/com.PowerEXT.plist"@),
                    ],
                    result: UseView::Require("launchctl load failed"@),
                })
        }),
        ({
            let steps = install_steps(Platform::Windows, exe);
            steps.len() == 3 && steps[2] == (StepView::Print {
                line: "Installed and started as Windows service."@,
            }) && exists|i: int, j: int|
                #![trigger steps[i], steps[j]]
                0 <= i < j < 2 && steps[i] == (StepView::CreateService {
                    name: "PowerEXT"@,
                    display_name: "PowerEXT filesystem monitor"@,
                    argument: "start"@,
                }) && steps[j] == (StepView::Run {
                    program: "sc"@,
                    args: seq![WordView::Text("start"@), WordView::Text("PowerEXT"@)],
                    result: UseView::Require("sc start failed"@),
                })
        }),
{
    let linux = install_steps(Platform::Linux, exe);
    assert(linux[0] is CreateDir && linux[1] is Write && linux[3] is Run);
    let mac = install_steps(Platform::MacOs, exe);
    assert(mac[0] is CreateDir && mac[1] is Write && mac[2] is Run);
    let windows = install_steps(Platform::Windows, exe);
    assert(windows[0] is CreateService && windows[1] is Run);
}

/// The removal first has the system stop the service, and then takes its description away.
pub proof fn law_uninstall_stops_the_service_first()
    ensures
        ({
            let steps = uninstall_steps(Platform::Linux);
            steps.len() == 4 && steps[2] == (StepView::Run {
                program: "systemctl"@,
                args: seq![WordView::Text("--user"@), WordView::Text("daemon-reload"@)],
                result: UseView::Ignore,
            }) && steps[3] is Print && exists|i: int, j: int|
                #![trigger steps[i], steps[j]]
                0 <= i < j < 2 && steps[i] == (StepView::Run {
                    program: "systemctl"@,
                    args: seq![
                        WordView::Text("--user"@),
                        WordView::Text("disable"@),
                        WordView::Text("--now"@),
                        WordView::Text("PowerEXT"@),
                    ],
                    result: UseView::Ignore,
                }) && removes(steps[j], ".config/systemd/user/PowerEXT.service"@)
        }),
        ({
            let steps = uninstall_steps(Platform::MacOs);
            steps.len() == 3 && steps[2] is Print && exists|i: int, j: int|
                #![trigger steps[i], steps[j]]
                0 <= i < j < 2 && steps[i] == (StepView::Run {
                    program: "launchctl"@,
                    args: seq![
                        WordView::Text("unload"@),
                        WordView::InHome("Library/LaunchAgents/com.PowerEXT.plist"@),
                    ],
                    result: UseView::Ignore,
                }) && removes(steps[j], "Library/LaunchAgents/com.PowerEXT.plist"@)
        }),
{
    let linux = uninstall_steps(Platform::Linux);
    assert(linux[0] is Run && linux[1] is Remove);
    let mac = uninstall_steps(Platform::MacOs);
    assert(mac[0] is Run && mac[1] is Remove);
}

/// The state that is shown is that of the service under the name that it was installed by.
pub proof fn law_status_asks_for_the_service()
    ensures
        status_steps(Platform::Linux) == seq![
            StepView::Run {
                program: "systemctl"@,
                args: seq![
                    WordView::Text("--user"@),
                    WordView::Text("status"@),
                    WordView::Text("PowerEXT"@),
                ],
                result: UseView::Ignore,
            },
        ],
        status_steps(Platform::MacOs) == seq![
            StepView::Run {
                program: "launchctl"@,
                args: seq![WordView::Text("list"@), WordView::Text("com.PowerEXT"@)],
                result: UseView::Show,
            },
        ],
        status_steps(Platform::Windows) == seq![
            StepView::Run {
                program: "sc"@,
                args: seq![WordView::Text("query"@), WordView::Text("PowerEXT"@)],
                result: UseView::Ignore,
            },
        ],
{
}

} // verus!
