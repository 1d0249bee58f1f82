//! What the user is asked and told, and how an answer is read.

use crate::platform::Platform;
use crate::text::{cat3, contains_text, decimal, decimal_text, number, occurs, text_eq};
use crate::text_laws::{all_digits, law_a_written_number_reads_back, law_occurring};
use vstd::prelude::*;
use vstd::string::*;

verus! {

/// What the user decided.
#[derive(Clone, Copy, Debug, PartialEq, Eq, Structural)]
pub enum UserChoice {
    Accept,
    Reject,
}

/// A button: the name by which it is reported, and its label.
#[derive(Debug)]
pub struct Button {
    pub name: &'static str,
    pub label: &'static str,
}

/// A way to ask or tell the user something.
#[derive(Debug)]
pub enum Message {
    /// An AppleScript that shows it.
    Script(String),
    /// A notification, with buttons where an answer is wanted.
    Notification { summary: String, body: String, buttons: Vec<Button> },
    /// There is no way.
    Nothing,
}

/// The contents of a [`Message`].
pub enum MessageView {
    Script(Seq<char>),
    Notification { summary: Seq<char>, body: Seq<char>, buttons: Seq<(Seq<char>, Seq<char>)> },
    Nothing,
}

/// The names and labels of buttons.
pub open spec fn button_views(buttons: Seq<Button>) -> Seq<(Seq<char>, Seq<char>)> {
    buttons.map_values(|b: Button| (b.name@, b.label@))
}

impl View for Message {
    type V = MessageView;

    open spec fn view(&self) -> MessageView {
        match *self {
            Message::Script(s) => MessageView::Script(s@),
            Message::Notification { summary, body, buttons } => MessageView::Notification {
                summary: summary@,
                body: body@,
                buttons: button_views(buttons@),
            },
            Message::Nothing => MessageView::Nothing,
        }
    }
}

/// How the user answered.
#[derive(Debug)]
pub enum Reply {
    /// What the script put out.
    Output(String),
    /// The name of the button.
    Pressed(String),
    /// Not at all, or not in time.
    Nothing,
}

/// The script that asks whether a file is to be converted.
pub open spec fn dialog_script(from: Seq<char>, to: Seq<char>, secs: u64) -> Seq<char> {
    "display dialog \"Convert file?\\n"@ + from + " → "@ + to
        + "\" buttons {\"Skip\", \"Convert\"} default button \"Convert\" with title \"PowerEXT\" giving up after "@
        + decimal(secs as nat)
}

/// The question whether a file is to be converted.
pub open spec fn question(
    platform: Platform,
    from: Seq<char>,
    to: Seq<char>,
    secs: u64,
) -> MessageView {
    match platform {
        Platform::MacOs => MessageView::Script(dialog_script(from, to, secs)),
        Platform::Linux => MessageView::Notification {
            summary: "PowerEXT: convert file?"@,
            body: from + " → "@ + to,
            buttons: seq![("accept"@, "Convert"@), ("reject"@, "Skip"@)],
        },
        Platform::Windows => MessageView::Notification {
            summary: "PowerEXT: convert file?"@,
            body: from + " -> "@ + to,
            buttons: seq![("accept"@, "Convert"@), ("reject"@, "Skip"@)],
        },
        Platform::Other => MessageView::Nothing,
    }
}

fn ask(body: String) -> (res: Message)
    ensures
        res@ == (MessageView::Notification {
            summary: "PowerEXT: convert file?"@,
            body: body@,
            buttons: seq![("accept"@, "Convert"@), ("reject"@, "Skip"@)],
        }),
{
    let mut buttons: Vec<Button> = Vec::new();
    buttons.push(Button { name: "accept", label: "Convert" });
    buttons.push(Button { name: "reject", label: "Skip" });
    assert(button_views(buttons@) =~= seq![("accept"@, "Convert"@), ("reject"@, "Skip"@)]);
    Message::Notification { summary: "PowerEXT: convert file?".to_owned(), body, buttons }
}

/// Asks whether the file that was renamed from `from` to `to` is to be converted. An answer is
/// waited for that many seconds.
pub fn prompt_user(platform: Platform, from: &str, to: &str, secs: u64) -> (res: Message)
    ensures
        res@ == question(platform, from@, to@, secs),
{
    match platform {
        Platform::MacOs => {
            let mut script = cat3("display dialog \"Convert file?\\n", from, " → ");
            script.append(to);
            script.append(
                "\" buttons {\"Skip\", \"Convert\"} default button \"Convert\" with title \"PowerEXT\" giving up after ",
            );
            let digits = decimal_text(secs);
            script.append(digits.as_str());
            Message::Script(script)
        },
        Platform::Linux => ask(cat3(from, " → ", to)),
        Platform::Windows => ask(cat3(from, " -> ", to)),
        Platform::Other => Message::Nothing,
    }
}

/// Whether an answer means that the file is to be converted.
pub open spec fn accepts(platform: Platform, reply: Reply) -> bool {
    match platform {
        Platform::MacOs => reply matches Reply::Output(s) && occurs(s@, "Convert"@),
        Platform::Linux => reply matches Reply::Pressed(s) && s@ == "accept"@,
        Platform::Windows => reply matches Reply::Pressed(s) && s@ == "accept"@,
        Platform::Other => false,
    }
}

/// Reads the answer. Only a clear one means that the file is to be converted.
pub fn choice(platform: Platform, reply: &Reply) -> (res: UserChoice)
    ensures
        res == if accepts(platform, *reply) {
            UserChoice::Accept
        } else {
            UserChoice::Reject
        },
{
    let accepted = match (platform, reply) {
        (Platform::MacOs, Reply::Output(s)) => contains_text(s.as_str(), "Convert"),
        (Platform::Linux, Reply::Pressed(s)) => text_eq(s.as_str(), "accept"),
        (Platform::Windows, Reply::Pressed(s)) => text_eq(s.as_str(), "accept"),
        _ => false,
    };
    if accepted {
        UserChoice::Accept
    } else {
        UserChoice::Reject
    }
}

/// Tells the user something.
pub fn notify_info(platform: Platform, summary: &str, body: &str) -> (res: Message)
    ensures
        res@ == match platform {
            Platform::MacOs => MessageView::Script(
                "display notification \""@ + body@ + "\" with title \""@ + summary@ + "\""@,
            ),
            Platform::Linux | Platform::Windows => MessageView::Notification {
                summary: summary@,
                body: body@,
                buttons: Seq::empty(),
            },
            Platform::Other => MessageView::Nothing,
        },
{
    match platform {
        Platform::MacOs => {
            let mut script = cat3("display notification \"", body, "\" with title \"");
            script.append(summary);
            script.append("\"");
            Message::Script(script)
        },
        Platform::Linux | Platform::Windows => {
            let buttons: Vec<Button> = Vec::new();
            assert(button_views(buttons@) =~= Seq::<(Seq<char>, Seq<char>)>::empty());
            Message::Notification {
                summary: summary.to_owned(),
                body: body.to_owned(),
                buttons,
            }
        },
        Platform::Other => Message::Nothing,
    }
}

/// The question shows where the file was and where it is now, in that order, on every system that
/// has a way to ask; and it gives the two answers.
pub proof fn law_the_question_names_both_paths(from: Seq<char>, to: Seq<char>, secs: u64) -> (digits:
    Seq<char>)
    ensures
        question(Platform::Linux, from, to, secs) == (MessageView::Notification {
            summary: "PowerEXT: convert file?"@,
            body: from + " → "@ + to,
            buttons: seq![("accept"@, "Convert"@), ("reject"@, "Skip"@)],
        }),
        question(Platform::Windows, from, to, secs) == (MessageView::Notification {
            summary: "PowerEXT: convert file?"@,
            body: from + " -> "@ + to,
            buttons: seq![("accept"@, "Convert"@), ("reject"@, "Skip"@)],
        }),
        question(Platform::MacOs, from, to, secs) == MessageView::Script(
            "display dialog \"Convert file?\\n"@ + from + " → "@ + to
                + "\" buttons {\"Skip\", \"Convert\"} default button \"Convert\" with title \"PowerEXT\" giving up after "@
                + digits,
        ),
        all_digits(digits),
        number(digits) == secs,
        question(Platform::Other, from, to, secs) == MessageView::Nothing,
{
    law_a_written_number_reads_back(secs as nat);
    decimal(secs as nat)
}

/// Of the buttons that the question has, just the one that says so means that the file is to be
/// converted.
pub proof fn law_the_convert_button_is_the_one_that_counts(
    platform: Platform,
    from: Seq<char>,
    to: Seq<char>,
    secs: u64,
    i: int,
    pressed: String,
)
    requires
        question(platform, from, to, secs) matches MessageView::Notification { buttons, .. } && 0
            <= i < buttons.len() && buttons[i].0 == pressed@,
    ensures
        question(platform, from, to, secs) matches MessageView::Notification { buttons, .. } && (
        accepts(platform, Reply::Pressed(pressed)) <==> buttons[i].1 == "Convert"@),
{
    reveal_strlit("accept");
    reveal_strlit("reject");
    reveal_strlit("Convert");
    reveal_strlit("Skip");
    assert("accept"@[0] != "reject"@[0]);
    assert("Convert"@.len() != "Skip"@.len());
}

/// The file is converted on a clear answer alone: no answer is none, and neither is one that the
/// system does not give.
pub proof fn law_only_a_clear_answer_counts(s: String)
    ensures
        forall|p: Platform| !#[trigger] accepts(p, Reply::Nothing),
        !accepts(Platform::Other, Reply::Output(s)) && !accepts(Platform::Other, Reply::Pressed(s)),
        accepts(Platform::Linux, Reply::Pressed(s)) <==> s@ == "accept"@,
        accepts(Platform::Windows, Reply::Pressed(s)) <==> s@ == "accept"@,
        accepts(Platform::MacOs, Reply::Output(s)) <==> exists|pre: Seq<char>, post: Seq<char>|
            #![trigger pre + "Convert"@ + post]
            s@ == pre + "Convert"@ + post,
        !accepts(Platform::Linux, Reply::Output(s)) && !accepts(Platform::Windows, Reply::Output(s)),
        !accepts(Platform::MacOs, Reply::Pressed(s)),
{
    law_occurring(s@, "Convert"@);
}

/// What a message says of itself is what it holds: its texts, and for each of the buttons the name
/// and the label, in order.
pub proof fn law_the_contents_of_a_message(m: Message)
    ensures
        match m {
            Message::Script(s) => m@ == MessageView::Script(s@),
            Message::Notification { summary, body, buttons } => {
                &&& m@ matches MessageView::Notification { summary: s, body: b, buttons: said }
                &&& s == summary@
                &&& b == body@
                &&& said.len() == buttons@.len()
                &&& forall|i: int|
                    0 <= i < buttons@.len() ==> #[trigger] said[i] == (
                        buttons@[i].name@,
                        buttons@[i].label@,
                    )
            },
            Message::Nothing => m@ == MessageView::Nothing,
        },
{
}

} // verus!
