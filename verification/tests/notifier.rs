use powerext::notifier::{choice, notify_info, prompt_user, Message, Reply, UserChoice};
use powerext::platform::Platform;

fn notification(m: Message) -> (String, String, Vec<(&'static str, &'static str)>) {
    match m {
        Message::Notification { summary, body, buttons } => {
            (summary, body, buttons.iter().map(|b| (b.name, b.label)).collect())
        }
        other => panic!("{other:?}"),
    }
}

fn script(m: Message) -> String {
    match m {
        Message::Script(s) => s,
        other => panic!("{other:?}"),
    }
}

#[test]
fn the_user_is_asked_by_a_dialog_on_macos() {
    let s = script(prompt_user(Platform::MacOs, "/d/a.png", "/d/a.jpg", 30));
    assert_eq!(
        s,
        r#"display dialog "Convert file?\n/d/a.png → /d/a.jpg" buttons {"Skip", "Convert"} default button "Convert" with title "PowerEXT" giving up after 30"#,
    );
}

#[test]
fn the_user_is_asked_by_a_notification_elsewhere() {
    let buttons = vec![("accept", "Convert"), ("reject", "Skip")];
    assert_eq!(
        notification(prompt_user(Platform::Linux, "a.png", "a.jpg", 30)),
        ("PowerEXT: convert file?".to_string(), "a.png → a.jpg".to_string(), buttons.clone()),
    );
    assert_eq!(
        notification(prompt_user(Platform::Windows, "a.png", "a.jpg", 30)),
        ("PowerEXT: convert file?".to_string(), "a.png -> a.jpg".to_string(), buttons),
    );
    assert!(matches!(prompt_user(Platform::Other, "a", "b", 30), Message::Nothing));
}

#[test]
fn only_a_clear_answer_accepts() {
    let output = |s: &str| Reply::Output(s.to_string());
    let pressed = |s: &str| Reply::Pressed(s.to_string());
    let mac = Platform::MacOs;
    assert_eq!(choice(mac, &output("button returned:Convert, gave up:false\n")), UserChoice::Accept);
    assert_eq!(choice(mac, &output("button returned:Skip, gave up:false\n")), UserChoice::Reject);
    assert_eq!(choice(mac, &output("button returned:, gave up:true\n")), UserChoice::Reject);
    assert_eq!(choice(mac, &pressed("accept")), UserChoice::Reject);
    assert_eq!(choice(mac, &Reply::Nothing), UserChoice::Reject);
    for p in [Platform::Linux, Platform::Windows] {
        assert_eq!(choice(p, &pressed("accept")), UserChoice::Accept);
        assert_eq!(choice(p, &pressed("reject")), UserChoice::Reject);
        assert_eq!(choice(p, &pressed("__closed")), UserChoice::Reject);
        assert_eq!(choice(p, &output("accept")), UserChoice::Reject);
        assert_eq!(choice(p, &Reply::Nothing), UserChoice::Reject);
    }
    assert_eq!(choice(Platform::Other, &pressed("accept")), UserChoice::Reject);
}

#[test]
fn the_user_is_told() {
    assert_eq!(
        script(notify_info(Platform::MacOs, "PowerEXT: skipped", "No converter")),
        r#"display notification "No converter" with title "PowerEXT: skipped""#,
    );
    for p in [Platform::Linux, Platform::Windows] {
        assert_eq!(notification(notify_info(p, "s", "b")), ("s".to_string(), "b".to_string(), vec![]));
    }
    assert!(matches!(notify_info(Platform::Other, "s", "b"), Message::Nothing));
}
