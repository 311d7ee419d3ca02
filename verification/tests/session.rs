use base64::Engine;
use rope::runtime::message::{ImageContent, Message};
use rope::session::{
    attachment_path, auto_name, clean_name, first_user_message, hydrate_image, image_bytes, image_data,
    is_auto_name, message_images, persist_image, records, rename_approved_tools, session_name,
    set_message_images, sort_sessions, Hydrate, PathPart, Persist, Session, SessionInfo,
    SessionMeta,
};

fn session(name: &str) -> Session {
    Session {
        root: String::new(),
        meta: SessionMeta::new(name.into(), 1),
    }
}

fn image(data: &str, path: Option<&str>) -> ImageContent {
    ImageContent {
        mime_type: "image/png".into(),
        data: data.into(),
        path: path.map(String::from),
        width: 2,
        height: 3,
    }
}

#[test]
fn rejects_path_names() {
    assert!(clean_name("../bad").is_err());
    assert_eq!(clean_name("work").unwrap(), "work");
}

#[test]
fn names_are_checked() {
    assert_eq!(clean_name("  work ").unwrap(), "work");
    for name in ["", "  ", ".", "..", "a/b"] {
        assert_eq!(clean_name(name).unwrap_err(), "invalid session name");
    }
    assert_eq!(auto_name(123), "session-123");
    assert!(is_auto_name("session-123"));
    assert!(!is_auto_name("session-"));
    assert!(!is_auto_name("session-1a"));
    assert_eq!(session_name(None, 7).unwrap(), "session-7");
    assert_eq!(session_name(Some(" a ".into()), 7).unwrap(), "a");
    assert!(session_name(Some("a/b".into()), 7).is_err());
}

#[test]
fn generated_titles_replace_only_automatic_names_for_display() {
    let mut session = session("session-123");
    assert!(session.needs_title());
    assert_eq!(session.display_name(), "session-123");

    session.set_title("Git Pane Scrolling".into());
    assert!(!session.needs_title());
    assert_eq!(session.display_name(), "Git Pane Scrolling");

    session.meta.name = "named-session".into();
    session.meta.title = None;
    assert!(!session.needs_title());
}

fn cost(session: &Session) -> Option<f64> {
    session.total_cost().map(f64::from_bits)
}

fn record(session: &mut Session, tokens: u64, price: Option<f64>) {
    let before = f64::from_bits(session.meta.total_cost);
    let charged = price.map(|price| (before + tokens as f64 * price).to_bits());
    session.record_usage(tokens, charged);
}

#[test]
fn session_cost_requires_a_price_for_every_usage() {
    let mut session = session("priced");

    assert_eq!(cost(&session), None);
    record(&mut session, 100, Some(0.01));
    assert_eq!(cost(&session), Some(1.0));

    record(&mut session, 25, None);
    assert_eq!(cost(&session), None);
    record(&mut session, 10, Some(0.01));
    assert_eq!(cost(&session), None);
    assert_eq!(session.meta.total_tokens, 135);
}

#[test]
fn sessions_are_listed_by_age_and_name() {
    let info = |name: &str, created_at: u64| SessionInfo {
        name: name.into(),
        title: None,
        created_at,
        first_message: None,
    };
    let sorted = sort_sessions(vec![info("b", 1), info("old", 0), info("a", 1), info("new", 2)]);
    let names: Vec<&str> = sorted.iter().map(|info| info.display_name()).collect();
    assert_eq!(names, ["new", "a", "b", "old"]);
}

#[test]
fn the_first_thing_that_the_user_said_is_found() {
    let messages = vec![
        Message::system("system".into()),
        Message::user("  ".into()),
        Message::user("summarize the crash log".into()),
    ];
    assert_eq!(first_user_message(&messages).as_deref(), Some("summarize the crash log"));
    assert_eq!(first_user_message(&vec![]), None);
}

#[test]
fn records_are_lines_that_say_something() {
    assert_eq!(records("{}\n\n  \n[]\r\n"), ["{}", "[]"]);
}

#[test]
fn old_names_of_approved_tools_are_replaced() {
    let mut tools = ["grep", "glob", "read"].map(String::from).to_vec();
    rename_approved_tools(&mut tools);
    assert_eq!(tools, ["search_files", "list_files", "read"]);
}

#[test]
fn images_are_kept_in_files() {
    let data = base64::engine::general_purpose::STANDARD.encode(b"png bytes");
    assert_eq!(image_data(&b"png bytes".to_vec()), data);
    assert_eq!(
        persist_image(&image(&data, None), 5, 6, 7, 8),
        Ok(Persist::Write {
            path: "attachments/5-6-7-8.png".into(),
            bytes: b"png bytes".to_vec()
        })
    );
    assert_eq!(
        persist_image(&image(&data, Some("attachments/x.png")), 5, 6, 7, 8),
        Ok(Persist::Kept)
    );
    assert_eq!(
        persist_image(&image("not base64!", None), 5, 6, 7, 8).unwrap_err(),
        "decode image attachment: Invalid symbol 32, offset 3."
    );
    assert_eq!(attachment_path(1, 2, 3, 4, "image/jpeg"), "attachments/1-2-3-4.jpg");
    assert_eq!(attachment_path(1, 2, 3, 4, "image/gif"), "attachments/1-2-3-4.gif");
    assert_eq!(attachment_path(1, 2, 3, 4, "image/webp"), "attachments/1-2-3-4.webp");
}

#[test]
fn images_are_read_from_below_the_session() {
    let inside = vec![PathPart::Normal, PathPart::Normal];
    assert_eq!(
        hydrate_image(&image("", Some("attachments/x.png")), false, &inside),
        Ok(Hydrate::Read {
            path: "attachments/x.png".into()
        })
    );
    assert_eq!(hydrate_image(&image("data", None), false, &vec![]), Ok(Hydrate::Loaded));
    assert_eq!(
        hydrate_image(&image("", None), false, &vec![]).unwrap_err(),
        "image attachment has no path"
    );
    assert_eq!(
        hydrate_image(&image("", Some("../x")), false, &vec![PathPart::Parent, PathPart::Normal])
            .unwrap_err(),
        "invalid image attachment path: ../x"
    );
    assert!(hydrate_image(&image("", Some("/x")), true, &inside).is_err());
}

#[test]
fn images_of_a_message_are_replaced() {
    let mut message = Message::user_with_images("look".into(), vec![image("a", None)]);
    assert_eq!(message_images(&message), [image("a", None)]);
    set_message_images(&mut message, vec![image("", Some("p"))]);
    assert_eq!(message_images(&message), [image("", Some("p"))]);
    let mut tool = Message::tool("id".into(), "seen".into(), Some(image("a", None)), None);
    set_message_images(&mut tool, vec![image("b", None)]);
    assert_eq!(message_images(&tool), [image("b", None)]);
    assert!(message_images(&Message::system("x".into())).is_empty());
}

#[test]
fn images_have_bytes() {
    let image = |data: &str| ImageContent {
        mime_type: "image/png".into(),
        data: data.into(),
        path: None,
        width: 0,
        height: 0,
    };
    assert_eq!(image_bytes(&image("AQI=")), Some(vec![1, 2]));
    assert_eq!(image_bytes(&image("AQI")), None);
}
