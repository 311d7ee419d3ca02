use rope::json::Json;
use rope::protocol::{Error, Hello};
use rope::server::{
    authorize, check_subscription, enqueue, error_reply, frames_under, fresh_token_file, is_blank,
    local_origins, outcome_reply, split_message, token_from_file, token_source, valid_origin,
    Access, ClientHistory, Clients, Origin, TokenSource, Verdict, Welcome, CHUNK_BYTES,
};

fn value(json: &Json) -> serde_json::Value {
    serde_json::from_str(&rope::json::write(json)).unwrap()
}

fn hello(client_id: Option<&str>, server_id: Option<&str>) -> Hello {
    Hello {
        protocol: 1,
        token: "secret".into(),
        client_id: client_id.map(String::from),
        server_id: server_id.map(String::from),
    }
}

#[test]
fn only_local_pages_may_speak() {
    let allowed = local_origins(8080);
    assert_eq!(
        allowed,
        ["http://127.0.0.1:8080", "http://localhost:8080", "http://[::1]:8080"]
    );
    assert!(valid_origin(&Origin::Absent, &allowed));
    assert!(valid_origin(&Origin::Named("http://localhost:8080".into()), &allowed));
    assert!(!valid_origin(&Origin::Named("http://evil.example".into()), &allowed));
    assert!(!valid_origin(&Origin::Garbled, &allowed));
}

#[test]
fn files_need_the_token() {
    let allowed = local_origins(1);
    let check = |origin: Origin, preflight: bool, header: Option<&str>| {
        authorize(&origin, &allowed, preflight, header, "secret")
    };
    assert_eq!(check(Origin::Absent, false, Some("Bearer secret")), Access::Granted);
    assert_eq!(check(Origin::Absent, false, Some("Bearer other")), Access::Unauthorized);
    assert_eq!(check(Origin::Absent, false, None), Access::Unauthorized);
    assert_eq!(check(Origin::Absent, true, None), Access::Preflight);
    assert_eq!(check(Origin::Garbled, true, Some("Bearer secret")), Access::Forbidden);
}

#[test]
fn tokens_say_something() {
    assert_eq!(token_from_file(" abc\n", "/t").unwrap(), "abc");
    assert_eq!(token_from_file(" \n", "/t").unwrap_err(), "server token file is empty: /t");
    assert!(is_blank(" \t"));
    assert!(!is_blank("x"));
}

#[test]
fn clients_come_back() {
    let mut clients = Clients {
        seen: vec![("old".into(), 0), ("known".into(), 100_000)],
    };
    assert_eq!(clients.welcome(&hello(None, None), "secret", "s", 100_000), Welcome::New);
    assert_eq!(clients.seen.len(), 1);
    assert_eq!(
        clients.welcome(&hello(Some("known"), Some("s")), "secret", "s", 100_000),
        Welcome::Back("known".into())
    );
    assert!(matches!(
        clients.welcome(&hello(Some("known"), Some("other")), "secret", "s", 100_000),
        Welcome::Refused(error) if error.code == "expired_client"
    ));
    assert!(matches!(
        clients.welcome(&hello(Some("gone"), Some("s")), "secret", "s", 100_000),
        Welcome::Refused(error) if error.code == "expired_client"
    ));
    assert!(matches!(
        clients.welcome(&hello(None, None), "other", "s", 100_000),
        Welcome::Refused(error) if error.code == "unauthorized"
    ));
    clients.enter("new".into(), 100_000);
    clients.heard("known", 150_000);
    clients.expire(190_000);
    assert!(clients.contains("known"));
    assert!(!clients.contains("new"));
    let mut full = Clients {
        seen: (0..1024).map(|n| (n.to_string(), 5)).collect(),
    };
    assert_eq!(
        full.welcome(&hello(None, None), "secret", "s", 6),
        Welcome::Dropped("too many client identities".into())
    );
    assert!(full.contains("1023"));
    full.expire(86_405);
    assert!(full.seen.is_empty());
}

#[test]
fn a_request_is_carried_out_once() {
    let mut history = ClientHistory::new();
    assert_eq!(history.begin("1", "a", true), Verdict::Dispatch(1));
    let reply = outcome_reply("1", Ok(Json::Bool(true)));
    history.complete(1, "a".into(), &reply);
    let Verdict::Reply(again) = history.begin("1", "a", true) else {
        panic!("carried out twice");
    };
    assert_eq!(again, reply);
    let Verdict::Reply(reused) = history.begin("1", "b", true) else {
        panic!("carried out twice");
    };
    assert_eq!(value(&reused)["error"]["code"], "request_id_reused");
    assert_eq!(history.begin("1", "b", false), Verdict::Dispatch(1));
    for id in ["0", "x", "-1", ""] {
        let Verdict::Reply(refused) = history.begin(id, "a", true) else {
            panic!("no number");
        };
        assert_eq!(value(&refused)["error"]["code"], "invalid_request_id");
    }
    assert_eq!(history.begin("9", "c", true), Verdict::Dispatch(9));
    let Verdict::Reply(expired) = history.begin("5", "c", true) else {
        panic!("out of order");
    };
    assert_eq!(value(&expired)["error"]["code"], "expired_request");
}

#[test]
fn old_replies_are_forgotten() {
    let mut history = ClientHistory::new();
    for number in 1..=130u64 {
        let id = number.to_string();
        assert_eq!(history.begin(&id, "p", true), Verdict::Dispatch(number));
        history.complete(number, "p".into(), &outcome_reply(&id, Ok(Json::Null)));
    }
    let Verdict::Reply(gone) = history.begin("2", "p", true) else {
        panic!("carried out twice");
    };
    assert_eq!(value(&gone)["error"]["code"], "expired_request");
    let Verdict::Reply(kept) = history.begin("3", "p", true) else {
        panic!("carried out twice");
    };
    assert_eq!(value(&kept)["type"], "reply");
}

#[test]
fn replies_are_json() {
    let error = value(&error_reply("7", "limit", "too many"));
    assert_eq!(error["request_id"], "7");
    assert_eq!(error["error"]["message"], "too many");
    assert_eq!(
        value(&outcome_reply("7", Err(Error::new("limit", "too many")))),
        error
    );
    assert_eq!(value(&outcome_reply("7", Ok(Json::Unsigned(1))))["result"], 1);
    assert_eq!(Error::new("limit", "too many").text(), "limit: too many");
}

#[test]
fn subscriptions_are_limited() {
    assert_eq!(check_subscription(15, false), Ok(()));
    assert_eq!(check_subscription(16, true), Ok(()));
    assert_eq!(
        check_subscription(16, false),
        Err(Error::new("limit", "at most 16 subscriptions per connection"))
    );
}

#[test]
fn long_messages_go_in_pieces() {
    assert_eq!(enqueue("short"), ["short"]);
    let long = "\u{20ac}".repeat(30_000);
    let pieces = split_message(&long);
    assert_eq!(pieces.concat(), long);
    assert!(pieces.iter().all(|piece| piece.len() <= CHUNK_BYTES));
    assert!(pieces.len() > 1);
    let lines = frames_under(&long, "id");
    assert_eq!(lines.len(), pieces.len() + 1);
    let first: serde_json::Value = serde_json::from_str(&lines[0]).unwrap();
    assert_eq!(first["type"], "chunk");
    let sent = enqueue(&long);
    assert_eq!(sent.len(), lines.len());
}

#[test]
fn the_token_is_set_or_stands_in_a_file() {
    let text = |value: &str| Some(value.to_string());
    assert_eq!(
        token_source(text(" key "), text("given"), None),
        Ok(TokenSource::Variable(" key ".into()))
    );
    assert_eq!(
        token_source(text(" "), text("given"), None).unwrap_err(),
        "ROPE_SERVER_TOKEN is empty"
    );
    assert_eq!(
        token_source(None, text("given"), text("standard")),
        Ok(TokenSource::File("given".into()))
    );
    assert_eq!(
        token_source(None, None, text("standard")),
        Ok(TokenSource::File("standard".into()))
    );
    assert_eq!(token_source(None, None, None).unwrap_err(), "home directory not found");
    assert_eq!(
        TokenSource::Variable(" key ".into()).token("other"),
        Ok((" key ".into(), None))
    );
    assert_eq!(
        TokenSource::File("f".into()).token(" key\n"),
        Ok(("key".into(), text("f")))
    );
    assert_eq!(
        TokenSource::File("f".into()).token(" \n").unwrap_err(),
        "server token file is empty: f"
    );
}

#[test]
fn a_token_that_was_made_is_read_back() {
    let content = fresh_token_file();
    assert_eq!(content.len(), 37);
    let source = || TokenSource::File("f".into());
    let (token, file) = source().token(&content).unwrap();
    assert_eq!(format!("{token}\n"), content);
    assert_eq!(file.as_deref(), Some("f"));
    assert_eq!(&token[14..15], "4");
    assert_eq!(source().token(&content).unwrap().0, token);
    assert_ne!(fresh_token_file(), content);
}
