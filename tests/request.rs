use kak_tree_sitter::request::{Request, UnixRequest};

#[test]
fn serialization() {
    let req = Request::Highlight {
        client: "client0".to_owned(),
        buffer: "/tmp/a.rs".to_owned(),
        lang: "rust".to_owned(),
        timestamp: 0,
    };
    let expected =
        r#"{"type":"highlight","client":"client0","buffer":"/tmp/a.rs","lang":"rust","timestamp":0}"#;
    assert_eq!(req.to_json(), expected);
}

#[test]
fn serialization_escapes_strings() {
    let req = Request::TryEnableHighlight { lang: "r\"s".to_owned(), client: "c\\1".to_owned() };
    assert_eq!(
        req.to_json(),
        r#"{"type":"try_enable_highlight","lang":"r\"s","client":"c\\1"}"#
    );
}

#[test]
fn serialization_of_other_requests() {
    let nav = Request::Nav {
        client: "c".to_owned(),
        buffer: "b".to_owned(),
        lang: "l".to_owned(),
        selections: "1.1,1.2".to_owned(),
        dir: "parent".to_owned(),
    };
    assert_eq!(
        nav.to_json(),
        r#"{"type":"nav","client":"c","buffer":"b","lang":"l","selections":"1.1,1.2","dir":"parent"}"#
    );
    let to = Request::TextObjects {
        client: "c".to_owned(),
        buffer: "b".to_owned(),
        lang: "l".to_owned(),
        pattern: "function.inside".to_owned(),
        selections: "s".to_owned(),
        mode: "inside".to_owned(),
    };
    assert_eq!(
        to.to_json(),
        r#"{"type":"text_objects","client":"c","buffer":"b","lang":"l","pattern":"function.inside","selections":"s","mode":"inside"}"#
    );
    assert_eq!(UnixRequest::Reload.to_json(), r#"{"type":"reload"}"#);
    assert_eq!(UnixRequest::Shutdown.to_json(), r#"{"type":"shutdown"}"#);
    let reg = UnixRequest::RegisterSession { name: "s".to_owned(), client: None };
    assert_eq!(reg.to_json(), r#"{"type":"register_session","name":"s","client":null}"#);
    let reg = UnixRequest::RegisterSession { name: "s".to_owned(), client: Some("k".to_owned()) };
    assert_eq!(reg.to_json(), r#"{"type":"register_session","name":"s","client":"k"}"#);
    let exit = UnixRequest::SessionExit { name: "s".to_owned() };
    assert_eq!(exit.to_json(), r#"{"type":"session_exit","name":"s"}"#);
}

#[test]
fn with_session_sets_the_name() {
    let reg = UnixRequest::RegisterSession { name: "old".to_owned(), client: Some("c".to_owned()) };
    assert_eq!(
        reg.with_session("new".to_owned()),
        UnixRequest::RegisterSession { name: "new".to_owned(), client: Some("c".to_owned()) }
    );
    let exit = UnixRequest::SessionExit { name: "old".to_owned() };
    assert_eq!(
        exit.with_session("new".to_owned()),
        UnixRequest::SessionExit { name: "new".to_owned() }
    );
    assert_eq!(UnixRequest::Reload.with_session("x".to_owned()), UnixRequest::Reload);
    assert_eq!(UnixRequest::Shutdown.with_session("x".to_owned()), UnixRequest::Shutdown);
}

#[test]
fn with_session_twice_is_once() {
    let reg = UnixRequest::RegisterSession { name: "a".to_owned(), client: None };
    let once = reg.clone().with_session("s".to_owned());
    let twice = reg.with_session("s".to_owned()).with_session("s".to_owned());
    assert_eq!(once, twice);
}

#[test]
fn client_name_of_every_request() {
    let reqs = vec![
        Request::TryEnableHighlight { lang: "l".to_owned(), client: "c1".to_owned() },
        Request::Highlight {
            client: "c2".to_owned(),
            buffer: "b".to_owned(),
            lang: "l".to_owned(),
            timestamp: 9,
        },
    ];
    assert_eq!(reqs[0].client_name(), Some("c1"));
    assert_eq!(reqs[1].client_name(), Some("c2"));
}
