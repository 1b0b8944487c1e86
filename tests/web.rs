use askbot::config::{BotConfig, Tag};
use askbot::web::{rocket, Request, Response, Status};

fn test_config() -> BotConfig {
    let mut bc = BotConfig::default();
    bc.key = "foo".to_string();
    bc.use_reply = true;
    bc.tags.push(Tag::new(
        "#test1".to_string(),
        "test1-hook".to_string(),
        String::new(),
        "channel".to_string(),
    ));
    bc
}

fn do_login(bc: &mut BotConfig, session: &mut bool) {
    rocket(bc, session, Request::Login("foo".to_string()));
}

#[test]
fn login() {
    let mut bc = test_config();
    let mut session = false;

    // wrong login
    let (response, _) = rocket(&mut bc, &mut session, Request::Login("wrong".to_string()));
    assert_eq!(response, Response::Status(Status::Forbidden));
    assert!(!session);

    // login
    let (response, save) = rocket(&mut bc, &mut session, Request::Login("foo".to_string()));
    assert_eq!(response, Response::Status(Status::Success));
    assert!(session);
    assert!(!save);
}

#[test]
fn get_tags() {
    let mut bc = test_config();
    let mut session = false;
    do_login(&mut bc, &mut session);

    let (response, _) = rocket(&mut bc, &mut session, Request::GetTags);
    // response data == server data
    assert_eq!(response, Response::Tags(bc.tags.clone()));
}

#[test]
fn add_tag() {
    let mut bc = test_config();
    let mut session = false;
    do_login(&mut bc, &mut session);

    let old_count = bc.tags.len();
    let tag = Tag::new(
        format!("#test{}", old_count + 1),
        format!("test{}-hook", old_count + 1),
        String::new(),
        "channel".to_string(),
    );
    let (response, save) = rocket(&mut bc, &mut session, Request::AddTag(tag));
    assert_eq!(response, Response::Status(Status::Created));
    assert!(save);
    let new_count = bc.tags.len();
    assert_eq!(new_count, old_count + 1);
}

#[test]
fn delete_tag() {
    let mut bc = test_config();
    let mut session = false;
    do_login(&mut bc, &mut session);

    // get old data
    let old_count = bc.tags.len();
    assert!(old_count > 0);

    // delete
    let (response, save) = rocket(&mut bc, &mut session, Request::DeleteTag(old_count - 1));
    assert_eq!(response, Response::Status(Status::Success));
    assert!(save);

    // check
    let new_count = bc.tags.len();
    assert_eq!(new_count, old_count - 1);
}

#[test]
fn update_tag() {
    let mut bc = test_config();
    let mut session = false;
    do_login(&mut bc, &mut session);

    // get old data
    let old_count = bc.tags.len();
    assert!(old_count > 0);
    let mut old_tag = bc.tags[0].clone();

    let mut new_tag = old_tag.clone();
    let number = old_tag.tag.split_off(5).parse::<i32>().unwrap();
    new_tag.tag = format!("#test{}", (number + 1) % 100);

    // update
    let sent = Tag::new(
        new_tag.tag.clone(),
        new_tag.webhook.clone(),
        String::new(),
        "channel".to_string(),
    );
    let (response, save) = rocket(&mut bc, &mut session, Request::UpdateTag(0, sent));
    assert_eq!(response, Response::Status(Status::Success));
    assert!(save);

    // check
    let new_count = bc.tags.len();
    assert_eq!(new_count, old_count);
    let updated_tag = bc.tags[0].clone();
    assert_eq!(new_tag, updated_tag);
}

#[test]
fn requests_of_a_session_that_is_not_logged_in_are_forbidden() {
    let mut bc = test_config();
    let mut session = false;
    let tag = Tag::new("#x".to_string(), "h".to_string(), String::new(), "channel".to_string());
    let requests = vec![
        Request::AddTag(tag.clone()),
        Request::GetTags,
        Request::DeleteTag(0),
        Request::UpdateTag(0, tag),
        Request::GetMessage("response_message_success".to_string()),
        Request::SetMessage("response_message_success".to_string(), "ok".to_string()),
        Request::GetMessages,
    ];
    for request in requests {
        let (response, save) = rocket(&mut bc, &mut session, request);
        assert_eq!(response, Response::Status(Status::Forbidden));
        assert!(!save);
    }
    assert_eq!(bc.tags.len(), 1);
    assert_eq!(bc.response_message_success, "");
}

#[test]
fn positions_out_of_range_are_forbidden() {
    let mut bc = test_config();
    let mut session = true;
    let tag = Tag::new("#x".to_string(), "h".to_string(), String::new(), "channel".to_string());
    let (response, save) = rocket(&mut bc, &mut session, Request::DeleteTag(1));
    assert_eq!(response, Response::Status(Status::Forbidden));
    assert!(!save);
    let (response, _) = rocket(&mut bc, &mut session, Request::UpdateTag(5, tag));
    assert_eq!(response, Response::Status(Status::Forbidden));
    assert_eq!(bc.tags[0].tag, "#test1");
}

#[test]
fn templates_are_read_and_set_by_name() {
    let mut bc = test_config();
    let mut session = true;
    let (response, save) = rocket(
        &mut bc,
        &mut session,
        Request::SetMessage("response_message_success".to_string(), "got it".to_string()),
    );
    assert_eq!(response, Response::Status(Status::Created));
    assert!(!save);
    rocket(
        &mut bc,
        &mut session,
        Request::SetMessage("response_message_failure".to_string(), "sorry".to_string()),
    );
    let (response, _) = rocket(
        &mut bc,
        &mut session,
        Request::GetMessage("response_message_failure".to_string()),
    );
    match response {
        Response::Message(m) => {
            assert_eq!(m.name, "response_message_failure");
            assert_eq!(m.value, "sorry");
        }
        other => panic!("unexpected answer {:?}", other),
    }
    let (response, _) = rocket(&mut bc, &mut session, Request::GetMessage("other".to_string()));
    assert_eq!(response, Response::Status(Status::NotFound));
    let (response, _) = rocket(
        &mut bc,
        &mut session,
        Request::SetMessage("other".to_string(), "x".to_string()),
    );
    assert_eq!(response, Response::Status(Status::NotFound));
    let (response, _) = rocket(&mut bc, &mut session, Request::GetMessages);
    match response {
        Response::Messages(v) => {
            assert_eq!(v.len(), 2);
            assert_eq!(v[0].name, "response_message_success");
            assert_eq!(v[0].value, "got it");
            assert_eq!(v[1].name, "response_message_failure");
            assert_eq!(v[1].value, "sorry");
        }
        other => panic!("unexpected answer {:?}", other),
    }
}

#[test]
fn status_codes() {
    assert_eq!(Status::Success.code(), 200);
    assert_eq!(Status::Created.code(), 201);
    assert_eq!(Status::Forbidden.code(), 403);
    assert_eq!(Status::NotFound.code(), 404);
}
