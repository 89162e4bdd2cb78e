use std::cell::RefCell;

use github_comments::client::{Method, Reply, Request, Response};
use github_comments::comments::{
    read_comment, read_comments, Comment, CommentListOptions, CommentOptions, Comments,
};
use github_comments::error::CallError;
use github_comments::json::Json;
use github_comments::users::User;

const USER: &str = "{\"login\":\"octocat\",\"id\":583231,\"avatar_url\":\"https://avatars/u/583231\",\
\"gravatar_id\":\"\",\"url\":\"https://api.example/users/octocat\",\
\"html_url\":\"https://example/octocat\",\"site_admin\":false}";

fn comment_json(id: u64, body: &str) -> String {
    format!(
        "{{\"id\":{},\"url\":\"https://api.example/comments/{}\",\
         \"html_url\":\"https://example/comments/{}\",\"body\":\"{}\",\"user\":{},\
         \"created_at\":\"2011-04-14T16:00:49Z\",\"updated_at\":\"2011-04-14T16:00:50Z\"}}",
        id, id, id, body, USER
    )
}

fn octocat() -> User {
    User {
        login: "octocat".to_string(),
        id: 583231,
        avatar_url: "https://avatars/u/583231".to_string(),
        gravatar_id: "".to_string(),
        url: "https://api.example/users/octocat".to_string(),
        html_url: "https://example/octocat".to_string(),
        site_admin: false,
    }
}

fn comment(id: u64, body: &str) -> Comment {
    Comment {
        id,
        url: format!("https://api.example/comments/{}", id),
        html_url: format!("https://example/comments/{}", id),
        body: body.to_string(),
        user: octocat(),
        created_at: "2011-04-14T16:00:49Z".to_string(),
        updated_at: "2011-04-14T16:00:50Z".to_string(),
    }
}

fn answer(status: u16, body: &str) -> Reply {
    Ok(Response { status, body: body.as_bytes().to_vec() })
}

#[test]
fn create_submits_the_body_and_returns_the_comment() {
    let seen: RefCell<Vec<Request>> = RefCell::new(Vec::new());
    let client = |request: Request| -> Reply {
        seen.borrow_mut().push(request);
        answer(201, &comment_json(1, "hello"))
    };
    let comments = Comments::new(&client, "o", "r", 7);
    let created = comments.create(&CommentOptions { body: "hello".to_string() });
    assert_eq!(created, Ok(comment(1, "hello")));
    let seen = seen.borrow();
    assert_eq!(seen.len(), 1);
    assert_eq!(seen[0].method, Method::Post);
    assert_eq!(seen[0].path, "/repos/o/r/issues/7/comments");
    assert_eq!(seen[0].body, Some(b"{\"body\":\"hello\"}".to_vec()));
}

#[test]
fn create_returns_nested_user_fields_verbatim() {
    let client = |_request: Request| -> Reply { answer(201, &comment_json(42, "hi")) };
    let comments = Comments::new(&client, "o", "r", 7);
    let created = comments.create(&CommentOptions { body: "hi".to_string() }).unwrap();
    assert_eq!(created.id, 42);
    assert_eq!(created.url, "https://api.example/comments/42");
    assert_eq!(created.html_url, "https://example/comments/42");
    assert_eq!(created.body, "hi");
    assert_eq!(created.created_at, "2011-04-14T16:00:49Z");
    assert_eq!(created.updated_at, "2011-04-14T16:00:50Z");
    assert_eq!(created.user.login, "octocat");
    assert_eq!(created.user.id, 583231);
    assert_eq!(created.user.avatar_url, "https://avatars/u/583231");
    assert_eq!(created.user.gravatar_id, "");
    assert_eq!(created.user.url, "https://api.example/users/octocat");
    assert_eq!(created.user.html_url, "https://example/octocat");
    assert!(!created.user.site_admin);
}

#[test]
fn list_without_options_gets_the_bare_path() {
    let seen: RefCell<Vec<Request>> = RefCell::new(Vec::new());
    let client = |request: Request| -> Reply {
        seen.borrow_mut().push(request);
        answer(200, "[]")
    };
    let comments = Comments::new(&client, "o", "r", 7);
    let listed = comments.list(&CommentListOptions::builder().build());
    assert_eq!(listed, Ok(vec![]));
    let seen = seen.borrow();
    assert_eq!(seen.len(), 1);
    assert_eq!(seen[0].method, Method::Get);
    assert_eq!(seen[0].path, "/repos/o/r/issues/7/comments");
    assert_eq!(seen[0].body, None);
}

#[test]
fn list_with_since_appends_the_query() {
    let seen: RefCell<Vec<Request>> = RefCell::new(Vec::new());
    let client = |request: Request| -> Reply {
        seen.borrow_mut().push(request);
        answer(200, "[]")
    };
    let comments = Comments::new(&client, "o", "r", 7);
    let options = CommentListOptions::builder().since("2020-01-01").build();
    assert_eq!(comments.list(&options), Ok(vec![]));
    assert_eq!(seen.borrow()[0].path, "/repos/o/r/issues/7/comments?since=2020-01-01");
}

#[test]
fn list_returns_the_comments_in_order() {
    let body = format!("[{},{},{}]", comment_json(3, "c"), comment_json(1, "a"), comment_json(2, "b"));
    let client = |_request: Request| -> Reply { answer(200, &body) };
    let comments = Comments::new(&client, "o", "r", 7);
    let listed = comments.list(&CommentListOptions::default());
    assert_eq!(listed, Ok(vec![comment(3, "c"), comment(1, "a"), comment(2, "b")]));
}

#[test]
fn empty_list_is_no_error() {
    assert_eq!(read_comments(answer(200, "[]")), Ok(vec![]));
}

#[test]
fn not_found_is_an_api_error_for_list_and_create() {
    let client = |_request: Request| -> Reply { answer(404, "{\"message\":\"Not Found\"}") };
    let comments = Comments::new(&client, "o", "r", 7);
    let expected = CallError::Api { status: 404, message: "Not Found".to_string() };
    assert_eq!(comments.list(&CommentListOptions::default()), Err(expected.clone()));
    assert_eq!(comments.create(&CommentOptions { body: "x".to_string() }), Err(expected));
}

#[test]
fn server_error_is_an_api_error() {
    let reply = answer(500, "{\"message\":\"Server Error\",\"documentation_url\":\"https://d\"}");
    assert_eq!(
        read_comment(reply),
        Err(CallError::Api { status: 500, message: "Server Error".to_string() })
    );
}

#[test]
fn failure_without_a_readable_message_cannot_be_read() {
    assert_eq!(read_comment(answer(404, "<html>")), Err(CallError::Deserialization));
    assert_eq!(read_comment(answer(404, "{}")), Err(CallError::Deserialization));
    assert_eq!(read_comments(answer(503, "")), Err(CallError::Deserialization));
}

#[test]
fn malformed_success_is_a_deserialization_error() {
    let client = |_request: Request| -> Reply { answer(200, "{\"id\": 1, \"url\": ") };
    let comments = Comments::new(&client, "o", "r", 7);
    assert_eq!(comments.list(&CommentListOptions::default()), Err(CallError::Deserialization));
    assert_eq!(
        comments.create(&CommentOptions { body: "x".to_string() }),
        Err(CallError::Deserialization)
    );
}

#[test]
fn success_of_another_shape_is_a_deserialization_error() {
    assert_eq!(read_comment(answer(200, "[]")), Err(CallError::Deserialization));
    assert_eq!(read_comment(answer(200, "{}")), Err(CallError::Deserialization));
    assert_eq!(read_comment(answer(200, "null")), Err(CallError::Deserialization));
    assert_eq!(read_comments(answer(200, "{}")), Err(CallError::Deserialization));
    assert_eq!(read_comments(answer(200, &comment_json(1, "a"))), Err(CallError::Deserialization));
    let one_bad = format!("[{},{{}}]", comment_json(1, "a"));
    assert_eq!(read_comments(answer(200, &one_bad)), Err(CallError::Deserialization));
}

#[test]
fn missing_or_mistyped_field_is_a_deserialization_error() {
    let no_user = "{\"id\":1,\"url\":\"u\",\"html_url\":\"h\",\"body\":\"b\",\
                   \"created_at\":\"c\",\"updated_at\":\"d\"}";
    assert_eq!(read_comment(answer(200, no_user)), Err(CallError::Deserialization));
    let text_id = comment_json(1, "a").replacen("\"id\":1", "\"id\":\"1\"", 1);
    assert_eq!(read_comment(answer(200, &text_id)), Err(CallError::Deserialization));
    let negative_id = comment_json(1, "a").replacen("\"id\":1", "\"id\":-1", 1);
    assert_eq!(read_comment(answer(200, &negative_id)), Err(CallError::Deserialization));
    let null_body = comment_json(1, "a").replacen("\"body\":\"a\"", "\"body\":null", 1);
    assert_eq!(read_comment(answer(200, &null_body)), Err(CallError::Deserialization));
    let user_without_login = comment_json(1, "a").replacen("\"login\":\"octocat\",", "", 1);
    assert_eq!(read_comment(answer(200, &user_without_login)), Err(CallError::Deserialization));
}

#[test]
fn members_of_other_names_are_passed_over() {
    let with_more = comment_json(5, "a").replacen("{\"id\":5", "{\"node_id\":\"x\",\"id\":5", 1);
    assert_eq!(read_comment(answer(200, &with_more)), Ok(comment(5, "a")));
}

#[test]
fn transport_error_is_passed_on_unchanged() {
    let client =
        |_request: Request| -> Reply { Err(CallError::Transport("timed out".to_string())) };
    let comments = Comments::new(&client, "o", "r", 7);
    let expected = CallError::Transport("timed out".to_string());
    assert_eq!(comments.list(&CommentListOptions::default()), Err(expected.clone()));
    assert_eq!(comments.create(&CommentOptions { body: "x".to_string() }), Err(expected));
}

#[test]
fn each_call_is_one_request() {
    let count: RefCell<u32> = RefCell::new(0);
    let client = |_request: Request| -> Reply {
        *count.borrow_mut() += 1;
        answer(500, "{\"message\":\"down\"}")
    };
    let comments = Comments::new(&client, "o", "r", 7);
    assert!(comments.list(&CommentListOptions::default()).is_err());
    assert_eq!(*count.borrow(), 1);
    assert!(comments.create(&CommentOptions { body: "x".to_string() }).is_err());
    assert_eq!(*count.borrow(), 2);
}

#[test]
fn many_handles_share_one_client() {
    let client = |request: Request| -> Reply {
        Err(CallError::Transport(request.path))
    };
    let first = Comments::new(&client, "o", "r", 1);
    let second = Comments::new(&client, "o", "r", 2);
    assert_eq!(
        first.list(&CommentListOptions::default()),
        Err(CallError::Transport("/repos/o/r/issues/1/comments".to_string()))
    );
    assert_eq!(
        second.list(&CommentListOptions::default()),
        Err(CallError::Transport("/repos/o/r/issues/2/comments".to_string()))
    );
}

#[test]
fn comment_from_json_reads_a_document() {
    let json = Json::parse(comment_json(9, "text").as_bytes()).unwrap();
    assert_eq!(Comment::from_json(&json), Some(comment(9, "text")));
    assert_eq!(Comment::list_from_json(&json), None);
    let list = Json::Array(vec![]);
    assert_eq!(Comment::list_from_json(&list), Some(vec![]));
}
