//! Comments on an issue: the handle, its options and its records.

pub mod options;

pub use options::{CommentListOptions, CommentListOptionsBuilder};

use vstd::prelude::*;
use vstd::string::*;
use vstd::utf8::encode_utf8;
use crate::client::{
    failure_of, is_failure, read_reply, reply_outcome, Method, Reply, Request, RequestView,
    Response,
};
use crate::error::{CallError, CallErrorView};
use crate::json::{json_document, json_string, string_literal, Json};
use crate::query::{encoded_entries, Entries};
use crate::text::{decimal, decimal_text};
use crate::users::{user_of, User, UserView};

verus! {

/// A comment on an issue, as the service describes it.
#[derive(Debug, Clone, PartialEq, Eq)]
pub struct Comment {
    pub id: u64,
    pub url: String,
    pub html_url: String,
    pub body: String,
    pub user: User,
    pub created_at: String,
    pub updated_at: String,
}

/// What a [`Comment`] holds.
pub struct CommentView {
    pub id: u64,
    pub url: Seq<char>,
    pub html_url: Seq<char>,
    pub body: Seq<char>,
    pub user: UserView,
    pub created_at: Seq<char>,
    pub updated_at: Seq<char>,
}

impl View for Comment {
    type V = CommentView;

    open spec fn view(&self) -> CommentView {
        CommentView {
            id: self.id,
            url: self.url@,
            html_url: self.html_url@,
            body: self.body@,
            user: self.user@,
            created_at: self.created_at@,
            updated_at: self.updated_at@,
        }
    }
}

/// What a list of comments holds.
pub open spec fn comment_views(comments: Seq<Comment>) -> Seq<CommentView> {
    Seq::new(comments.len(), |i: int| comments[i]@)
}

/// The user that the member `user` of a document describes.
pub open spec fn author_of(json: Json) -> Option<UserView> {
    match json.member("user"@) {
        Some(user) => user_of(user),
        None => None,
    }
}

/// The comment that a document describes: an object in which every field of a
/// comment stands under its name with a value of its type, the user as an
/// object of its own. Members of other names are passed over. `None` where a
/// field is missing or of another type.
pub open spec fn comment_of(json: Json) -> Option<CommentView> {
    if json.number_at("id"@) is Some && json.text_at("url"@) is Some && json.text_at(
        "html_url"@,
    ) is Some && json.text_at("body"@) is Some && author_of(json) is Some && json.text_at(
        "created_at"@,
    ) is Some && json.text_at("updated_at"@) is Some {
        Some(
            CommentView {
                id: json.number_at("id"@)->0,
                url: json.text_at("url"@)->0,
                html_url: json.text_at("html_url"@)->0,
                body: json.text_at("body"@)->0,
                user: author_of(json)->0,
                created_at: json.text_at("created_at"@)->0,
                updated_at: json.text_at("updated_at"@)->0,
            },
        )
    } else {
        None
    }
}

/// The comments that a document lists: an array of which every item describes
/// a comment, in the order of the array. `None` where the document is no
/// array, or one item describes no comment.
pub open spec fn comments_of(json: Json) -> Option<Seq<CommentView>> {
    match json {
        Json::Array(items) => {
            if forall|i: int| 0 <= i < items@.len() ==> (#[trigger] comment_of(items@[i])) is Some {
                Some(Seq::new(items@.len(), |i: int| comment_of(items@[i])->0))
            } else {
                None
            }
        },
        _ => None,
    }
}

impl Comment {
    /// Reads a comment from the document that describes it.
    pub fn from_json(json: &Json) -> (comment: Option<Comment>)
        ensures
            comment matches Some(read) ==> comment_of(*json) == Some(read@),
            comment is None ==> comment_of(*json) is None,
    {
        let id: u64 = match json.get_number("id") {
            Some(number) => number,
            None => return None,
        };
        let url: String = match json.get_text("url") {
            Some(text) => text,
            None => return None,
        };
        let html_url: String = match json.get_text("html_url") {
            Some(text) => text,
            None => return None,
        };
        let body: String = match json.get_text("body") {
            Some(text) => text,
            None => return None,
        };
        let user: User = match json.get("user") {
            Some(member) => match User::from_json(member) {
                Some(user) => user,
                None => return None,
            },
            None => return None,
        };
        let created_at: String = match json.get_text("created_at") {
            Some(text) => text,
            None => return None,
        };
        let updated_at: String = match json.get_text("updated_at") {
            Some(text) => text,
            None => return None,
        };
        Some(Comment { id, url, html_url, body, user, created_at, updated_at })
    }

    /// Reads the comments from the document that lists them.
    pub fn list_from_json(json: &Json) -> (comments: Option<Vec<Comment>>)
        ensures
            comments matches Some(read) ==> comments_of(*json) == Some(comment_views(read@)),
            comments is None ==> comments_of(*json) is None,
    {
        match json {
            Json::Array(items) => {
                let mut comments: Vec<Comment> = Vec::new();
                let mut i: usize = 0;
                while i < items.len()
                    invariant
                        i <= items.len(),
                        *json == Json::Array(*items),
                        comments@.len() == i,
                        forall|j: int|
                            0 <= j < i ==> (#[trigger] comment_of(items@[j])) == Some(
                                comments@[j]@,
                            ),
                    decreases items.len() - i,
                {
                    match Comment::from_json(&items[i]) {
                        Some(comment) => comments.push(comment),
                        None => {
                            assert(comment_of(items@[i as int]) is None);
                            return None;
                        },
                    }
                    i += 1;
                }
                assert(comment_views(comments@) =~= Seq::new(
                    items@.len(),
                    |i: int| comment_of(items@[i])->0,
                ));
                Some(comments)
            },
            _ => None,
        }
    }
}

/// What is sent to make a comment.
#[derive(Debug, Clone, PartialEq, Eq)]
pub struct CommentOptions {
    pub body: String,
}

/// The JSON text of the options for a comment with this body: one object with
/// the one member `body`. `None` where the body cannot be written.
pub open spec fn options_json(body: Seq<char>) -> Option<Seq<char>> {
    match string_literal(body) {
        Some(literal) => Some("{\"body\":"@ + literal + "}"@),
        None => None,
    }
}

impl CommentOptions {
    /// The options as JSON text.
    pub fn to_json(&self) -> (written: Result<String, CallError>)
        ensures
            written matches Ok(json) ==> options_json(self.body@) == Some(json@),
            written matches Err(error) ==> options_json(self.body@) is None && error@
                == CallErrorView::Serialization,
    {
        match json_string(self.body.as_str()) {
            Ok(literal) => {
                let mut json: String = "{\"body\":".to_owned();
                json.append(literal.as_str());
                json.append("}");
                Ok(json)
            },
            Err(error) => Err(error),
        }
    }
}

/// The path of the comments on issue `number` of the repository `repo` of
/// `owner`. Owner and repository stand in it as they are given.
pub open spec fn comments_path(owner: Seq<char>, repo: Seq<char>, number: u64) -> Seq<char> {
    "/repos/"@ + owner + "/"@ + repo + "/issues/"@ + decimal(number as nat) + "/comments"@
}

/// The request that makes a comment: a `POST` to the path, with the UTF-8
/// bytes of the JSON text as its body.
pub open spec fn creation_request(path: Seq<char>, json: Seq<char>) -> RequestView {
    RequestView { method: Method::Post, path, body: Some(encode_utf8(json)) }
}

/// The request that lists comments: a `GET` of the path, followed by `?` and
/// the query where any option is set, and by nothing where none is.
pub open spec fn listing_request(path: Seq<char>, entries: Entries) -> RequestView {
    RequestView {
        method: Method::Get,
        path: if entries.len() == 0 {
            path
        } else {
            path + "?"@ + encoded_entries(entries)
        },
        body: None,
    }
}

/// What a result of reading one comment holds.
pub open spec fn comment_result(result: Result<Comment, CallError>) -> Result<
    CommentView,
    CallErrorView,
> {
    match result {
        Ok(comment) => Ok(comment@),
        Err(error) => Err(error@),
    }
}

/// What a result of reading a list of comments holds.
pub open spec fn comments_result(result: Result<Vec<Comment>, CallError>) -> Result<
    Seq<CommentView>,
    CallErrorView,
> {
    match result {
        Ok(comments) => Ok(comment_views(comments@)),
        Err(error) => Err(error@),
    }
}

/// What the reply to a request for one comment stands for: the comment that
/// its document describes; the error of the reply; or the failure to read a
/// comment from the document.
pub open spec fn comment_outcome(reply: Reply) -> Result<CommentView, CallErrorView> {
    match reply_outcome(reply) {
        Ok(json) => match comment_of(json) {
            Some(comment) => Ok(comment),
            None => Err(CallErrorView::Deserialization),
        },
        Err(error) => Err(error),
    }
}

/// What the reply to a request for a list of comments stands for: the comments
/// that its document lists; the error of the reply; or the failure to read
/// comments from the document.
pub open spec fn comments_outcome(reply: Reply) -> Result<Seq<CommentView>, CallErrorView> {
    match reply_outcome(reply) {
        Ok(json) => match comments_of(json) {
            Some(comments) => Ok(comments),
            None => Err(CallErrorView::Deserialization),
        },
        Err(error) => Err(error),
    }
}

/// A response with a status of failure stands for an API error that bears the
/// status and the message of its body, whether one comment or a list was asked
/// for; where the body holds no message, for the failure to read it. It never
/// stands for a comment, nor for an error of the transport.
pub proof fn lemma_failure_is_api_error(response: Response)
    requires
        is_failure(response.status),
    ensures
        comment_outcome(Ok(response)) == Err::<CommentView, CallErrorView>(
            failure_of(response.status, json_document(response.body@)),
        ),
        comments_outcome(Ok(response)) == Err::<Seq<CommentView>, CallErrorView>(
            failure_of(response.status, json_document(response.body@)),
        ),
        failure_of(response.status, json_document(response.body@)) == match json_document(
            response.body@,
        ) {
            Some(json) => match json.text_at("message"@) {
                Some(message) => CallErrorView::Api { status: response.status, message },
                None => CallErrorView::Deserialization,
            },
            None => CallErrorView::Deserialization,
        },
{
}

/// A response without a status of failure whose body is not JSON, or is JSON
/// of another shape than was asked for, stands for the failure to read it:
/// never for a comment or a list, whole or in part.
pub proof fn lemma_unreadable_success_is_an_error(response: Response)
    requires
        !is_failure(response.status),
    ensures
        json_document(response.body@) is None ==> comment_outcome(Ok(response)) == Err::<
            CommentView,
            CallErrorView,
        >(CallErrorView::Deserialization) && comments_outcome(Ok(response)) == Err::<
            Seq<CommentView>,
            CallErrorView,
        >(CallErrorView::Deserialization),
        json_document(response.body@) matches Some(json) && comment_of(json) is None
            ==> comment_outcome(Ok(response)) == Err::<CommentView, CallErrorView>(
            CallErrorView::Deserialization,
        ),
        json_document(response.body@) matches Some(json) && comments_of(json) is None
            ==> comments_outcome(Ok(response)) == Err::<Seq<CommentView>, CallErrorView>(
            CallErrorView::Deserialization,
        ),
{
}

/// An error of the client comes back as it is.
pub proof fn lemma_client_error_passes_through(error: CallError)
    ensures
        comment_outcome(Err(error)) == Err::<CommentView, CallErrorView>(error@),
        comments_outcome(Err(error)) == Err::<Seq<CommentView>, CallErrorView>(error@),
{
}

/// Reads the reply to a request for one comment.
pub fn read_comment(reply: Reply) -> (comment: Result<Comment, CallError>)
    ensures
        comment_result(comment) == comment_outcome(reply),
{
    match read_reply(reply) {
        Ok(json) => match Comment::from_json(&json) {
            Some(comment) => Ok(comment),
            None => Err(CallError::Deserialization),
        },
        Err(error) => Err(error),
    }
}

/// Reads the reply to a request for a list of comments.
pub fn read_comments(reply: Reply) -> (comments: Result<Vec<Comment>, CallError>)
    ensures
        comments_result(comments) == comments_outcome(reply),
{
    match read_reply(reply) {
        Ok(json) => match Comment::list_from_json(&json) {
            Some(comments) => Ok(comments),
            None => Err(CallError::Deserialization),
        },
        Err(error) => Err(error),
    }
}

/// A handle on the comments of one issue, bound to the client that carries its
/// calls.
pub struct Comments<'a, C> {
    github: &'a C,
    owner: String,
    repo: String,
    number: u64,
}

impl<'a, C> Comments<'a, C> {
    /// The client that carries the calls.
    pub closed spec fn client(&self) -> &'a C {
        self.github
    }

    /// The owner of the repository.
    pub closed spec fn owner(&self) -> Seq<char> {
        self.owner@
    }

    /// The name of the repository.
    pub closed spec fn repo(&self) -> Seq<char> {
        self.repo@
    }

    /// The number of the issue.
    pub closed spec fn number(&self) -> u64 {
        self.number
    }

    /// The path of these comments below the API root.
    pub open spec fn location(&self) -> Seq<char> {
        comments_path(self.owner(), self.repo(), self.number())
    }

    /// A handle on the comments of issue `number` of the repository `repo` of
    /// `owner`.
    pub fn new(github: &'a C, owner: &str, repo: &str, number: u64) -> (comments: Comments<'a, C>)
        ensures
            comments.client() == github,
            comments.owner() == owner@,
            comments.repo() == repo@,
            comments.number() == number,
    {
        Comments { github, owner: owner.to_owned(), repo: repo.to_owned(), number }
    }

    /// The path of these comments below the API root.
    pub fn path(&self) -> (path: String)
        ensures
            path@ == self.location(),
    {
        let mut path: String = "/repos/".to_owned();
        path.append(self.owner.as_str());
        path.append("/");
        path.append(self.repo.as_str());
        path.append("/issues/");
        let number: String = decimal_text(self.number);
        path.append(number.as_str());
        path.append("/comments");
        path
    }

    /// The request that makes the comment.
    pub fn create_request(&self, comment: &CommentOptions) -> (request: Result<Request, CallError>)
        ensures
            request matches Ok(post) ==> options_json(comment.body@) matches Some(json) && post@
                == creation_request(self.location(), json),
            request matches Err(error) ==> options_json(comment.body@) is None && error@
                == CallErrorView::Serialization,
    {
        match comment.to_json() {
            Ok(json) => Ok(
                Request {
                    method: Method::Post,
                    path: self.path(),
                    body: Some(json.as_str().as_bytes_vec()),
                },
            ),
            Err(error) => Err(error),
        }
    }

    /// The request that lists the comments which the options select.
    pub fn list_request(&self, options: &CommentListOptions) -> (request: Request)
        ensures
            request@ == listing_request(self.location(), options.entries()),
    {
        let mut uri: String = self.path();
        if let Some(query) = options.serialize() {
            uri.append("?");
            uri.append(query.as_str());
        }
        Request { method: Method::Get, path: uri, body: None }
    }
}

impl<'a, C: Fn(Request) -> Reply> Comments<'a, C> {
    /// Adds a comment to the issue and gives back the comment as the service
    /// recorded it.
    ///
    /// The client is called once, on the request that [`creation_request`]
    /// states, unless the comment cannot be written as JSON. What comes back
    /// is what [`comment_outcome`] makes of the client's reply.
    pub fn create(&self, comment: &CommentOptions) -> (created: Result<Comment, CallError>)
        requires
            forall|request: Request| call_requires(*self.client(), (request,)),
        ensures
            options_json(comment.body@) is None ==> comment_result(created) == Err::<
                CommentView,
                CallErrorView,
            >(CallErrorView::Serialization),
            options_json(comment.body@) matches Some(json) ==> exists|
                request: Request,
                reply: Reply,
            |
                request@ == creation_request(self.location(), json) && #[trigger] call_ensures(
                    *self.client(),
                    (request,),
                    reply,
                ) && comment_result(created) == comment_outcome(reply),
    {
        match self.create_request(comment) {
            Ok(request) => {
                let ghost sent = request;
                assert(call_requires(*self.client(), (sent,)));
                let reply: Reply = (self.github)(request);
                let ghost got = reply;
                let created = read_comment(reply);
                assert(call_ensures(*self.client(), (sent,), got));
                created
            },
            Err(error) => Err(error),
        }
    }

    /// Lists the comments on the issue which the options select, in the order
    /// in which the service gives them.
    ///
    /// The client is called once, on the request that [`listing_request`]
    /// states. What comes back is what [`comments_outcome`] makes of the
    /// client's reply.
    pub fn list(&self, options: &CommentListOptions) -> (listed: Result<Vec<Comment>, CallError>)
        requires
            forall|request: Request| call_requires(*self.client(), (request,)),
        ensures
            exists|request: Request, reply: Reply|
                request@ == listing_request(self.location(), options.entries())
                    && #[trigger] call_ensures(*self.client(), (request,), reply)
                    && comments_result(listed) == comments_outcome(reply),
    {
        let request: Request = self.list_request(options);
        let ghost sent = request;
        assert(call_requires(*self.client(), (sent,)));
        let reply: Reply = (self.github)(request);
        let ghost got = reply;
        let listed = read_comments(reply);
        assert(call_ensures(*self.client(), (sent,), got));
        listed
    }
}

} // verus!
