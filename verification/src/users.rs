//! The users of the service, as its responses describe them.

use vstd::prelude::*;
use crate::json::Json;

verus! {

/// A user of the service.
#[derive(Debug, Clone, PartialEq, Eq)]
pub struct User {
    pub login: String,
    pub id: u64,
    pub avatar_url: String,
    pub gravatar_id: String,
    pub url: String,
    pub html_url: String,
    pub site_admin: bool,
}

/// What a [`User`] holds.
pub struct UserView {
    pub login: Seq<char>,
    pub id: u64,
    pub avatar_url: Seq<char>,
    pub gravatar_id: Seq<char>,
    pub url: Seq<char>,
    pub html_url: Seq<char>,
    pub site_admin: bool,
}

impl View for User {
    type V = UserView;

    open spec fn view(&self) -> UserView {
        UserView {
            login: self.login@,
            id: self.id,
            avatar_url: self.avatar_url@,
            gravatar_id: self.gravatar_id@,
            url: self.url@,
            html_url: self.html_url@,
            site_admin: self.site_admin,
        }
    }
}

/// The user that a document describes: an object in which every field of a
/// user stands under its name with a value of its type. Members of other
/// names are passed over. `None` where a field is missing or of another type.
pub open spec fn user_of(json: Json) -> Option<UserView> {
    if json.text_at("login"@) is Some && json.number_at("id"@) is Some && json.text_at(
        "avatar_url"@,
    ) is Some && json.text_at("gravatar_id"@) is Some && json.text_at("url"@) is Some
        && json.text_at("html_url"@) is Some && json.flag_at("site_admin"@) is Some {
        Some(
            UserView {
                login: json.text_at("login"@)->0,
                id: json.number_at("id"@)->0,
                avatar_url: json.text_at("avatar_url"@)->0,
                gravatar_id: json.text_at("gravatar_id"@)->0,
                url: json.text_at("url"@)->0,
                html_url: json.text_at("html_url"@)->0,
                site_admin: json.flag_at("site_admin"@)->0,
            },
        )
    } else {
        None
    }
}

impl User {
    /// Reads a user from the document that describes it.
    pub fn from_json(json: &Json) -> (user: Option<User>)
        ensures
            user matches Some(read) ==> user_of(*json) == Some(read@),
            user is None ==> user_of(*json) is None,
    {
        let login: String = match json.get_text("login") {
            Some(text) => text,
            None => return None,
        };
        let id: u64 = match json.get_number("id") {
            Some(number) => number,
            None => return None,
        };
        let avatar_url: String = match json.get_text("avatar_url") {
            Some(text) => text,
            None => return None,
        };
        let gravatar_id: String = match json.get_text("gravatar_id") {
            Some(text) => text,
            None => return None,
        };
        let url: String = match json.get_text("url") {
            Some(text) => text,
            None => return None,
        };
        let html_url: String = match json.get_text("html_url") {
            Some(text) => text,
            None => return None,
        };
        let site_admin: bool = match json.get_flag("site_admin") {
            Some(flag) => flag,
            None => return None,
        };
        Some(User { login, id, avatar_url, gravatar_id, url, html_url, site_admin })
    }
}

} // verus!
