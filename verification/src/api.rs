//! The server's interface: which request asks for what, and what a reply to
//! it says.
//!
//! Nothing here sends anything. For each call of the server there is a
//! function that builds the request and one that reads the reply; the caller
//! carries the one to the server and the other back.

use vstd::prelude::*;
use vstd::string::StringExecFns;

use crate::decode::{field_of, get_field, get_text, text_field};
use crate::error::{Error, Field};
use crate::request::{Param, param, Reply, ReplyView, Request, RequestView};
use crate::views::{views, views_push};

verus! {

/// A session with the server: where it is, who logged in, and the token that
/// the login gave.
#[derive(Debug, PartialEq, Eq)]
pub struct RawApi {
    host: String,
    user: String,
    password: String,
    token: String,
}

/// The contents of a `RawApi`.
pub struct RawApiView {
    pub host: Seq<char>,
    pub user: Seq<char>,
    pub password: Seq<char>,
    pub token: Seq<char>,
}

impl View for RawApi {
    type V = RawApiView;

    closed spec fn view(&self) -> RawApiView {
        RawApiView {
            host: self.host@,
            user: self.user@,
            password: self.password@,
            token: self.token@,
        }
    }
}

impl Clone for RawApi {
    fn clone(&self) -> (r: RawApi)
        ensures
            r@ == self@,
    {
        RawApi {
            host: self.host.clone(),
            user: self.user.clone(),
            password: self.password.clone(),
            token: self.token.clone(),
        }
    }
}

/// A request with the session's token as its last parameter.
pub open spec fn signed(
    path: Seq<char>,
    params: Seq<(Seq<char>, Seq<char>)>,
    token: Seq<char>,
) -> RequestView {
    RequestView { path, params: params.push(("token"@, token)) }
}

/// The request that logs a user in. It carries no token: it asks for one.
pub open spec fn login_request_of(user: Seq<char>, password: Seq<char>) -> RequestView {
    RequestView {
        path: "system/login"@,
        params: seq![("user"@, user), ("password"@, password)],
    }
}

/// The token in the reply to a login.
pub open spec fn token_of(reply: ReplyView) -> Result<Seq<char>, Error> {
    match reply {
        ReplyView::Failure => Err(Error::Transport),
        ReplyView::Answer(j) => match field_of(j, Field::Payload) {
            Ok(result) => text_field(result, Field::Token),
            Err(e) => Err(e),
        },
    }
}

/// The address of a path on a host.
pub open spec fn address_of(host: Seq<char>, path: Seq<char>) -> Seq<char> {
    "https://"@ + host + ":8080/json/"@ + path
}

/// A list of one parameter.
pub fn one_param(name: &str, value: String) -> (r: Vec<Param>)
    ensures
        views(r@) == seq![(name@, value@)],
{
    let mut v: Vec<Param> = Vec::new();
    v.push(param(name, value));
    assert(views(v@) =~= seq![(name@, value@)]);
    v
}

/// A list of two parameters.
pub fn two_params(name: &str, value: String, name2: &str, value2: String) -> (r: Vec<Param>)
    ensures
        views(r@) == seq![(name@, value@), (name2@, value2@)],
{
    let mut v: Vec<Param> = Vec::new();
    v.push(param(name, value));
    v.push(param(name2, value2));
    assert(views(v@) =~= seq![(name@, value@), (name2@, value2@)]);
    v
}

/// A list of three parameters.
pub fn three_params(
    name: &str,
    value: String,
    name2: &str,
    value2: String,
    name3: &str,
    value3: String,
) -> (r: Vec<Param>)
    ensures
        views(r@) == seq![(name@, value@), (name2@, value2@), (name3@, value3@)],
{
    let mut v: Vec<Param> = Vec::new();
    v.push(param(name, value));
    v.push(param(name2, value2));
    v.push(param(name3, value3));
    assert(views(v@) =~= seq![(name@, value@), (name2@, value2@), (name3@, value3@)]);
    v
}

impl RawApi {
    /// The address to which a request for `path` goes on `host`.
    pub fn address(host: &str, path: &str) -> (r: String)
        ensures
            r@ == address_of(host@, path@),
    {
        let mut out = String::from_str("https://");
        out.append(host);
        out.append(":8080/json/");
        out.append(path);
        out
    }

    /// The address to which a request of this session goes.
    pub fn url(&self, request: &Request) -> (r: String)
        ensures
            r@ == address_of(self@.host, request@.path),
    {
        RawApi::address(self.host.as_str(), request.path.as_str())
    }

    /// The request that logs `user` in.
    pub fn login_request(user: &str, password: &str) -> (r: Request)
        ensures
            r@ == login_request_of(user@, password@),
    {
        Request {
            path: "system/login".to_string(),
            params: two_params("user", user.to_string(), "password", password.to_string()),
        }
    }

    /// Opens a session from the reply to the login request. The reply has to
    /// hold a token, as text, inside its result.
    pub fn connect(host: &str, user: &str, password: &str, reply: Reply) -> (r: Result<
        RawApi,
        Error,
    >)
        ensures
            match r {
                Ok(api) => token_of(reply@) == Ok::<Seq<char>, Error>(api@.token) && api@
                    == (RawApiView {
                    host: host@,
                    user: user@,
                    password: password@,
                    token: api@.token,
                }),
                Err(e) => token_of(reply@) == Err::<Seq<char>, Error>(e),
            },
    {
        match reply {
            Reply::Failure => Err(Error::Transport),
            Reply::Answer(j) => {
                let result = get_field(&j, Field::Payload)?;
                let token = get_text(result, Field::Token)?;
                Ok(
                    RawApi {
                        host: host.to_string(),
                        user: user.to_string(),
                        password: password.to_string(),
                        token,
                    },
                )
            },
        }
    }

    /// A request of this session: the parameters given, then the token.
    pub fn generic_request(&self, request: &str, parameter: Option<Vec<Param>>) -> (r: Request)
        ensures
            r@ == signed(
                request@,
                match parameter {
                    Some(p) => views(p@),
                    None => Seq::empty(),
                },
                self@.token,
            ),
    {
        let mut params = match parameter {
            Some(p) => p,
            None => {
                let v: Vec<Param> = Vec::new();
                assert(views(v@) =~= Seq::empty());
                v
            },
        };
        let token = param("token", self.token.clone());
        proof {
            views_push(params@, token);
        }
        params.push(token);
        Request { path: request.to_string(), params }
    }
}

} // verus!
