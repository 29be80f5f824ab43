//! What the routes of the sign-in service decide: which route a path names,
//! and what the address of a request carries.

use crate::text::str_equal;
use vstd::prelude::*;
use vstd::string::*;

verus! {

/// One name and value from the query of a request.
#[derive(Debug)]
pub struct UserIdentity {
    pub key: String,
    pub value: String,
}

/// The routes of the sign-in service.
#[derive(Debug, Clone, Copy, PartialEq, Eq, Structural)]
pub enum AuthRoute {
    Index,
    Login,
    Logout,
    Auth,
    GetIdentities,
    NotFound,
}

/// The route that `path` names.
pub open spec fn auth_route_of(path: Seq<char>) -> AuthRoute {
    if path == "/auth/"@ {
        AuthRoute::Index
    } else if path == "/auth/login/"@ {
        AuthRoute::Login
    } else if path == "/auth/logout/"@ {
        AuthRoute::Logout
    } else if path == "/auth/auth/"@ {
        AuthRoute::Auth
    } else if path == "/auth/get-identities/"@ {
        AuthRoute::GetIdentities
    } else {
        AuthRoute::NotFound
    }
}

/// The route that the path of a request names.
pub fn handle_auth(path: &str) -> (route: AuthRoute)
    ensures
        route == auth_route_of(path@),
{
    if str_equal(path, "/auth/") {
        AuthRoute::Index
    } else if str_equal(path, "/auth/login/") {
        AuthRoute::Login
    } else if str_equal(path, "/auth/logout/") {
        AuthRoute::Logout
    } else if str_equal(path, "/auth/auth/") {
        AuthRoute::Auth
    } else if str_equal(path, "/auth/get-identities/") {
        AuthRoute::GetIdentities
    } else {
        AuthRoute::NotFound
    }
}

/// The address of a request: the scheme and the host of the connection,
/// then the path and the query as the request gave them.
pub fn request_url(scheme: &str, host: &str, uri: &str) -> (url: String)
    ensures
        url@ == scheme@ + "://"@ + host@ + uri@,
{
    let mut url = scheme.to_owned();
    url.append("://");
    url.append(host);
    url.append(uri);
    url
}

/// The names and values that the query of the address `url` holds, decoded,
/// in their order; `None` for a text that is no address.
pub uninterp spec fn query_pairs_of(url: Seq<char>) -> Option<Seq<(Seq<char>, Seq<char>)>>;

/// `url::Url::parse`, then `query_pairs` on the address: the names and
/// values of its query, or `None` where the text does not parse.
#[verifier::external_body]
fn query_pairs(url: &str) -> (r: Option<Vec<(String, String)>>)
    ensures
        r.deep_view() == query_pairs_of(url@),
{
    match url::Url::parse(url) {
        Ok(parsed) => Some(
            parsed.query_pairs().map(|(key, value)| (key.into_owned(), value.into_owned())).collect(),
        ),
        Err(_) => None,
    }
}

/// The value of the last pair called `name`; empty where there is none.
pub open spec fn last_value(pairs: Seq<(Seq<char>, Seq<char>)>, name: Seq<char>) -> Seq<char>
    decreases pairs.len(),
{
    if pairs.len() == 0 {
        Seq::empty()
    } else if pairs.last().0 == name {
        pairs.last().1
    } else {
        last_value(pairs.drop_last(), name)
    }
}

/// The code and the state that a sign-in came back with: the values of the
/// last pairs called `code` and `state`, each empty where there is no such pair.
pub fn code_and_state(pairs: &Vec<(String, String)>) -> (r: (String, String))
    ensures
        r.0@ == last_value(pairs.deep_view(), "code"@),
        r.1@ == last_value(pairs.deep_view(), "state"@),
{
    let mut code = String::new();
    let mut state = String::new();
    let mut i: usize = 0;
    while i < pairs.len()
        invariant
            i <= pairs.len(),
            code@ == last_value(pairs.deep_view().take(i as int), "code"@),
            state@ == last_value(pairs.deep_view().take(i as int), "state"@),
        decreases pairs.len() - i,
    {
        proof {
            assert(pairs.deep_view().take(i + 1).drop_last() =~= pairs.deep_view().take(i as int));
            assert(pairs.deep_view().take(i + 1).last() == (pairs[i as int].0@, pairs[i as int].1@));
        }
        if str_equal(pairs[i].0.as_str(), "code") {
            code = pairs[i].1.clone();
        }
        if str_equal(pairs[i].0.as_str(), "state") {
            state = pairs[i].1.clone();
        }
        i += 1;
    }
    assert(pairs.deep_view().take(pairs.len() as int) =~= pairs.deep_view());
    (code, state)
}

/// The identities that the pairs of a query name: one for each pair, in
/// their order.
pub fn identities_of(pairs: &Vec<(String, String)>) -> (r: Vec<UserIdentity>)
    ensures
        r@.len() == pairs@.len(),
        forall|i: int|
            0 <= i < r@.len() ==> (#[trigger] r@[i]).key@ == pairs@[i].0@ && r@[i].value@
                == pairs@[i].1@,
{
    let mut repo_list: Vec<UserIdentity> = Vec::new();
    let mut i: usize = 0;
    while i < pairs.len()
        invariant
            i <= pairs.len(),
            repo_list@.len() == i,
            forall|j: int|
                0 <= j < i ==> (#[trigger] repo_list@[j]).key@ == pairs@[j].0@
                    && repo_list@[j].value@ == pairs@[j].1@,
        decreases pairs.len() - i,
    {
        repo_list.push(UserIdentity { key: pairs[i].0.clone(), value: pairs[i].1.clone() });
        i += 1;
    }
    repo_list
}

/// The views of a list of identities.
pub open spec fn identity_pairs(list: Seq<UserIdentity>) -> Seq<(Seq<char>, Seq<char>)> {
    Seq::new(list.len(), |i: int| (list[i].key@, list[i].value@))
}

/// The identities that the address of a request names: one for each pair of
/// its query. `None` where the text is no address.
pub fn get_identities(url: &str) -> (r: Option<Vec<UserIdentity>>)
    ensures
        match query_pairs_of(url@) {
            Some(pairs) => r is Some && identity_pairs(r->Some_0@) == pairs,
            None => r is None,
        },
{
    match query_pairs(url) {
        Some(pairs) => {
            let list = identities_of(&pairs);
            assert(identity_pairs(list@) =~= pairs.deep_view());
            Some(list)
        },
        None => None,
    }
}

/// The code and the state that the address of a request carries. `None`
/// where the text is no address.
pub fn auth_code_and_state(url: &str) -> (r: Option<(String, String)>)
    ensures
        match query_pairs_of(url@) {
            Some(pairs) => r is Some && r->Some_0.0@ == last_value(pairs, "code"@) && r->Some_0.1@
                == last_value(pairs, "state"@),
            None => r is None,
        },
{
    match query_pairs(url) {
        Some(pairs) => Some(code_and_state(&pairs)),
        None => None,
    }
}

} // verus!
