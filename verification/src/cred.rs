//! Sessions: the login and logout answers, the admin guard, and the routes
//! that the session pages are mounted at.

use vstd::prelude::*;
use vstd::string::*;

verus! {

/// A user as the database stores it.
pub struct User {
    pub id: String,
    pub password: String,
    pub is_admin: bool,
}

/// A user with admin rights.
pub struct Admin(pub User);

/// The answer of the admin guard: the admin, or the status with which the
/// request is forwarded.
pub enum GuardOutcome {
    Success(Admin),
    Forward(u16),
}

/// The HTTP status for an unauthorized request.
pub const UNAUTHORIZED: u16 = 401;

/// The admin guard: a user with admin rights passes as an admin, any other
/// user is forwarded as unauthorized.
pub fn admin_from_user(user: User) -> (outcome: GuardOutcome)
    ensures
        user.is_admin ==> (outcome matches GuardOutcome::Success(a) && a.0 == user),
        !user.is_admin ==> (outcome matches GuardOutcome::Forward(status) && status
            == UNAUTHORIZED),
{
    if user.is_admin {
        GuardOutcome::Success(Admin(user))
    } else {
        GuardOutcome::Forward(UNAUTHORIZED)
    }
}

/// The admin page.
pub fn admin(_admin: &Admin) -> (page: String)
    ensures
        page@ == "You're an Admin!"@,
{
    String::from_str("You're an Admin!")
}

/// The name of the private cookie that holds the id of a signed-in user.
pub fn user_cookie() -> (name: String)
    ensures
        name@ == "user_id"@,
{
    String::from_str("user_id")
}

/// The session pages a redirect can lead to.
#[derive(PartialEq, Eq, Structural, Debug, Clone, Copy)]
pub enum Page {
    /// The greeting of a signed-in user.
    Index,
    /// The login form.
    LoginPage,
}

#[derive(PartialEq, Eq, Structural, Debug, Clone, Copy)]
pub enum FlashKind {
    Success,
    Error,
}

/// A redirect that carries a one-time message.
pub struct FlashRedirect {
    pub kind: FlashKind,
    pub to: Page,
    pub message: String,
}

/// The answer to a login form.
pub enum LoginOutcome {
    /// The cookie of the user is set to `user_id` and the user goes to `to`.
    SignedIn { user_id: String, to: Page },
    Refused(FlashRedirect),
}

/// A signed-in user who asks for the login page goes to the greeting.
pub fn login(_user: &User) -> (to: Page)
    ensures
        to == Page::Index,
{
    Page::Index
}

/// The answer to a login form, once the database has said whether the
/// username and password match: the user is signed in and greeted, or sent
/// back to the form with an error.
pub fn login_outcome(credentials_match: bool, username: &str) -> (outcome: LoginOutcome)
    ensures
        credentials_match ==> (outcome matches LoginOutcome::SignedIn { user_id, to } && user_id@
            == username@ && to == Page::Index),
        !credentials_match ==> (outcome matches LoginOutcome::Refused(f) && f.kind
            == FlashKind::Error && f.to == Page::LoginPage && f.message@
            == "Invalid username/password."@),
{
    if credentials_match {
        LoginOutcome::SignedIn { user_id: String::from_str(username), to: Page::Index }
    } else {
        LoginOutcome::Refused(
            FlashRedirect {
                kind: FlashKind::Error,
                to: Page::LoginPage,
                message: String::from_str("Invalid username/password."),
            },
        )
    }
}

/// The answer to a logout, once the cookie is removed.
pub fn logout() -> (f: FlashRedirect)
    ensures
        f.kind == FlashKind::Success,
        f.to == Page::LoginPage,
        f.message@ == "Successfully logged out."@,
{
    FlashRedirect {
        kind: FlashKind::Success,
        to: Page::LoginPage,
        message: String::from_str("Successfully logged out."),
    }
}

#[derive(PartialEq, Eq, Structural, Debug, Clone, Copy)]
pub enum Method {
    Get,
    Post,
}

/// A route: the handler's name, its method, its path and its rank where one
/// is given.
pub struct Route {
    pub name: String,
    pub method: Method,
    pub path: String,
    pub rank: Option<isize>,
}

pub struct RouteView {
    pub name: Seq<char>,
    pub method: Method,
    pub path: Seq<char>,
    pub rank: Option<isize>,
}

impl View for Route {
    type V = RouteView;

    open spec fn view(&self) -> RouteView {
        RouteView { name: self.name@, method: self.method, path: self.path@, rank: self.rank }
    }
}

/// The session routes, in the order they are mounted.
pub open spec fn route_table() -> Seq<RouteView> {
    seq![
        RouteView { name: "index"@, method: Method::Get, path: "/hi"@, rank: None },
        RouteView { name: "login"@, method: Method::Get, path: "/"@, rank: Some(3) },
        RouteView { name: "login_page"@, method: Method::Get, path: "/"@, rank: None },
        RouteView { name: "post_login"@, method: Method::Post, path: "/"@, rank: None },
        RouteView { name: "logout"@, method: Method::Post, path: "/logout"@, rank: None },
        RouteView { name: "admin"@, method: Method::Get, path: "/admin"@, rank: None },
    ]
}

fn route(name: &str, method: Method, path: &str, rank: Option<isize>) -> (r: Route)
    ensures
        r@ == (RouteView { name: name@, method, path: path@, rank }),
{
    Route { name: String::from_str(name), method, path: String::from_str(path), rank }
}

/// The session routes.
pub fn routes() -> (table: Vec<Route>)
    ensures
        table@.map_values(|r: Route| r@) == route_table(),
        table@.len() == 6,
        table@[0]@ == (RouteView { name: "index"@, method: Method::Get, path: "/hi"@, rank: None }),
        table@[1]@ == (RouteView { name: "login"@, method: Method::Get, path: "/"@, rank: Some(3) }),
        table@[2]@ == (RouteView {
            name: "login_page"@,
            method: Method::Get,
            path: "/"@,
            rank: None,
        }),
        table@[3]@ == (RouteView {
            name: "post_login"@,
            method: Method::Post,
            path: "/"@,
            rank: None,
        }),
        table@[4]@ == (RouteView {
            name: "logout"@,
            method: Method::Post,
            path: "/logout"@,
            rank: None,
        }),
        table@[5]@ == (RouteView { name: "admin"@, method: Method::Get, path: "/admin"@, rank: None }),
{
    let table = vec![
        route("index", Method::Get, "/hi", None),
        route("login", Method::Get, "/", Some(3)),
        route("login_page", Method::Get, "/", None),
        route("post_login", Method::Post, "/", None),
        route("logout", Method::Post, "/logout", None),
        route("admin", Method::Get, "/admin", None),
    ];
    assert(table@.map_values(|r: Route| r@) =~= route_table());
    assert(table@.map_values(|r: Route| r@)[0] == table@[0]@);
    assert(table@.map_values(|r: Route| r@)[1] == table@[1]@);
    assert(table@.map_values(|r: Route| r@)[2] == table@[2]@);
    assert(table@.map_values(|r: Route| r@)[3] == table@[3]@);
    assert(table@.map_values(|r: Route| r@)[4] == table@[4]@);
    assert(table@.map_values(|r: Route| r@)[5] == table@[5]@);
    table
}

} // verus!
