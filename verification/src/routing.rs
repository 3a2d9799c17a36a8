//! Which handler a request goes to, and whether it must carry the password.
use vstd::prelude::*;

use crate::config::compare_passwd;
use crate::response::{plain, Response};
use crate::text::{chars_of, has_char, lemma_split_once_char, same_chars, split_once, split_once_at};

verus! {

/// What a request asks for.
#[derive(Debug)]
pub enum Route {
    /// `GET /pull/<repo>`: the tree of a repository.
    PullRepo(String),
    /// `GET /keys/<project>`: the git token of a project.
    PullKey(String),
    /// `GET /getkeys`: the projects that have keys.
    AllKeys,
    /// `GET /getrepos`: the names of the repositories.
    AllRepos,
    /// `PUT .../update/<file>`: writes a file into a repository.
    UpdateFile(String),
    /// `PUT .../key/<token>`: stores a git key.
    AddKey(String),
    /// `POST /repo/new`: creates a repository.
    CreateDir,
    /// Anything else: nothing is done.
    Unmatched,
}

/// The view of a [`Route`].
pub enum RouteView {
    PullRepo(Seq<char>),
    PullKey(Seq<char>),
    AllKeys,
    AllRepos,
    UpdateFile(Seq<char>),
    AddKey(Seq<char>),
    CreateDir,
    Unmatched,
}

impl View for Route {
    type V = RouteView;

    open spec fn view(&self) -> RouteView {
        match self {
            Route::PullRepo(s) => RouteView::PullRepo(s@),
            Route::PullKey(s) => RouteView::PullKey(s@),
            Route::AllKeys => RouteView::AllKeys,
            Route::AllRepos => RouteView::AllRepos,
            Route::UpdateFile(s) => RouteView::UpdateFile(s@),
            Route::AddKey(s) => RouteView::AddKey(s@),
            Route::CreateDir => RouteView::CreateDir,
            Route::Unmatched => RouteView::Unmatched,
        }
    }
}

/// A routing decision: where a request goes, and whether the password must be
/// checked first. A protected route always asks for the check.
#[derive(Debug)]
pub struct Dispatch {
    authenticate: bool,
    route: Route,
}

impl Dispatch {
    /// A protected route is never reached without the password check.
    #[verifier::type_invariant]
    spec fn protected_routes_ask_for_password(self) -> bool {
        is_protected(self.route@) ==> self.authenticate
    }

    /// Whether the password must be checked before anything else is done.
    pub closed spec fn needs_password(self) -> bool {
        self.authenticate
    }

    /// The route the request goes to.
    pub closed spec fn target(self) -> RouteView {
        self.route@
    }

    /// Whether the password must be checked before anything else is done.
    pub fn authenticate(&self) -> (r: bool)
        ensures
            r == self.needs_password(),
    {
        self.authenticate
    }

    /// The route the request goes to.
    pub fn route(&self) -> (r: &Route)
        ensures
            r@ == self.target(),
    {
        &self.route
    }
}

/// The second of the pieces that `s.splitn(3, '/')` yields.
pub open spec fn segment1(s: Seq<char>) -> Option<Seq<char>> {
    match split_once(s, seq!['/']) {
        Some((_, rest)) => match split_once(rest, seq!['/']) {
            Some((a, _)) => Some(a),
            None => Some(rest),
        },
        None => None,
    }
}

/// The third of the pieces that `s.splitn(3, '/')` yields: all the rest.
pub open spec fn segment2(s: Seq<char>) -> Option<Seq<char>> {
    match split_once(s, seq!['/']) {
        Some((_, rest)) => match split_once(rest, seq!['/']) {
            Some((_, b)) => Some(b),
            None => None,
        },
        None => None,
    }
}

/// The third piece, or empty.
pub open spec fn segment2_or_empty(s: Seq<char>) -> Seq<char> {
    match segment2(s) {
        Some(x) => x,
        None => Seq::empty(),
    }
}

/// The route of a `GET`, read from the request target.
pub open spec fn get_route(path: Seq<char>) -> RouteView {
    let s = segment1(path);
    if s == Some("pull"@) {
        RouteView::PullRepo(segment2_or_empty(path))
    } else if s == Some("keys"@) {
        RouteView::PullKey(segment2_or_empty(path))
    } else if s == Some("getkeys"@) {
        RouteView::AllKeys
    } else if s == Some("getrepos"@) {
        RouteView::AllRepos
    } else {
        RouteView::Unmatched
    }
}

/// The route of a `PUT`, read from the validated path.
pub open spec fn put_route(new_path: Seq<char>) -> RouteView {
    let s = segment1(new_path);
    if s == Some("update"@) {
        RouteView::UpdateFile(segment2_or_empty(new_path))
    } else if s == Some("key"@) {
        RouteView::AddKey(segment2_or_empty(new_path))
    } else {
        RouteView::Unmatched
    }
}

/// The route of a `POST`, read from the validated path.
pub open spec fn post_route(new_path: Seq<char>) -> RouteView {
    if new_path == "/repo/new"@ {
        RouteView::CreateDir
    } else {
        RouteView::Unmatched
    }
}

/// Whether a request must carry the password, and where it goes.
pub open spec fn dispatch(method: Seq<char>, path: Seq<char>, new_path: Seq<char>) -> (
    bool,
    RouteView,
) {
    if method == "GET"@ {
        let r = get_route(path);
        (r is PullKey || r is AllKeys, r)
    } else if method == "PUT"@ {
        (true, put_route(new_path))
    } else if method == "POST"@ {
        (true, post_route(new_path))
    } else {
        (false, RouteView::Unmatched)
    }
}

/// Whether a route reads or changes keys or repositories on behalf of the
/// client, which only password holders may do.
pub open spec fn is_protected(r: RouteView) -> bool {
    ||| r is PullKey
    ||| r is AllKeys
    ||| r is UpdateFile
    ||| r is AddKey
    ||| r is CreateDir
}

/// Every request that reaches a protected route has its password checked first.
pub proof fn lemma_protected_routes_authenticate(
    method: Seq<char>,
    path: Seq<char>,
    new_path: Seq<char>,
)
    ensures
        is_protected(dispatch(method, path, new_path).1) ==> dispatch(method, path, new_path).0,
{
}

/// A `PUT` whose validated path is `/update/` followed by any text `f` writes
/// the file `f`: the whole rest, slashes included, and asks for the password.
pub proof fn lemma_update_keeps_whole_file_name(path: Seq<char>, f: Seq<char>)
    ensures
        dispatch("PUT"@, path, "/update/"@ + f) == (true, RouteView::UpdateFile(f)),
{
    reveal_strlit("PUT");
    reveal_strlit("GET");
    reveal_strlit("/update/");
    reveal_strlit("update");
    let word = "update"@;
    assert(!has_char(word, '/')) by {
        if has_char(word, '/') {
            let i = choose|i: int| 0 <= i < word.len() && word[i] == '/';
            assert(word[i] != '/');
        }
    }
    assert(!has_char(Seq::<char>::empty(), '/'));
    let rest = word + seq!['/'] + f;
    assert("/update/"@ + f =~= Seq::<char>::empty() + seq!['/'] + rest);
    lemma_split_once_char(Seq::<char>::empty(), '/', rest);
    lemma_split_once_char(word, '/', f);
    assert("PUT"@ != "GET"@) by {
        assert("PUT"@[0] != "GET"@[0]);
    }
}

/// The pieces of `cs.splitn(3, '/')` after the first, as far as they exist.
fn segments(cs: &[char]) -> (r: (Option<&[char]>, Option<&[char]>))
    ensures
        segment1(cs@) == match r.0 {
            Some(s) => Some(s@),
            None => None::<Seq<char>>,
        },
        segment2(cs@) == match r.1 {
            Some(s) => Some(s@),
            None => None::<Seq<char>>,
        },
{
    let slash = vec!['/'];
    assert(slash@ =~= seq!['/']);
    match split_once_at(cs, slash.as_slice()) {
        Some((_, rest)) => match split_once_at(rest, slash.as_slice()) {
            Some((a, b)) => (Some(a), Some(b)),
            None => (Some(rest), None),
        },
        None => (None, None),
    }
}

/// Whether `seg` holds exactly the characters of `word`.
fn segment_is(seg: Option<&[char]>, word: &str) -> (r: bool)
    ensures
        r == (match seg {
            Some(s) => Some(s@),
            None => None::<Seq<char>>,
        } == Some(word@)),
{
    match seg {
        Some(s) => {
            let w = chars_of(word);
            same_chars(s, w.as_slice())
        },
        None => false,
    }
}

/// The text of an optional segment, or empty.
fn segment_text(seg: Option<&[char]>) -> (r: String)
    ensures
        r@ == match seg {
            Some(s) => s@,
            None => Seq::<char>::empty(),
        },
{
    match seg {
        Some(s) => crate::text::string_of(s),
        None => String::new(),
    }
}

/// Decides where a request goes: `GET` requests by the segments of their
/// target, `PUT` and `POST` requests by the validated path; `GET` for keys,
/// and every `PUT` and `POST`, must carry the password.
pub fn route_request(method: &str, path: &str, new_path: &str) -> (r: Dispatch)
    ensures
        (r.needs_password(), r.target()) == dispatch(method@, path@, new_path@),
{
    let m = chars_of(method);
    if same_chars(m.as_slice(), chars_of("GET").as_slice()) {
        let p = chars_of(path);
        let (s1, s2) = segments(p.as_slice());
        let route = if segment_is(s1, "pull") {
            Route::PullRepo(segment_text(s2))
        } else if segment_is(s1, "keys") {
            Route::PullKey(segment_text(s2))
        } else if segment_is(s1, "getkeys") {
            Route::AllKeys
        } else if segment_is(s1, "getrepos") {
            Route::AllRepos
        } else {
            Route::Unmatched
        };
        let authenticate = match route {
            Route::PullKey(_) | Route::AllKeys => true,
            _ => false,
        };
        Dispatch { authenticate, route }
    } else if same_chars(m.as_slice(), chars_of("PUT").as_slice()) {
        let p = chars_of(new_path);
        let (s1, s2) = segments(p.as_slice());
        let route = if segment_is(s1, "update") {
            Route::UpdateFile(segment_text(s2))
        } else if segment_is(s1, "key") {
            Route::AddKey(segment_text(s2))
        } else {
            Route::Unmatched
        };
        Dispatch { authenticate: true, route }
    } else if same_chars(m.as_slice(), chars_of("POST").as_slice()) {
        let p = chars_of(new_path);
        let route = if same_chars(p.as_slice(), chars_of("/repo/new").as_slice()) {
            Route::CreateDir
        } else {
            Route::Unmatched
        };
        Dispatch { authenticate: true, route }
    } else {
        Dispatch { authenticate: false, route: Route::Unmatched }
    }
}

/// Lets a routed request through to its handler: where the route asks for the
/// password and the request's password is not the server's, the answer is 401
/// "Authentication failed". A protected handler is only ever reached with the
/// server's password. `expected` is read only when the route asks for the
/// password.
pub fn authorize(dispatch: Dispatch, passwd: &str, expected: &str) -> (r: Result<Route, Response>)
    ensures
        !dispatch.needs_password() || passwd@ == expected@ ==> (r matches Ok(route) && route@
            == dispatch.target()),
        dispatch.needs_password() && passwd@ != expected@ ==> (r matches Err(e) && e@ == plain(
            401,
            "Authentication failed"@,
        )),
        r matches Ok(route) && is_protected(route@) ==> passwd@ == expected@,
{
    proof {
        use_type_invariant(&dispatch);
    }
    if dispatch.authenticate {
        if let Err(e) = compare_passwd(passwd, expected) {
            return Err(e);
        }
    }
    let Dispatch { authenticate: _, route } = dispatch;
    Ok(route)
}

/// The 500 message sent when the handler of a route fails.
pub open spec fn failure_message(r: RouteView) -> Option<Seq<char>> {
    match r {
        RouteView::PullRepo(_) => Some("Failed to pull the requested repo"@),
        RouteView::PullKey(_) => Some("Failed to get the requested key"@),
        RouteView::AllKeys => Some("Failed to get all keys"@),
        RouteView::AllRepos => Some("Failed to get all repo names"@),
        RouteView::UpdateFile(_) => Some("Failed to write to file"@),
        RouteView::AddKey(_) => Some("Failed to add key to list"@),
        RouteView::CreateDir => Some("Failed to create dir/repo"@),
        RouteView::Unmatched => None,
    }
}

impl Route {
    /// The answer sent when this route's handler fails: 500 with a message
    /// that names what failed. No handler runs for an unmatched request.
    pub fn failure_response(&self) -> (r: Option<Response>)
        ensures
            match r {
                Some(resp) => failure_message(self@) matches Some(m) && resp@ == plain(500, m),
                None => failure_message(self@) is None,
            },
    {
        match self {
            Route::PullRepo(_) => Some(Response::plain(500, "Failed to pull the requested repo")),
            Route::PullKey(_) => Some(Response::plain(500, "Failed to get the requested key")),
            Route::AllKeys => Some(Response::plain(500, "Failed to get all keys")),
            Route::AllRepos => Some(Response::plain(500, "Failed to get all repo names")),
            Route::UpdateFile(_) => Some(Response::plain(500, "Failed to write to file")),
            Route::AddKey(_) => Some(Response::plain(500, "Failed to add key to list")),
            Route::CreateDir => Some(Response::plain(500, "Failed to create dir/repo")),
            Route::Unmatched => None,
        }
    }
}

} // verus!
