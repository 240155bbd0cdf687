//! The routing decisions of a handler that serves files from a directory.
use vstd::prelude::*;
use crate::method::Method;
use crate::request::Request;
use crate::response::{Response, StatusCode};
use crate::text::{chars_of, same_chars};

verus! {

/// What a request asks a file server for.
#[derive(Debug, PartialEq, Eq)]
pub enum Route {
    /// A fixed page: answered as found, with whatever the file holds.
    Page(String),
    /// A file named by the request path: not found when it cannot be read.
    File(String),
    /// Nothing this server serves.
    Unserved,
}

/// The route a request with method `m` and path `path` takes: `GET /` is
/// the index page, `GET /home` the hello page, any other `GET` the file the
/// path names, any other method nothing.
pub open spec fn route_of(m: Method, path: Seq<char>) -> (Option<Seq<char>>, Option<Seq<char>>) {
    if m != Method::GET {
        (None, None)
    } else if path == seq!['/'] {
        (Some("/index.html"@), None)
    } else if path == seq!['/', 'h', 'o', 'm', 'e'] {
        (Some("/hello.html"@), None)
    } else {
        (None, Some(path))
    }
}

impl View for Route {
    /// The page, or the file, that the route names.
    type V = (Option<Seq<char>>, Option<Seq<char>>);

    open spec fn view(&self) -> (Option<Seq<char>>, Option<Seq<char>>) {
        match self {
            Route::Page(p) => (Some(p@), None),
            Route::File(f) => (None, Some(f@)),
            Route::Unserved => (None, None),
        }
    }
}

/// A handler that serves files under a public directory.
#[derive(Debug)]
pub struct WebsiteHandler {
    public_path: String,
}

impl WebsiteHandler {
    /// A handler serving the files under `public_path`.
    pub fn new(public_path: String) -> (r: WebsiteHandler)
        ensures
            r.public_path_view() == public_path@,
    {
        WebsiteHandler { public_path }
    }

    pub closed spec fn public_path_view(&self) -> Seq<char> {
        self.public_path@
    }

    /// The directory served.
    pub fn public_path(&self) -> (r: &str)
        ensures
            r@ == self.public_path_view(),
    {
        self.public_path.as_str()
    }

    /// The route that `request` takes.
    pub fn route(&self, request: &Request) -> (r: Route)
        ensures
            r@ == route_of(request@.0, request@.1),
    {
        if *request.method() != Method::GET {
            return Route::Unserved;
        }
        let path = chars_of(request.path());
        let root: [char; 1] = ['/'];
        let home: [char; 5] = ['/', 'h', 'o', 'm', 'e'];
        assert(root@ =~= seq!['/']);
        assert(home@ =~= seq!['/', 'h', 'o', 'm', 'e']);
        if same_chars(path.as_slice(), root.as_slice()) {
            let page = "/index.html".to_owned();
            assert(page@ == "/index.html"@);
            Route::Page(page)
        } else if same_chars(path.as_slice(), home.as_slice()) {
            let page = "/hello.html".to_owned();
            assert(page@ == "/hello.html"@);
            Route::Page(page)
        } else {
            let file = request.path().to_owned();
            assert(file@ == request@.1);
            Route::File(file)
        }
    }

    /// Where on disk `file` (a path starting with `/`) is looked for: the
    /// public directory, a `/`, then `file`.
    pub fn file_path(&self, file: &str) -> (r: String)
        ensures
            r@ == self.public_path_view() + seq!['/'] + file@,
    {
        let mut out = self.public_path.clone();
        out.append("/");
        out.append(file);
        proof {
            reveal_strlit("/");
        }
        out
    }

    /// Whether `canonical`, a resolved path, lies under `root`, the resolved
    /// public directory: `root` must be a prefix of it that ends at a path
    /// component, so that the two are equal, or `root` ends with `/`, or a
    /// `/` follows it in `canonical`.
    pub fn is_within(root: &str, canonical: &str) -> (r: bool)
        ensures
            r == (root@.is_prefix_of(canonical@) && (canonical@.len() == root@.len() || (
            root@.len() > 0 && root@.last() == '/') || canonical@[root@.len() as int] == '/')),
    {
        let prefix = chars_of(root);
        let path = chars_of(canonical);
        if prefix.len() > path.len() {
            return false;
        }
        let mut i: usize = 0;
        while i < prefix.len()
            invariant
                prefix@ == root@,
                path@ == canonical@,
                root@.len() <= path@.len(),
                i <= root@.len(),
                forall|j: int| 0 <= j < i ==> root@[j] == path@[j],
            decreases root@.len() - i,
        {
            if prefix[i] != path[i] {
                assert(path@.subrange(0, root@.len() as int)[i as int] != root@[i as int]);
                return false;
            }
            i = i + 1;
        }
        assert(root@ =~= path@.subrange(0, root@.len() as int));
        let n = prefix.len();
        n == path.len() || (n > 0 && prefix[n - 1] == '/') || path[n] == '/'
    }

    /// The response for a route, given what reading its file gave (`None`
    /// when it could not be read; ignored for an unserved route).
    pub fn answer(route: &Route, content: Option<String>) -> (r: Response)
        ensures
            r.status_code() == match route {
                Route::Page(_) => StatusCode::Okay,
                Route::File(_) => if content is Some {
                    StatusCode::Okay
                } else {
                    StatusCode::NotFound
                },
                Route::Unserved => StatusCode::NotFound,
            },
            r.body() == match route {
                Route::Unserved => None,
                _ => content,
            },
    {
        match route {
            Route::Page(_) => Response::new(StatusCode::Okay, content),
            Route::File(_) => match content {
                Some(c) => Response::new(StatusCode::Okay, Some(c)),
                None => Response::new(StatusCode::NotFound, None),
            },
            Route::Unserved => Response::new(StatusCode::NotFound, None),
        }
    }
}

} // verus!
