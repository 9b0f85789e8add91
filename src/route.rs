use vstd::prelude::*;

verus! {

/// The request methods the control surface tells apart.
#[derive(Debug, Clone, Copy, PartialEq, Eq, Structural)]
pub enum Method {
    Get,
    Post,
    Other,
}

/// What an inbound request asks of the hub.
#[derive(Debug, Clone, Copy, PartialEq, Eq, Structural)]
pub enum Route {
    /// A protocol upgrade: the connection becomes a subscriber.
    Upgrade,
    /// The landing page.
    Landing,
    /// Starts a new session, then serves the viewer page.
    Camera,
    /// Requests a still capture of the next frame.
    Capture,
    /// Exporting a session's stills: not implemented.
    Export,
    /// No route matches.
    NotFound,
}

/// The route of a request, from whether it asks for an upgrade, its method
/// and its path. An upgrade request is taken before any other routing.
pub open spec fn route_of(is_upgrade: bool, method: Method, path: Seq<char>) -> Route {
    if is_upgrade {
        Route::Upgrade
    } else if method == Method::Get && path == "/"@ {
        Route::Landing
    } else if method == Method::Get && path == "/camera"@ {
        Route::Camera
    } else if method == Method::Post && path == "/pic"@ {
        Route::Capture
    } else if method == Method::Post && path == "/export"@ {
        Route::Export
    } else {
        Route::NotFound
    }
}

/// The HTTP status of the answer to a request on a route.
pub open spec fn status_of(route: Route) -> u16 {
    match route {
        Route::Upgrade => 101,
        Route::Export => 501,
        Route::NotFound => 404,
        _ => 200,
    }
}

/// The static page served on a route, if any.
pub open spec fn page_of(route: Route) -> Option<Seq<char>> {
    match route {
        Route::Landing => Some("html/index.html"@),
        Route::Camera => Some("html/camera.html"@),
        Route::NotFound => Some("html/404.html"@),
        _ => None,
    }
}

/// Routes a request.
pub fn route(is_upgrade: bool, method: Method, path: &str) -> (r: Route)
    ensures
        r == route_of(is_upgrade, method, path@),
{
    if is_upgrade {
        return Route::Upgrade;
    }
    let p = path.to_owned();
    if method == Method::Get && p == "/".to_owned() {
        Route::Landing
    } else if method == Method::Get && p == "/camera".to_owned() {
        Route::Camera
    } else if method == Method::Post && p == "/pic".to_owned() {
        Route::Capture
    } else if method == Method::Post && p == "/export".to_owned() {
        Route::Export
    } else {
        Route::NotFound
    }
}

impl Route {
    /// The HTTP status of the answer.
    pub fn status(&self) -> (r: u16)
        ensures
            r == status_of(*self),
    {
        match self {
            Route::Upgrade => 101,
            Route::Export => 501,
            Route::NotFound => 404,
            _ => 200,
        }
    }

    /// The path of the static page to serve, if the route serves one.
    pub fn page(&self) -> (r: Option<String>)
        ensures
            match page_of(*self) {
                Some(p) => r is Some && r->0@ == p,
                None => r is None,
            },
    {
        match self {
            Route::Landing => Some("html/index.html".to_owned()),
            Route::Camera => Some("html/camera.html".to_owned()),
            Route::NotFound => Some("html/404.html".to_owned()),
            _ => None,
        }
    }
}

} // verus!
