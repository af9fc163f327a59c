use vstd::prelude::*;

verus! {

/// HTTP route metadata for a procedure: method, path, tags and the
/// documentation fields used for OpenAPI.
#[derive(Debug, Clone)]
pub struct Route {
    pub method: Option<String>,
    pub path: Option<String>,
    pub tags: Vec<String>,
    pub summary: Option<String>,
    pub description: Option<String>,
    pub deprecated: bool,
}

/// `true` when `r` carries no method, no path, no tags, no documentation and is
/// not deprecated.
pub open spec fn route_is_blank(r: Route) -> bool {
    &&& r.method is None
    &&& r.path is None
    &&& r.tags@.len() == 0
    &&& r.summary is None
    &&& r.description is None
    &&& !r.deprecated
}

/// `r` is the route for `method` at `path` with nothing else set.
pub open spec fn route_for(r: Route, method: Seq<char>, path: Seq<char>) -> bool {
    &&& r.method matches Some(m) && m@ == method
    &&& r.path matches Some(p) && p@ == path
    &&& r.tags@.len() == 0
    &&& r.summary is None
    &&& r.description is None
    &&& !r.deprecated
}

impl Route {
    /// A route with no metadata at all.
    pub fn new() -> (r: Route)
        ensures
            route_is_blank(r),
    {
        Route {
            method: None,
            path: None,
            tags: Vec::new(),
            summary: None,
            description: None,
            deprecated: false,
        }
    }

    fn with_method(method: &str, path: &str) -> (r: Route)
        ensures
            route_for(r, method@, path@),
    {
        Route {
            method: Some(method.to_owned()),
            path: Some(path.to_owned()),
            tags: Vec::new(),
            summary: None,
            description: None,
            deprecated: false,
        }
    }

    /// `GET path`.
    pub fn get(path: &str) -> (r: Route)
        ensures
            route_for(r, "GET"@, path@),
    {
        Route::with_method("GET", path)
    }

    /// `POST path`.
    pub fn post(path: &str) -> (r: Route)
        ensures
            route_for(r, "POST"@, path@),
    {
        Route::with_method("POST", path)
    }

    /// `PUT path`.
    pub fn put(path: &str) -> (r: Route)
        ensures
            route_for(r, "PUT"@, path@),
    {
        Route::with_method("PUT", path)
    }

    /// `DELETE path`.
    pub fn delete(path: &str) -> (r: Route)
        ensures
            route_for(r, "DELETE"@, path@),
    {
        Route::with_method("DELETE", path)
    }

    /// Appends a tag; every other field is kept.
    pub fn tag(self, tag: &str) -> (r: Route)
        ensures
            r.tags@.len() == self.tags@.len() + 1,
            r.tags@.take(self.tags@.len() as int) == self.tags@,
            r.tags@.last()@ == tag@,
            r.method == self.method,
            r.path == self.path,
            r.summary == self.summary,
            r.description == self.description,
            r.deprecated == self.deprecated,
    {
        let mut s = self;
        s.tags.push(tag.to_owned());
        s
    }

    /// Sets the summary; every other field is kept.
    pub fn summary(self, summary: &str) -> (r: Route)
        ensures
            r.summary matches Some(v) && v@ == summary@,
            r.method == self.method,
            r.path == self.path,
            r.tags == self.tags,
            r.description == self.description,
            r.deprecated == self.deprecated,
    {
        let mut s = self;
        s.summary = Some(summary.to_owned());
        s
    }

    /// Sets the description; every other field is kept.
    pub fn description(self, description: &str) -> (r: Route)
        ensures
            r.description matches Some(v) && v@ == description@,
            r.method == self.method,
            r.path == self.path,
            r.tags == self.tags,
            r.summary == self.summary,
            r.deprecated == self.deprecated,
    {
        let mut s = self;
        s.description = Some(description.to_owned());
        s
    }

    /// Marks the route deprecated; every other field is kept.
    pub fn deprecated(self) -> (r: Route)
        ensures
            r.deprecated,
            r.method == self.method,
            r.path == self.path,
            r.tags == self.tags,
            r.summary == self.summary,
            r.description == self.description,
    {
        let mut s = self;
        s.deprecated = true;
        s
    }
}

impl Default for Route {
    fn default() -> (r: Route)
        ensures
            route_is_blank(r),
    {
        Route::new()
    }
}

/// Extensible procedure metadata (currently carries nothing).
#[derive(Debug, Clone, Default)]
pub struct Meta {}

/// Declared error map of a procedure (currently carries nothing).
#[derive(Debug, Clone, Default)]
pub struct ErrorMap {}

/// Procedure metadata that middleware can read.
#[derive(Debug, Clone)]
pub struct ProcedureMeta {
    pub route: Route,
}

} // verus!
