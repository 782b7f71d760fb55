//! HTTP server: the queues shared between the thread that serves
//! connections and the thread that runs the handlers, the route table,
//! and the decisions taken on each request (URL splitting, static files,
//! content types, response headers).

use vstd::prelude::*;
use std::collections::HashMap;
use crate::fs::path::last_dot;
use crate::string::functions::{ends_with, replace, replace_first_seq, split, split_seq, starts_with, views};
use crate::strlist::owned;
use crate::text::{
    chars_of, decimal, decimal_string, find_from, find_from_exec, has_prefix, has_suffix,
    lemma_find_from, push_str, str_eq, str_upper, string_of_range, to_uppercase,
};

verus! {

broadcast use vstd::string::group_string_axioms;

/// HTTP Server configuration
pub struct ServerConfig {
    pub host: String,
    pub port: u16,
    pub cors_enabled: bool,
    pub cors_origin: String,
}

impl Clone for ServerConfig {
    fn clone(&self) -> (r: Self)
        ensures
            r == *self,
    {
        ServerConfig {
            host: self.host.clone(),
            port: self.port,
            cors_enabled: self.cors_enabled,
            cors_origin: self.cors_origin.clone(),
        }
    }
}

impl Default for ServerConfig {
    /// `127.0.0.1:8080`, with CORS allowed from any origin.
    fn default() -> (c: Self)
        ensures
            c.host@ == "127.0.0.1"@,
            c.port == 8080,
            c.cors_enabled,
            c.cors_origin@ == "*"@,
    {
        ServerConfig {
            host: owned("127.0.0.1"),
            port: 8080,
            cors_enabled: true,
            cors_origin: owned("*"),
        }
    }
}

impl ServerConfig {
    /// `host:port`.
    pub open spec fn address_text(&self) -> Seq<char> {
        self.host@ + ":"@ + decimal(self.port as nat)
    }

    /// The address the server listens on, `host:port`.
    pub fn address(&self) -> (r: String)
        ensures
            r@ == self.address_text(),
    {
        let mut r = self.host.clone();
        push_str(&mut r, ":");
        let p = decimal_string(self.port as u64);
        push_str(&mut r, p.as_str());
        r
    }
}

/// Pending request from background thread
#[derive(Clone, Debug)]
pub struct PendingRequest {
    pub request_id: u64,
    pub method: String,
    pub path: String,
    pub query: String,
    pub headers: HashMap<String, String>,
    pub body: String,
}

/// Response back to background thread
#[derive(Debug)]
pub struct PendingResponse {
    pub request_id: u64,
    pub status: u16,
    pub body: String,
    pub content_type: String,
}

impl Clone for PendingResponse {
    fn clone(&self) -> (r: Self)
        ensures
            r == *self,
    {
        PendingResponse {
            request_id: self.request_id,
            status: self.status,
            body: self.body.clone(),
            content_type: self.content_type.clone(),
        }
    }
}

/// The answer to a request that was waiting when the server stopped.
pub open spec fn is_shutdown_response(r: PendingResponse, request_id: u64) -> bool {
    &&& r.request_id == request_id
    &&& r.status == 503
    &&& r.body@ == "{\"error\":\"Server shutting down\"}"@
    &&& r.content_type@ == "application/json"@
}

/// A handler's response, with status 200 and JSON content unless given.
pub fn response_with_defaults(
    request_id: u64,
    body: String,
    status: Option<u16>,
    content_type: Option<String>,
) -> (r: PendingResponse)
    ensures
        r.request_id == request_id,
        r.body == body,
        r.status == (match status {
            Some(s) => s,
            None => 200,
        }),
        r.content_type@ == (match content_type {
            Some(t) => t@,
            None => "application/json"@,
        }),
{
    let status = match status {
        Some(s) => s,
        None => 200,
    };
    let content_type = match content_type {
        Some(t) => t,
        None => owned("application/json"),
    };
    PendingResponse { request_id, status, body, content_type }
}

/// The queues and flags shared by the server's threads.
pub struct ServerState {
    pending_requests: Vec<PendingRequest>,
    pending_responses: Vec<PendingResponse>,
    next_request_id: u64,
    running: bool,
}

impl ServerState {
    /// The requests waiting for a handler, oldest first.
    pub closed spec fn requests(&self) -> Seq<PendingRequest> {
        self.pending_requests@
    }

    /// The responses waiting to be sent, in submission order.
    pub closed spec fn responses(&self) -> Seq<PendingResponse> {
        self.pending_responses@
    }

    /// The id the next request gets.
    pub closed spec fn next_id(&self) -> u64 {
        self.next_request_id
    }

    pub closed spec fn spec_running(&self) -> bool {
        self.running
    }

    pub fn new() -> (s: Self)
        ensures
            s.requests().len() == 0,
            s.responses().len() == 0,
            s.next_id() == 1,
            !s.spec_running(),
    {
        ServerState {
            pending_requests: Vec::new(),
            pending_responses: Vec::new(),
            next_request_id: 1,
            running: false,
        }
    }

    /// Marks the server running; an error if it already was.
    pub fn start(&mut self) -> (r: Result<(), String>)
        ensures
            final(self).spec_running(),
            old(self).spec_running() <==> r is Err,
            r matches Err(e) ==> e@ == "Server already running"@,
            final(self).requests() == old(self).requests(),
            final(self).responses() == old(self).responses(),
            final(self).next_id() == old(self).next_id(),
    {
        if self.running {
            return Err(owned("Server already running"));
        }
        self.running = true;
        Ok(())
    }

    /// Marks the server stopped.
    pub fn stop(&mut self)
        ensures
            !final(self).spec_running(),
            final(self).requests() == old(self).requests(),
            final(self).responses() == old(self).responses(),
            final(self).next_id() == old(self).next_id(),
    {
        self.running = false;
    }

    pub fn is_running(&self) -> (b: bool)
        ensures
            b == self.spec_running(),
    {
        self.running
    }

    /// The id the next request gets.
    pub fn next_request_id(&self) -> (id: u64)
        ensures
            id == self.next_id(),
    {
        self.next_request_id
    }

    /// Queues a request under the next id, which it returns.
    pub fn enqueue_request(
        &mut self,
        method: String,
        path: String,
        query: String,
        headers: HashMap<String, String>,
        body: String,
    ) -> (id: u64)
        requires
            old(self).next_id() < u64::MAX,
        ensures
            id == old(self).next_id(),
            final(self).next_id() == id + 1,
            final(self).requests() == old(self).requests().push(
                (PendingRequest { request_id: id, method, path, query, headers, body }),
            ),
            final(self).responses() == old(self).responses(),
            final(self).spec_running() == old(self).spec_running(),
    {
        let id = self.next_request_id;
        self.next_request_id = id + 1;
        self.pending_requests.push(PendingRequest { request_id: id, method, path, query, headers, body });
        id
    }

    /// Takes the oldest waiting request.
    pub fn poll_request(&mut self) -> (r: Option<PendingRequest>)
        ensures
            old(self).requests().len() == 0 ==> r is None && final(self).requests() == old(
                self,
            ).requests(),
            old(self).requests().len() > 0 ==> r == Some(old(self).requests()[0])
                && final(self).requests() == old(self).requests().drop_first(),
            final(self).responses() == old(self).responses(),
            final(self).next_id() == old(self).next_id(),
            final(self).spec_running() == old(self).spec_running(),
    {
        if self.pending_requests.len() == 0 {
            return None;
        }
        let r = self.pending_requests.remove(0);
        proof {
            assert(self.pending_requests@ =~= old(self).pending_requests@.drop_first());
        }
        Some(r)
    }

    /// Queues a handler's response.
    pub fn submit_response(&mut self, response: PendingResponse)
        ensures
            final(self).responses() == old(self).responses().push(response),
            final(self).requests() == old(self).requests(),
            final(self).next_id() == old(self).next_id(),
            final(self).spec_running() == old(self).spec_running(),
    {
        self.pending_responses.push(response);
    }

    /// Takes the first queued response for `request_id`, if any.
    pub fn take_response(&mut self, request_id: u64) -> (r: Option<PendingResponse>)
        ensures
            match r {
                Some(resp) => exists|i: int|
                    0 <= i < old(self).responses().len() && old(self).responses()[i] == resp
                        && resp.request_id == request_id && (forall|j: int|
                        0 <= j < i ==> (#[trigger] old(self).responses()[j]).request_id
                            != request_id) && final(self).responses() == old(
                        self,
                    ).responses().remove(i),
                None => (forall|j: int|
                    0 <= j < old(self).responses().len() ==> (#[trigger] old(
                        self,
                    ).responses()[j]).request_id != request_id) && final(self).responses() == old(
                    self,
                ).responses(),
            },
            final(self).requests() == old(self).requests(),
            final(self).next_id() == old(self).next_id(),
            final(self).spec_running() == old(self).spec_running(),
    {
        let mut i: usize = 0;
        while i < self.pending_responses.len()
            invariant
                i <= self.pending_responses.len(),
                self.pending_responses@ == old(self).pending_responses@,
                self.pending_requests@ == old(self).pending_requests@,
                self.next_request_id == old(self).next_request_id,
                self.running == old(self).running,
                forall|j: int|
                    0 <= j < i ==> (#[trigger] self.pending_responses@[j]).request_id != request_id,
            decreases self.pending_responses.len() - i,
        {
            if self.pending_responses[i].request_id == request_id {
                let resp = self.pending_responses.remove(i);
                proof {
                    assert(old(self).responses()[i as int] == resp);
                    assert(self.pending_responses@ =~= old(self).pending_responses@.remove(i as int));
                }
                return Some(resp);
            }
            i = i + 1;
        }
        None
    }

    /// One look for the response to `request_id`: the response when one is
    /// queued; else, when the server has stopped, the shutdown answer; else
    /// nothing yet.
    pub fn await_response(&mut self, request_id: u64) -> (r: Option<PendingResponse>)
        ensures
            final(self).requests() == old(self).requests(),
            final(self).next_id() == old(self).next_id(),
            final(self).spec_running() == old(self).spec_running(),
            (exists|i: int|
                0 <= i < old(self).responses().len() && (#[trigger] old(self).responses()[i]).request_id
                    == request_id) ==> (exists|i: int|
                0 <= i < old(self).responses().len() && r == Some(old(self).responses()[i])
                    && old(self).responses()[i].request_id == request_id && (forall|j: int|
                    0 <= j < i ==> (#[trigger] old(self).responses()[j]).request_id != request_id)
                    && final(self).responses() == old(self).responses().remove(i)),
            !(exists|i: int|
                0 <= i < old(self).responses().len() && (#[trigger] old(self).responses()[i]).request_id
                    == request_id) ==> final(self).responses() == old(self).responses() && (if old(
                self,
            ).spec_running() {
                r is None
            } else {
                (r matches Some(resp) && is_shutdown_response(resp, request_id))
            }),
    {
        match self.take_response(request_id) {
            Some(resp) => Some(resp),
            None => {
                if !self.running {
                    Some(
                        PendingResponse {
                            request_id,
                            status: 503,
                            body: owned("{\"error\":\"Server shutting down\"}"),
                            content_type: owned("application/json"),
                        },
                    )
                } else {
                    None
                }
            },
        }
    }
}

/// A route pattern segment matches a path segment when it is a parameter
/// (`:name`), a wildcard (`*...`) or the same text.
pub open spec fn segment_matches(pattern: Seq<char>, segment: Seq<char>) -> bool {
    (pattern.len() > 0 && (pattern[0] == ':' || pattern[0] == '*')) || pattern == segment
}

/// Simple route pattern matching: the same path, or as many `/`-separated
/// segments, each matching.
pub open spec fn route_matches(pattern: Seq<char>, path: Seq<char>) -> bool {
    pattern == path || {
        let pp = split_seq(pattern, "/"@);
        let rp = split_seq(path, "/"@);
        pp.len() == rp.len() && forall|i: int| 0 <= i < pp.len() ==> segment_matches(pp[i], rp[i])
    }
}

/// Simple route pattern matching
pub fn match_route(pattern: &str, path: &str) -> (b: bool)
    ensures
        b == route_matches(pattern@, path@),
{
    if str_eq(pattern, path) {
        return true;
    }
    let pattern_parts = split(pattern, "/");
    let path_parts = split(path, "/");
    if pattern_parts.len() != path_parts.len() {
        return false;
    }
    let ghost pp = views(pattern_parts@);
    let ghost rp = views(path_parts@);
    let mut i: usize = 0;
    while i < pattern_parts.len()
        invariant
            pp == views(pattern_parts@),
            rp == views(path_parts@),
            pp == split_seq(pattern@, "/"@),
            rp == split_seq(path@, "/"@),
            pattern@ != path@,
            pattern_parts.len() == path_parts.len(),
            i <= pattern_parts.len(),
            forall|k: int| 0 <= k < i ==> segment_matches(#[trigger] pp[k], rp[k]),
        decreases pattern_parts.len() - i,
    {
        let p = chars_of(pattern_parts[i].as_str());
        let wild = p.len() > 0 && (p[0] == ':' || p[0] == '*');
        if !wild && !str_eq(pattern_parts[i].as_str(), path_parts[i].as_str()) {
            proof {
                assert(pp[i as int] == pattern_parts@[i as int]@);
                assert(rp[i as int] == path_parts@[i as int]@);
                assert(!segment_matches(pp[i as int], rp[i as int]));
            }
            return false;
        }
        proof {
            assert(pp[i as int] == pattern_parts@[i as int]@);
            assert(rp[i as int] == path_parts@[i as int]@);
        }
        i = i + 1;
    }
    true
}

/// What follows the last `.` of `path` (all of it when it has none).
pub open spec fn after_last_dot(path: Seq<char>) -> Seq<char> {
    let i = last_dot(path);
    if i < 0 {
        path
    } else {
        path.subrange(i + 1, path.len() as int)
    }
}

/// The MIME type for a file extension.
pub open spec fn content_type_for(ext: Seq<char>) -> Seq<char> {
    if ext == "html"@ || ext == "htm"@ {
        "text/html"@
    } else if ext == "css"@ {
        "text/css"@
    } else if ext == "js"@ {
        "application/javascript"@
    } else if ext == "json"@ {
        "application/json"@
    } else if ext == "png"@ {
        "image/png"@
    } else if ext == "jpg"@ || ext == "jpeg"@ {
        "image/jpeg"@
    } else if ext == "gif"@ {
        "image/gif"@
    } else if ext == "svg"@ {
        "image/svg+xml"@
    } else if ext == "ico"@ {
        "image/x-icon"@
    } else if ext == "txt"@ {
        "text/plain"@
    } else if ext == "xml"@ {
        "application/xml"@
    } else if ext == "pdf"@ {
        "application/pdf"@
    } else {
        "application/octet-stream"@
    }
}

/// What follows the last `.` of the path.
fn extension_text(path: &str) -> (r: String)
    ensures
        r@ == after_last_dot(path@),
{
    let v = chars_of(path);
    let mut i: usize = v.len();
    proof {
        assert(v@.take(v.len() as int) =~= v@);
    }
    while i > 0
        invariant
            i <= v.len(),
            v@ == path@,
            last_dot(v@.take(i as int)) == last_dot(v@),
        decreases i,
    {
        proof {
            assert(v@.take(i as int).drop_last() =~= v@.take(i - 1));
        }
        if v[i - 1] == '.' {
            return string_of_range(&v, i, v.len());
        }
        i = i - 1;
    }
    proof {
        assert(v@.take(0) =~= Seq::<char>::empty());
        assert(v@.subrange(0, v@.len() as int) =~= v@);
    }
    string_of_range(&v, 0, v.len())
}

/// Get content type
pub fn get_content_type(path: &str) -> (r: &'static str)
    ensures
        r@ == content_type_for(after_last_dot(path@)),
{
    let e = extension_text(path);
    let ext = e.as_str();
    if str_eq(ext, "html") || str_eq(ext, "htm") {
        "text/html"
    } else if str_eq(ext, "css") {
        "text/css"
    } else if str_eq(ext, "js") {
        "application/javascript"
    } else if str_eq(ext, "json") {
        "application/json"
    } else if str_eq(ext, "png") {
        "image/png"
    } else if str_eq(ext, "jpg") || str_eq(ext, "jpeg") {
        "image/jpeg"
    } else if str_eq(ext, "gif") {
        "image/gif"
    } else if str_eq(ext, "svg") {
        "image/svg+xml"
    } else if str_eq(ext, "ico") {
        "image/x-icon"
    } else if str_eq(ext, "txt") {
        "text/plain"
    } else if str_eq(ext, "xml") {
        "application/xml"
    } else if str_eq(ext, "pdf") {
        "application/pdf"
    } else {
        "application/octet-stream"
    }
}

/// The file that serves `path` from the directory mapped to `url_prefix`:
/// the prefix replaced by the directory, and `index.html` appended to a
/// path that ends with `/`; `None` when the path does not start with the
/// prefix.
pub open spec fn static_file_for(path: Seq<char>, url_prefix: Seq<char>, dir_path: Seq<char>) -> Option<
    Seq<char>,
> {
    if has_prefix(path, url_prefix) {
        let f = replace_first_seq(path, url_prefix, dir_path);
        Some(
            if has_suffix(f, "/"@) {
                f + "index.html"@
            } else {
                f
            },
        )
    } else {
        None
    }
}

/// The file that serves `path` from the directory mapped to `url_prefix`.
pub fn static_file_path(path: &str, url_prefix: &str, dir_path: &str) -> (r: Option<String>)
    ensures
        match r {
            Some(f) => static_file_for(path@, url_prefix@, dir_path@) == Some(f@),
            None => static_file_for(path@, url_prefix@, dir_path@) is None,
        },
{
    if !starts_with(path, url_prefix) {
        return None;
    }
    let mut f = replace(path, url_prefix, dir_path);
    if ends_with(f.as_str(), "/") {
        push_str(&mut f, "index.html");
    }
    Some(f)
}

/// No URL prefix is mounted twice.
pub open spec fn mounts_distinct(es: Seq<(Seq<char>, Seq<char>)>) -> bool {
    forall|i: int, j: int|
        0 <= i < j < es.len() ==> (#[trigger] es[i]).0 != (#[trigger] es[j]).0
}

/// The mounts after serving `url_prefix` from `dir_path`: a prefix already
/// mounted gets the new directory in its place, a new prefix goes last.
pub open spec fn with_mount(
    es: Seq<(Seq<char>, Seq<char>)>,
    url_prefix: Seq<char>,
    dir_path: Seq<char>,
) -> Seq<(Seq<char>, Seq<char>)> {
    if exists|i: int| 0 <= i < es.len() && (#[trigger] es[i]).0 == url_prefix {
        es.map_values(
            |m: (Seq<char>, Seq<char>)|
                if m.0 == url_prefix {
                    (url_prefix, dir_path)
                } else {
                    m
                },
        )
    } else {
        es.push((url_prefix, dir_path))
    }
}

/// The files that may serve `path`: one for each mount whose prefix the
/// path starts with, in mount order.
pub open spec fn served_files(es: Seq<(Seq<char>, Seq<char>)>, path: Seq<char>) -> Seq<Seq<char>> {
    es.filter(|m: (Seq<char>, Seq<char>)| has_prefix(path, m.0)).map_values(
        |m: (Seq<char>, Seq<char>)| static_file_for(path, m.0, m.1)->0,
    )
}

/// The directories that static files are served from, by URL prefix, at
/// most one per prefix, in the order they were added.
pub struct StaticMounts {
    mounts: Vec<(String, String)>,
}

impl StaticMounts {
    /// The URL prefix and directory of each mount.
    pub closed spec fn entries(&self) -> Seq<(Seq<char>, Seq<char>)> {
        self.mounts@.map_values(|m: (String, String)| (m.0@, m.1@))
    }

    pub open spec fn wf(&self) -> bool {
        mounts_distinct(self.entries())
    }

    pub fn new() -> (m: Self)
        ensures
            m.wf(),
            m.entries().len() == 0,
    {
        StaticMounts { mounts: Vec::new() }
    }

    /// Serves `url_prefix` from `dir_path`, replacing the directory of a
    /// prefix already mounted.
    pub fn add(&mut self, url_prefix: &str, dir_path: &str)
        requires
            old(self).wf(),
        ensures
            final(self).wf(),
            final(self).entries() == with_mount(old(self).entries(), url_prefix@, dir_path@),
    {
        let ghost old_e = self.entries();
        let ghost f = |m: (Seq<char>, Seq<char>)|
            if m.0 == url_prefix@ {
                (url_prefix@, dir_path@)
            } else {
                m
            };
        let mut i: usize = 0;
        let mut found = false;
        while i < self.mounts.len()
            invariant
                i <= self.mounts.len(),
                self.mounts@.len() == old(self).mounts@.len(),
                old_e == old(self).entries(),
                f == (|m: (Seq<char>, Seq<char>)|
                    if m.0 == url_prefix@ {
                        (url_prefix@, dir_path@)
                    } else {
                        m
                    }),
                found <==> exists|j: int| 0 <= j < i && (#[trigger] old_e[j]).0 == url_prefix@,
                forall|j: int|
                    0 <= j < self.mounts@.len() ==> (#[trigger] self.entries()[j]) == if j < i {
                        f(old_e[j])
                    } else {
                        old_e[j]
                    },
            decreases self.mounts.len() - i,
        {
            proof {
                assert(old_e[i as int] == (old(self).mounts@[i as int].0@, old(self).mounts@[i as int].1@));
                assert(self.entries()[i as int] == (self.mounts@[i as int].0@, self.mounts@[i as int].1@));
            }
            if str_eq(self.mounts[i].0.as_str(), url_prefix) {
                let ghost before = self.entries();
                let m = self.mounts.remove(i);
                self.mounts.insert(i, (m.0, owned(dir_path)));
                proof {
                    assert forall|j: int| 0 <= j < self.mounts@.len() implies (#[trigger] self.entries()[j])
                        == if j < i + 1 {
                        f(old_e[j])
                    } else {
                        old_e[j]
                    } by {
                        if j != i {
                            assert(self.entries()[j] == before[j]);
                        }
                    }
                }
                found = true;
            }
            i = i + 1;
        }
        if !found {
            let ghost before = self.entries();
            proof {
                assert forall|j: int| 0 <= j < before.len() implies before[j] == old_e[j] by {
                    if old_e[j].0 == url_prefix@ {
                        assert(exists|k: int| 0 <= k < i && (#[trigger] old_e[k]).0 == url_prefix@);
                    }
                }
                assert(before =~= old_e);
            }
            self.mounts.push((owned(url_prefix), owned(dir_path)));
            proof {
                assert(self.entries() =~= old_e.push((url_prefix@, dir_path@)));
                assert forall|a: int, b: int|
                    0 <= a < b < self.entries().len() implies (#[trigger] self.entries()[a]).0
                    != (#[trigger] self.entries()[b]).0 by {
                    if b == old_e.len() {
                        assert(old_e[a].0 != url_prefix@);
                    } else {
                        assert(old_e[a].0 != old_e[b].0);
                    }
                }
            }
        } else {
            proof {
                assert(self.entries() =~= old_e.map_values(f));
                assert forall|a: int, b: int|
                    0 <= a < b < self.entries().len() implies (#[trigger] self.entries()[a]).0
                    != (#[trigger] self.entries()[b]).0 by {
                    assert(old_e[a].0 != old_e[b].0);
                }
            }
        }
    }

    /// The files that may serve `path`, one for each mount whose prefix it
    /// starts with, in mount order.
    pub fn candidates(&self, path: &str) -> (files: Vec<String>)
        ensures
            files@.map_values(|f: String| f@) == served_files(self.entries(), path@),
    {
        let ghost es = self.entries();
        let mut files: Vec<String> = Vec::new();
        let mut i: usize = 0;
        proof {
            assert(es.take(0).filter(|m: (Seq<char>, Seq<char>)| has_prefix(path@, m.0)) =~= Seq::<
                (Seq<char>, Seq<char>),
            >::empty());
        }
        while i < self.mounts.len()
            invariant
                i <= self.mounts.len(),
                es == self.entries(),
                es.len() == self.mounts@.len(),
                files@.map_values(|f: String| f@) == served_files(es.take(i as int), path@),
            decreases self.mounts.len() - i,
        {
            proof {
                assert(es[i as int] == (self.mounts@[i as int].0@, self.mounts@[i as int].1@));
                assert(es.take(i + 1) =~= es.take(i as int).push(es[i as int]));
                es.take(i as int).lemma_filter_push(es[i as int], |m: (Seq<char>, Seq<char>)| has_prefix(path@, m.0));
            }
            let ghost before = files@;
            match static_file_path(path, self.mounts[i].0.as_str(), self.mounts[i].1.as_str()) {
                Some(f) => {
                    files.push(f);
                    proof {
                        assert(files@.map_values(|f: String| f@) =~= before.map_values(|f: String| f@).push(f@));
                    }
                },
                None => {},
            }
            i = i + 1;
        }
        proof {
            assert(es.take(self.mounts.len() as int) =~= es);
        }
        files
    }
}

/// The path and the query of a request URL, split at the first `?`.
pub open spec fn url_parts(url: Seq<char>) -> (Seq<char>, Seq<char>) {
    match find_from(url, "?"@, 0) {
        Some(i) => (url.subrange(0, i), url.subrange(i + 1, url.len() as int)),
        None => (url, Seq::empty()),
    }
}

/// Splits a request URL into its path and its query.
pub fn split_url(url: &str) -> (r: (String, String))
    ensures
        (r.0@, r.1@) == url_parts(url@),
{
    let v = chars_of(url);
    let q = chars_of("?");
    proof {
        reveal_strlit("?");
        lemma_find_from(v@, q@, 0);
    }
    match find_from_exec(&v, &q, 0) {
        Some(i) => {
            proof {
                assert(q@.len() == 1);
                assert(crate::text::occurs_at(v@, q@, i as int));
                assert(i + 1 <= v@.len());
            }
            let n = v.len();
            assert(i < n);
            (string_of_range(&v, 0, i), string_of_range(&v, i + 1, n))
        },
        None => {
            proof {
                assert(v@.subrange(0, v@.len() as int) =~= v@);
            }
            (string_of_range(&v, 0, v.len()), String::new())
        },
    }
}

/// The views of a list of header pairs.
pub open spec fn header_views(h: Seq<(String, String)>) -> Seq<(Seq<char>, Seq<char>)> {
    h.map_values(|p: (String, String)| (p.0@, p.1@))
}

/// The headers of a response: its content type and, when CORS is
/// enabled, the allowed origin and, for handler responses (`full`), the
/// allowed methods and headers.
pub open spec fn response_header_list(
    config: ServerConfig,
    content_type: Seq<char>,
    full: bool,
) -> Seq<(Seq<char>, Seq<char>)> {
    let base = seq![("Content-Type"@, content_type)];
    if !config.cors_enabled {
        base
    } else if !full {
        base.push(("Access-Control-Allow-Origin"@, config.cors_origin@))
    } else {
        base.push(("Access-Control-Allow-Origin"@, config.cors_origin@)).push(
            ("Access-Control-Allow-Methods"@, "GET, POST, PUT, DELETE, OPTIONS"@),
        ).push(("Access-Control-Allow-Headers"@, "Content-Type, Authorization"@))
    }
}

/// The headers sent with a response: for a handler's response (`full`)
/// or a static file.
pub fn response_headers(config: &ServerConfig, content_type: &str, full: bool) -> (r: Vec<
    (String, String),
>)
    ensures
        header_views(r@) == response_header_list(*config, content_type@, full),
{
    let mut r: Vec<(String, String)> = Vec::new();
    r.push((owned("Content-Type"), owned(content_type)));
    if config.cors_enabled {
        r.push((owned("Access-Control-Allow-Origin"), config.cors_origin.clone()));
        if full {
            r.push((owned("Access-Control-Allow-Methods"), owned("GET, POST, PUT, DELETE, OPTIONS")));
            r.push((owned("Access-Control-Allow-Headers"), owned("Content-Type, Authorization")));
        }
    }
    proof {
        assert(header_views(r@) =~= response_header_list(*config, content_type@, full));
    }
    r
}

/// A route: method, path pattern and handler.
pub struct Route<H> {
    pub method: String,
    pub path: String,
    pub handler: H,
}

/// The routes of a server, at most one per method and path.
pub struct RouteTable<H> {
    routes: Vec<Route<H>>,
}

impl<H> RouteTable<H> {
    /// The method and path of each route, in the order they were added.
    pub closed spec fn keys(&self) -> Seq<(Seq<char>, Seq<char>)> {
        self.routes@.map_values(|r: Route<H>| (r.method@, r.path@))
    }

    /// The handler of each route, in the same order.
    pub closed spec fn handlers(&self) -> Seq<H> {
        self.routes@.map_values(|r: Route<H>| r.handler)
    }

    /// No method and path occur twice.
    pub open spec fn wf(&self) -> bool {
        &&& self.keys().len() == self.handlers().len()
        &&& self.keys().no_duplicates()
    }

    pub fn new() -> (t: Self)
        ensures
            t.wf(),
            t.keys().len() == 0,
    {
        let t = RouteTable { routes: Vec::new() };
        proof {
            assert(t.keys() =~= Seq::<(Seq<char>, Seq<char>)>::empty());
        }
        t
    }

    /// Adds a route for the upper-cased method; a route with the same
    /// method and path gets the new handler.
    pub fn add_route(&mut self, method: &str, path: &str, handler: H)
        requires
            old(self).wf(),
        ensures
            final(self).wf(),
            ({
                let k = (str_upper(method@), path@);
                if old(self).keys().contains(k) {
                    &&& final(self).keys() == old(self).keys()
                    &&& forall|i: int|
                        0 <= i < old(self).keys().len() && old(self).keys()[i] == k
                            ==> final(self).handlers() == old(self).handlers().update(i, handler)
                } else {
                    &&& final(self).keys() == old(self).keys().push(k)
                    &&& final(self).handlers() == old(self).handlers().push(handler)
                }
            }),
    {
        let m = to_uppercase(method);
        let ghost k = (m@, path@);
        let ghost okeys = self.keys();
        let mut i: usize = 0;
        while i < self.routes.len()
            invariant
                i <= self.routes.len(),
                self.routes@ == old(self).routes@,
                okeys == old(self).keys(),
                okeys.no_duplicates(),
                old(self).wf(),
                k == (str_upper(method@), path@),
                m@ == k.0,
                forall|j: int| 0 <= j < i ==> (#[trigger] okeys[j]) != k,
            decreases self.routes.len() - i,
        {
            let same_method = str_eq(self.routes[i].method.as_str(), m.as_str());
            let same_path = str_eq(self.routes[i].path.as_str(), path);
            proof {
                assert(okeys[i as int] == (self.routes@[i as int].method@, self.routes@[i as int].path@));
            }
            if same_method && same_path {
                let ghost before = self.routes@;
                let old_route = self.routes.remove(i);
                self.routes.insert(
                    i,
                    Route { method: old_route.method, path: old_route.path, handler },
                );
                proof {
                    assert(self.keys() =~= old(self).keys());
                    assert(self.handlers() =~= old(self).handlers().update(i as int, handler));
                    assert(old(self).keys()[i as int] == k);
                    assert forall|j: int|
                        0 <= j < old(self).keys().len() && old(self).keys()[j] == k implies j
                        == i by {
                        if j != i {
                            assert(old(self).keys()[j] == old(self).keys()[i as int]);
                        }
                    }
                }
                return ;
            }
            i = i + 1;
        }
        proof {
            assert(!okeys.contains(k));
        }
        self.routes.push(Route { method: m, path: owned(path), handler });
        proof {
            assert(self.keys() =~= old(self).keys().push(k));
            assert(self.handlers() =~= old(self).handlers().push(handler));
        }
    }

    /// The handler for a request: the route with this method and path, or
    /// else a route with this method whose pattern matches the path.
    pub fn find(&self, method: &str, path: &str) -> (r: Option<&H>)
        requires
            self.wf(),
        ensures
            match r {
                Some(h) => exists|i: int|
                    0 <= i < self.keys().len() && *h == self.handlers()[i] && #[trigger] self.keys()[i].0
                        == method@ && (self.keys()[i].1 == path@ || (!self.keys().contains(
                        (method@, path@),
                    ) && route_matches(self.keys()[i].1, path@) && forall|j: int|
                        0 <= j < i && (#[trigger] self.keys()[j]).0 == method@ ==> !route_matches(
                            self.keys()[j].1,
                            path@,
                        ))),
                None => forall|i: int|
                    0 <= i < self.keys().len() && #[trigger] self.keys()[i].0 == method@
                        ==> self.keys()[i].1 != path@ && !route_matches(self.keys()[i].1, path@),
            },
    {
        let mut i: usize = 0;
        while i < self.routes.len()
            invariant
                i <= self.routes.len(),
                forall|j: int| 0 <= j < i ==> (#[trigger] self.keys()[j]) != (method@, path@),
            decreases self.routes.len() - i,
        {
            let same_method = str_eq(self.routes[i].method.as_str(), method);
            let same_path = str_eq(self.routes[i].path.as_str(), path);
            proof {
                assert(self.keys()[i as int] == (self.routes@[i as int].method@, self.routes@[i as int].path@));
                assert(self.handlers()[i as int] == self.routes@[i as int].handler);
            }
            if same_method && same_path {
                proof {
                    assert(self.keys()[i as int].0 == method@);
                    assert(self.keys()[i as int].1 == path@);
                }
                return Some(&self.routes[i].handler);
            }
            i = i + 1;
        }
        proof {
            assert(!self.keys().contains((method@, path@)));
        }
        let mut i: usize = 0;
        while i < self.routes.len()
            invariant
                i <= self.routes.len(),
                !self.keys().contains((method@, path@)),
                forall|j: int|
                    0 <= j < i && (#[trigger] self.keys()[j]).0 == method@ ==> !route_matches(
                        self.keys()[j].1,
                        path@,
                    ),
            decreases self.routes.len() - i,
        {
            let same_method = str_eq(self.routes[i].method.as_str(), method);
            let matching = match_route(self.routes[i].path.as_str(), path);
            proof {
                assert(self.keys()[i as int] == (self.routes@[i as int].method@, self.routes@[i as int].path@));
                assert(self.handlers()[i as int] == self.routes@[i as int].handler);
            }
            if same_method && matching {
                proof {
                    assert(self.keys()[i as int].0 == method@);
                    assert(route_matches(self.keys()[i as int].1, path@));
                }
                return Some(&self.routes[i].handler);
            }
            i = i + 1;
        }
        proof {
            assert forall|i: int|
                0 <= i < self.keys().len() && #[trigger] self.keys()[i].0 == method@ implies self.keys()[i].1
                != path@ && !route_matches(self.keys()[i].1, path@) by {
                if self.keys()[i].1 == path@ {
                    assert(self.keys()[i] == (method@, path@));
                }
            }
        }
        None
    }

    /// The number of routes.
    pub fn len(&self) -> (n: usize)
        ensures
            n == self.keys().len(),
    {
        self.routes.len()
    }
}

// ---------------------------------------------------------------------
// Laws
// ---------------------------------------------------------------------

/// Requests are handed to the handlers in the order they arrived.
pub proof fn law_requests_first_in_first_out(
    queue: Seq<PendingRequest>,
    a: PendingRequest,
    b: PendingRequest,
)
    requires
        queue.len() == 0,
    ensures
        queue.push(a).push(b)[0] == a,
        queue.push(a).push(b).drop_first()[0] == b,
{
}

/// A response submitted for a request that had none queued is the one
/// that the request's thread takes.
pub proof fn law_response_reaches_its_request(
    queued: Seq<PendingResponse>,
    response: PendingResponse,
    i: int,
)
    requires
        forall|j: int| 0 <= j < queued.len() ==> (#[trigger] queued[j]).request_id != response.request_id,
        0 <= i < queued.len() + 1,
        queued.push(response)[i].request_id == response.request_id,
    ensures
        queued.push(response)[i] == response,
{
    if i < queued.len() {
        assert(queued.push(response)[i] == queued[i]);
    }
}

/// Every path matches itself as a route pattern.
pub proof fn law_route_matches_itself(path: Seq<char>)
    ensures
        route_matches(path, path),
{
}

/// After a route is added, looking it up by the upper-cased method and
/// the same path finds its handler: any route that `find` may return for
/// that request is that one.
pub proof fn law_find_after_add<H>(
    before: RouteTable<H>,
    after: RouteTable<H>,
    method: Seq<char>,
    path: Seq<char>,
    handler: H,
    i: int,
)
    requires
        before.wf(),
        after.wf(),
        ({
            let k = (str_upper(method), path);
            if before.keys().contains(k) {
                &&& after.keys() == before.keys()
                &&& forall|j: int|
                    0 <= j < before.keys().len() && before.keys()[j] == k ==> after.handlers()
                        == before.handlers().update(j, handler)
            } else {
                &&& after.keys() == before.keys().push(k)
                &&& after.handlers() == before.handlers().push(handler)
            }
        }),
        0 <= i < after.keys().len(),
        after.keys()[i].0 == str_upper(method),
        after.keys()[i].1 == path || (!after.keys().contains((str_upper(method), path))
            && route_matches(after.keys()[i].1, path)),
    ensures
        after.handlers()[i] == handler,
{
    let k = (str_upper(method), path);
    if before.keys().contains(k) {
        let j = choose|j: int| 0 <= j < before.keys().len() && before.keys()[j] == k;
        assert(after.keys().contains(k));
        assert(after.keys()[i] == k);
        assert(i == j) by {
            if i != j {
                assert(after.keys()[i] == after.keys()[j]);
            }
        }
    } else {
        let n = before.keys().len();
        assert(after.keys()[n as int] == k);
        assert(after.keys().contains(k));
        assert(after.keys()[i] == k);
        assert(i == n) by {
            if i != n {
                assert(after.keys()[i] == after.keys()[n as int]);
            }
        }
    }
}

/// Once `url_prefix` is mounted on `dir_path`, a path under the prefix may
/// be served from that directory, and no mount of the prefix keeps another
/// directory.
pub proof fn law_mount_serves_prefix(
    es: Seq<(Seq<char>, Seq<char>)>,
    url_prefix: Seq<char>,
    dir_path: Seq<char>,
    path: Seq<char>,
)
    requires
        has_prefix(path, url_prefix),
    ensures
        served_files(with_mount(es, url_prefix, dir_path), path).contains(
            static_file_for(path, url_prefix, dir_path)->0,
        ),
        forall|i: int|
            0 <= i < with_mount(es, url_prefix, dir_path).len() && (#[trigger] with_mount(
                es,
                url_prefix,
                dir_path,
            )[i]).0 == url_prefix ==> with_mount(es, url_prefix, dir_path)[i].1 == dir_path,
{
    let w = with_mount(es, url_prefix, dir_path);
    let pred = |m: (Seq<char>, Seq<char>)| has_prefix(path, m.0);
    let k: int = if exists|i: int| 0 <= i < es.len() && (#[trigger] es[i]).0 == url_prefix {
        choose|i: int| 0 <= i < es.len() && (#[trigger] es[i]).0 == url_prefix
    } else {
        es.len() as int
    };
    assert(w[k] == (url_prefix, dir_path));
    w.lemma_filter_contains(pred, k);
    let fl = w.filter(pred);
    let j = choose|j: int| 0 <= j < fl.len() && fl[j] == w[k];
    let g = |m: (Seq<char>, Seq<char>)| static_file_for(path, m.0, m.1)->0;
    assert(fl.map_values(g)[j] == g(w[k]));
}

/// A text with no `.` in it.
proof fn lemma_no_dot_in(e: Seq<char>)
    requires
        e.len() <= 4,
        e.len() > 0 ==> e[0] != '.',
        e.len() > 1 ==> e[1] != '.',
        e.len() > 2 ==> e[2] != '.',
        e.len() > 3 ==> e[3] != '.',
    ensures
        forall|i: int| 0 <= i < e.len() ==> e[i] != '.',
{
}

/// The last `.` lies within the text, or there is none (-1).
proof fn lemma_last_dot_range(s: Seq<char>)
    ensures
        -1 <= last_dot(s) < s.len(),
    decreases s.len(),
{
    if s.len() > 0 && s.last() != '.' {
        lemma_last_dot_range(s.drop_last());
    }
}

/// A path that ends with `.` and then a text without `.` has that text as
/// what follows its last `.`.
proof fn lemma_after_last_dot_suffix(path: Seq<char>, e: Seq<char>)
    requires
        has_suffix(path, seq!['.'] + e),
        forall|i: int| 0 <= i < e.len() ==> e[i] != '.',
    ensures
        after_last_dot(path) == e,
    decreases e.len(),
{
    let n = path.len();
    assert(path.subrange(n - e.len() - 1, n as int) == seq!['.'] + e);
    assert(path.subrange(n - e.len() - 1, n as int)[0] == path[n - e.len() - 1]);
    if e.len() == 0 {
        assert(path.last() == '.');
        assert(path.subrange(n as int, n as int) =~= e);
    } else {
        let pd = path.drop_last();
        let ed = e.drop_last();
        assert(path.subrange(n - e.len() - 1, n as int)[e.len() as int] == path[n - 1]);
        assert(path.last() == e.last());
        let big = path.subrange(n - e.len() - 1, n as int);
        assert forall|k: int| 0 <= k < ed.len() + 1 implies #[trigger] pd.subrange(
            pd.len() - ed.len() - 1,
            pd.len() as int,
        )[k] == (seq!['.'] + ed)[k] by {
            assert(big[k] == path[n - e.len() - 1 + k]);
            assert(big[k] == (seq!['.'] + e)[k]);
        }
        assert(pd.subrange(pd.len() - ed.len() - 1, pd.len() as int) =~= seq!['.'] + ed);
        lemma_after_last_dot_suffix(pd, ed);
        assert(last_dot(path) == last_dot(pd));
        let i = last_dot(pd);
        lemma_last_dot_range(pd);
        assert(i >= 0);
        assert(path.subrange(i + 1, n as int) =~= pd.subrange(i + 1, pd.len() as int).push(path.last()));
        assert(ed.push(e.last()) =~= e);
    }
}

/// The content type follows the file's extension: each extension of the
/// table has its one MIME type.
pub proof fn law_content_type_by_extension(path: Seq<char>)
    ensures
        has_suffix(path, ".html"@) || has_suffix(path, ".htm"@) ==> content_type_for(after_last_dot(path)) == "text/html"@,
        has_suffix(path, ".css"@) ==> content_type_for(after_last_dot(path)) == "text/css"@,
        has_suffix(path, ".js"@) ==> content_type_for(after_last_dot(path)) == "application/javascript"@,
        has_suffix(path, ".json"@) ==> content_type_for(after_last_dot(path)) == "application/json"@,
        has_suffix(path, ".png"@) ==> content_type_for(after_last_dot(path)) == "image/png"@,
        has_suffix(path, ".jpg"@) || has_suffix(path, ".jpeg"@) ==> content_type_for(after_last_dot(path)) == "image/jpeg"@,
        has_suffix(path, ".gif"@) ==> content_type_for(after_last_dot(path)) == "image/gif"@,
        has_suffix(path, ".svg"@) ==> content_type_for(after_last_dot(path)) == "image/svg+xml"@,
        has_suffix(path, ".ico"@) ==> content_type_for(after_last_dot(path)) == "image/x-icon"@,
        has_suffix(path, ".txt"@) ==> content_type_for(after_last_dot(path)) == "text/plain"@,
        has_suffix(path, ".xml"@) ==> content_type_for(after_last_dot(path)) == "application/xml"@,
        has_suffix(path, ".pdf"@) ==> content_type_for(after_last_dot(path)) == "application/pdf"@,
{
    reveal_strlit("html");
    reveal_strlit(".html");
    reveal_strlit("htm");
    reveal_strlit(".htm");
    reveal_strlit("css");
    reveal_strlit(".css");
    reveal_strlit("js");
    reveal_strlit(".js");
    reveal_strlit("json");
    reveal_strlit(".json");
    reveal_strlit("png");
    reveal_strlit(".png");
    reveal_strlit("jpg");
    reveal_strlit(".jpg");
    reveal_strlit("jpeg");
    reveal_strlit(".jpeg");
    reveal_strlit("gif");
    reveal_strlit(".gif");
    reveal_strlit("svg");
    reveal_strlit(".svg");
    reveal_strlit("ico");
    reveal_strlit(".ico");
    reveal_strlit("txt");
    reveal_strlit(".txt");
    reveal_strlit("xml");
    reveal_strlit(".xml");
    reveal_strlit("pdf");
    reveal_strlit(".pdf");
    reveal_strlit("text/html");
    reveal_strlit("text/css");
    reveal_strlit("application/javascript");
    reveal_strlit("application/json");
    reveal_strlit("image/png");
    reveal_strlit("image/jpeg");
    reveal_strlit("image/gif");
    reveal_strlit("image/svg+xml");
    reveal_strlit("image/x-icon");
    reveal_strlit("text/plain");
    reveal_strlit("application/xml");
    reveal_strlit("application/pdf");
    assert("css"@[0] == 'c' && "htm"@[0] == 'h');
    assert("json"@[0] == 'j' && "html"@[0] == 'h');
    assert("png"@[0] == 'p' && "htm"@[0] == 'h');
    assert("png"@[0] == 'p' && "css"@[0] == 'c');
    assert("jpg"@[0] == 'j' && "htm"@[0] == 'h');
    assert("jpg"@[0] == 'j' && "css"@[0] == 'c');
    assert("jpg"@[0] == 'j' && "png"@[0] == 'p');
    assert("jpeg"@[0] == 'j' && "html"@[0] == 'h');
    assert("jpeg"@[1] == 'p' && "json"@[1] == 's');
    assert("gif"@[0] == 'g' && "htm"@[0] == 'h');
    assert("gif"@[0] == 'g' && "css"@[0] == 'c');
    assert("gif"@[0] == 'g' && "png"@[0] == 'p');
    assert("gif"@[0] == 'g' && "jpg"@[0] == 'j');
    assert("svg"@[0] == 's' && "htm"@[0] == 'h');
    assert("svg"@[0] == 's' && "css"@[0] == 'c');
    assert("svg"@[0] == 's' && "png"@[0] == 'p');
    assert("svg"@[0] == 's' && "jpg"@[0] == 'j');
    assert("svg"@[0] == 's' && "gif"@[0] == 'g');
    assert("ico"@[0] == 'i' && "htm"@[0] == 'h');
    assert("ico"@[0] == 'i' && "css"@[0] == 'c');
    assert("ico"@[0] == 'i' && "png"@[0] == 'p');
    assert("ico"@[0] == 'i' && "jpg"@[0] == 'j');
    assert("ico"@[0] == 'i' && "gif"@[0] == 'g');
    assert("ico"@[0] == 'i' && "svg"@[0] == 's');
    assert("txt"@[0] == 't' && "htm"@[0] == 'h');
    assert("txt"@[0] == 't' && "css"@[0] == 'c');
    assert("txt"@[0] == 't' && "png"@[0] == 'p');
    assert("txt"@[0] == 't' && "jpg"@[0] == 'j');
    assert("txt"@[0] == 't' && "gif"@[0] == 'g');
    assert("txt"@[0] == 't' && "svg"@[0] == 's');
    assert("txt"@[0] == 't' && "ico"@[0] == 'i');
    assert("xml"@[0] == 'x' && "htm"@[0] == 'h');
    assert("xml"@[0] == 'x' && "css"@[0] == 'c');
    assert("xml"@[0] == 'x' && "png"@[0] == 'p');
    assert("xml"@[0] == 'x' && "jpg"@[0] == 'j');
    assert("xml"@[0] == 'x' && "gif"@[0] == 'g');
    assert("xml"@[0] == 'x' && "svg"@[0] == 's');
    assert("xml"@[0] == 'x' && "ico"@[0] == 'i');
    assert("xml"@[0] == 'x' && "txt"@[0] == 't');
    assert("pdf"@[0] == 'p' && "htm"@[0] == 'h');
    assert("pdf"@[0] == 'p' && "css"@[0] == 'c');
    assert("pdf"@[1] == 'd' && "png"@[1] == 'n');
    assert("pdf"@[0] == 'p' && "jpg"@[0] == 'j');
    assert("pdf"@[0] == 'p' && "gif"@[0] == 'g');
    assert("pdf"@[0] == 'p' && "svg"@[0] == 's');
    assert("pdf"@[0] == 'p' && "ico"@[0] == 'i');
    assert("pdf"@[0] == 'p' && "txt"@[0] == 't');
    assert("pdf"@[0] == 'p' && "xml"@[0] == 'x');
    if has_suffix(path, ".html"@) {
        assert(seq!['.'] + "html"@ =~= ".html"@);
        lemma_no_dot_in("html"@);
        lemma_after_last_dot_suffix(path, "html"@);
    }
    if has_suffix(path, ".htm"@) {
        assert(seq!['.'] + "htm"@ =~= ".htm"@);
        lemma_no_dot_in("htm"@);
        lemma_after_last_dot_suffix(path, "htm"@);
    }
    if has_suffix(path, ".css"@) {
        assert(seq!['.'] + "css"@ =~= ".css"@);
        lemma_no_dot_in("css"@);
        lemma_after_last_dot_suffix(path, "css"@);
    }
    if has_suffix(path, ".js"@) {
        assert(seq!['.'] + "js"@ =~= ".js"@);
        lemma_no_dot_in("js"@);
        lemma_after_last_dot_suffix(path, "js"@);
    }
    if has_suffix(path, ".json"@) {
        assert(seq!['.'] + "json"@ =~= ".json"@);
        lemma_no_dot_in("json"@);
        lemma_after_last_dot_suffix(path, "json"@);
    }
    if has_suffix(path, ".png"@) {
        assert(seq!['.'] + "png"@ =~= ".png"@);
        lemma_no_dot_in("png"@);
        lemma_after_last_dot_suffix(path, "png"@);
    }
    if has_suffix(path, ".jpg"@) {
        assert(seq!['.'] + "jpg"@ =~= ".jpg"@);
        lemma_no_dot_in("jpg"@);
        lemma_after_last_dot_suffix(path, "jpg"@);
    }
    if has_suffix(path, ".jpeg"@) {
        assert(seq!['.'] + "jpeg"@ =~= ".jpeg"@);
        lemma_no_dot_in("jpeg"@);
        lemma_after_last_dot_suffix(path, "jpeg"@);
    }
    if has_suffix(path, ".gif"@) {
        assert(seq!['.'] + "gif"@ =~= ".gif"@);
        lemma_no_dot_in("gif"@);
        lemma_after_last_dot_suffix(path, "gif"@);
    }
    if has_suffix(path, ".svg"@) {
        assert(seq!['.'] + "svg"@ =~= ".svg"@);
        lemma_no_dot_in("svg"@);
        lemma_after_last_dot_suffix(path, "svg"@);
    }
    if has_suffix(path, ".ico"@) {
        assert(seq!['.'] + "ico"@ =~= ".ico"@);
        lemma_no_dot_in("ico"@);
        lemma_after_last_dot_suffix(path, "ico"@);
    }
    if has_suffix(path, ".txt"@) {
        assert(seq!['.'] + "txt"@ =~= ".txt"@);
        lemma_no_dot_in("txt"@);
        lemma_after_last_dot_suffix(path, "txt"@);
    }
    if has_suffix(path, ".xml"@) {
        assert(seq!['.'] + "xml"@ =~= ".xml"@);
        lemma_no_dot_in("xml"@);
        lemma_after_last_dot_suffix(path, "xml"@);
    }
    if has_suffix(path, ".pdf"@) {
        assert(seq!['.'] + "pdf"@ =~= ".pdf"@);
        lemma_no_dot_in("pdf"@);
        lemma_after_last_dot_suffix(path, "pdf"@);
    }
}

/// A route pattern with a different number of `/`-separated segments than
/// the path, and not equal to it, does not match it.
pub proof fn law_route_needs_same_segment_count(pattern: Seq<char>, path: Seq<char>)
    requires
        pattern != path,
        split_seq(pattern, "/"@).len() != split_seq(path, "/"@).len(),
    ensures
        !route_matches(pattern, path),
{
}

} // verus!
