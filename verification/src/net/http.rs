//! HTTP/HTTPS client responses.

use vstd::prelude::*;

verus! {

/// HTTP response wrapper.
#[derive(Debug)]
pub struct HttpResponse {
    pub status: u16,
    pub body: String,
    pub content_type: Option<String>,
}

impl Clone for HttpResponse {
    fn clone(&self) -> (r: Self)
        ensures
            r == *self,
    {
        HttpResponse {
            status: self.status,
            body: self.body.clone(),
            content_type: match &self.content_type {
                Some(t) => Some(t.clone()),
                None => None,
            },
        }
    }
}

} // verus!
