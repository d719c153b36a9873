use vstd::prelude::*;

use crate::text::opt_string;

verus! {

/// What a client asked of the stream it gets.
#[derive(Clone, Copy)]
pub struct ClientStreamOptions {
    pub include_usage: bool,
}

/// What is known of a request before its body is read.
pub struct RequestContext {
    pub request_id: String,
    pub method: String,
    pub path: String,
    pub route_kind: &'static str,
    pub content_type: Option<String>,
    pub client_ip: Option<String>,
    pub client_request_id: Option<String>,
}

/// What is known of a request before its body is read, by the texts involved.
pub struct Origin {
    pub request_id: Seq<char>,
    pub method: Seq<char>,
    pub path: Seq<char>,
    pub route_kind: Seq<char>,
    pub content_type: Option<Seq<char>>,
    pub client_ip: Option<Seq<char>>,
    pub client_request_id: Option<Seq<char>>,
}

impl View for RequestContext {
    type V = Origin;

    open spec fn view(&self) -> Origin {
        Origin {
            request_id: self.request_id@,
            method: self.method@,
            path: self.path@,
            route_kind: self.route_kind@,
            content_type: opt_string(self.content_type),
            client_ip: opt_string(self.client_ip),
            client_request_id: opt_string(self.client_request_id),
        }
    }
}

/// What is known of a request, where anything is.
pub open spec fn opt_origin(context: Option<&RequestContext>) -> Option<Origin> {
    match context {
        Some(context) => Some(context@),
        None => None,
    }
}

} // verus!
