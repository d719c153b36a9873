use vstd::prelude::*;

use crate::errors::{
    impossible_route_answer, impossible_upstream_route_error, unsupported_proxy_route_error,
    unsupported_route_answer, ErrorAnswer, ErrorResponse,
};
use crate::text::{pieces, same_text, split_on, texts};

verus! {

/// The segments of a path behind the slash at its start and the version of the API, which a path
/// may leave out.
pub open spec fn route_segments(path: Seq<char>) -> Seq<Seq<char>> {
    let segments = split_on(path, '/');
    if segments[0].len() > 0 {
        Seq::empty()
    } else if segments.len() > 1 && segments[1] == "v1"@ {
        segments.skip(2)
    } else {
        segments.skip(1)
    }
}

/// Whether a route is about a response that was made before, or about what went into it. The
/// upstream keeps no responses. A route to open a session has the form of one of these.
pub open spec fn is_lifecycle_route(segments: Seq<Seq<char>>) -> bool {
    &&& 2 <= segments.len() <= 3
    &&& segments[0] == "responses"@
    &&& segments[1].len() > 0
    &&& if segments.len() == 2 {
        segments[1] != "ws"@
    } else {
        segments[2] == "cancel"@ || segments[2] == "input_items"@
    }
}

/// Whether a route is one of the public API that this proxy does not serve.
pub open spec fn is_unsupported_route(segments: Seq<Seq<char>>) -> bool {
    &&& segments.len() == 1
    &&& {
        ||| segments[0] == "embeddings"@
        ||| segments[0] == "moderations"@
        ||| segments[0] == "images"@
        ||| segments[0] == "audio"@
        ||| segments[0] == "batches"@
        ||| segments[0] == "uploads"@
    }
}

/// The answer to a request for a route of the public API that is known and not served.
pub open spec fn unserved_answer(path: Seq<char>) -> Option<ErrorAnswer> {
    if is_lifecycle_route(route_segments(path)) {
        Some(impossible_route_answer(path))
    } else if is_unsupported_route(route_segments(path)) {
        Some(unsupported_route_answer(path))
    } else {
        None
    }
}

/// Where the segments of a path begin that tell its route, or behind all of them where none does.
fn route_start(segments: &Vec<String>) -> (start: usize)
    requires
        segments@.len() > 0,
    ensures
        start <= segments@.len(),
        start == (if segments@[0]@.len() > 0 {
            segments@.len() as int
        } else if segments@.len() > 1 && segments@[1]@ == "v1"@ {
            2
        } else {
            1
        }),
{
    if !segments[0].as_str().is_empty() {
        segments.len()
    } else if segments.len() > 1 && same_text(segments[1].as_str(), "v1") {
        2
    } else {
        1
    }
}

/// The answer to a request for a route of the public API that is known and not served: one that
/// the upstream gives no means for, or one that this proxy leaves out.
pub fn unserved_route_error(path: &str) -> (error: Option<ErrorResponse>)
    ensures
        (match error {
            Some(error) => unserved_answer(path@) == Some(error@),
            None => unserved_answer(path@) is None,
        }),
{
    let segments = pieces(path, '/');
    let start: usize = route_start(&segments);
    let count: usize = segments.len() - start;
    let ghost route = route_segments(path@);
    proof {
        let all = texts(segments@);
        assert(all[0] == segments@[0]@);
        assert(segments@.len() > 1 ==> all[1] == segments@[1]@);
        assert(route =~= all.skip(start as int));
        assert forall|i: int| 0 <= i < route.len() implies #[trigger] route[i] == segments@[start
            + i]@ by {
            assert(all[start + i] == segments@[start + i]@);
        }
    }
    if count == 1 {
        let name = segments[start].as_str();
        proof {
            assert(route[0] == name@);
        }
        if same_text(name, "embeddings") || same_text(name, "moderations") || same_text(
            name,
            "images",
        ) || same_text(name, "audio") || same_text(name, "batches") || same_text(name, "uploads") {
            return Some(unsupported_proxy_route_error(path));
        }
        return None;
    }
    if count != 2 && count != 3 {
        return None;
    }
    let name = segments[start].as_str();
    let id = segments[start + 1].as_str();
    proof {
        assert(route[0] == name@);
        assert(route[1] == id@);
    }
    if !same_text(name, "responses") || id.is_empty() {
        return None;
    }
    let lifecycle = if count == 2 {
        !same_text(id, "ws")
    } else {
        let step = segments[start + 2].as_str();
        proof {
            assert(route[2] == step@);
        }
        same_text(step, "cancel") || same_text(step, "input_items")
    };
    if lifecycle {
        Some(impossible_upstream_route_error(path))
    } else {
        None
    }
}

} // verus!
