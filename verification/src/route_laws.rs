use vstd::prelude::*;

use crate::errors::{impossible_route_answer, unsupported_route_answer};
use crate::routes::{route_segments, unserved_answer};
use crate::text::split_on;
use crate::text_laws::{is_without, law_first_piece_comes_apart, law_split_undoes_join};

verus! {

/// What tells the segments of a path apart.
proof fn lemma_route_words()
    ensures
        "v1"@.len() == 2 && "v1"@[0] == 'v',
        "ws"@.len() == 2 && "ws"@[0] == 'w',
        "responses"@.len() == 9,
        "cancel"@.len() == 6 && "cancel"@[0] == 'c',
        "input_items"@.len() == 11 && "input_items"@[0] == 'i',
        "embeddings"@.len() == 10,
        "moderations"@.len() == 11 && "moderations"@[0] == 'm',
        "images"@.len() == 6 && "images"@[0] == 'i',
        "audio"@.len() == 5,
        "batches"@.len() == 7 && "batches"@[0] == 'b',
        "uploads"@.len() == 7 && "uploads"@[0] == 'u',
{
    reveal_strlit("v1");
    reveal_strlit("ws");
    reveal_strlit("responses");
    reveal_strlit("cancel");
    reveal_strlit("input_items");
    reveal_strlit("embeddings");
    reveal_strlit("moderations");
    reveal_strlit("images");
    reveal_strlit("audio");
    reveal_strlit("batches");
    reveal_strlit("uploads");
}

/// The path to a name below the root, with or without the version of the API.
pub open spec fn path_to(versioned: bool, rest: Seq<char>) -> Seq<char> {
    if versioned {
        "/v1/"@ + rest
    } else {
        "/"@ + rest
    }
}

proof fn lemma_segments(versioned: bool, rest: Seq<char>)
    requires
        !versioned ==> split_on(rest, '/')[0] != "v1"@,
    ensures
        split_on(rest, '/').len() > 0,
        route_segments(path_to(versioned, rest)) == split_on(rest, '/'),
{
    reveal_strlit("/v1/");
    reveal_strlit("/");
    reveal_strlit("v1");
    let nothing = Seq::<char>::empty();
    lemma_some_segment(rest);
    if versioned {
        let behind = "v1"@.push('/') + rest;
        assert("/v1/"@ + rest =~= nothing.push('/') + behind);
        law_first_piece_comes_apart(nothing, behind, '/');
        law_first_piece_comes_apart("v1"@, rest, '/');
        let segments = split_on(path_to(versioned, rest), '/');
        assert(segments[0] == nothing);
        assert(segments[1] == "v1"@);
        assert(segments.skip(2) =~= split_on(rest, '/'));
    } else {
        assert("/"@ + rest =~= nothing.push('/') + rest);
        law_first_piece_comes_apart(nothing, rest, '/');
        let segments = split_on(path_to(versioned, rest), '/');
        assert(segments[0] == nothing);
        assert(segments[1] == split_on(rest, '/')[0]);
        assert(segments.skip(1) =~= split_on(rest, '/'));
    }
}

proof fn lemma_some_segment(text: Seq<char>)
    ensures
        split_on(text, '/').len() > 0,
    decreases text.len(),
{
    if text.len() > 0 {
        lemma_some_segment(text.drop_last());
    }
}

proof fn lemma_one_segment(text: Seq<char>)
    requires
        is_without(text, '/'),
    ensures
        split_on(text, '/') == seq![text],
{
    law_split_undoes_join(seq![text], '/');
}

/// Routes about a response that was made before cannot be served, and are answered so.
pub proof fn law_responses_are_not_kept(versioned: bool, id: Seq<char>)
    requires
        id.len() > 0,
        is_without(id, '/'),
    ensures
        ({
            let path = path_to(versioned, "responses/"@ + id);
            unserved_answer(path) == (if id == "ws"@ {
                None
            } else {
                Some(impossible_route_answer(path))
            })
        }),
        ({
            let path = path_to(versioned, "responses/"@ + (id + "/cancel"@));
            unserved_answer(path) == Some(impossible_route_answer(path))
        }),
        ({
            let path = path_to(versioned, "responses/"@ + (id + "/input_items"@));
            unserved_answer(path) == Some(impossible_route_answer(path))
        }),
{
    lemma_route_words();
    reveal_strlit("responses");
    reveal_strlit("cancel");
    reveal_strlit("input_items");
    reveal_strlit("responses/");
    reveal_strlit("/cancel");
    reveal_strlit("/input_items");
    assert("responses/"@ =~= "responses"@.push('/'));
    assert(is_without("responses"@, '/'));
    lemma_one_segment(id);
    law_first_piece_comes_apart("responses"@, id, '/');
    lemma_segments(versioned, "responses/"@ + id);
    assert(id + "/cancel"@ =~= id.push('/') + "cancel"@);
    assert(id + "/input_items"@ =~= id.push('/') + "input_items"@);
    assert(is_without("cancel"@, '/'));
    assert(is_without("input_items"@, '/'));
    lemma_one_segment("cancel"@);
    lemma_one_segment("input_items"@);
    law_first_piece_comes_apart(id, "cancel"@, '/');
    law_first_piece_comes_apart(id, "input_items"@, '/');
    law_first_piece_comes_apart("responses"@, id.push('/') + "cancel"@, '/');
    law_first_piece_comes_apart("responses"@, id.push('/') + "input_items"@, '/');
    lemma_segments(versioned, "responses/"@ + (id + "/cancel"@));
    lemma_segments(versioned, "responses/"@ + (id + "/input_items"@));
}

/// Whether a name is one of the routes of the public API that are left out.
pub open spec fn is_left_out(name: Seq<char>) -> bool {
    ||| name == "embeddings"@
    ||| name == "moderations"@
    ||| name == "images"@
    ||| name == "audio"@
    ||| name == "batches"@
    ||| name == "uploads"@
}

/// Routes of one name are answered as left out where they are, and as no others.
pub proof fn law_left_out_routes_are_answered(versioned: bool, name: Seq<char>)
    requires
        name != "v1"@,
        is_without(name, '/'),
    ensures
        unserved_answer(path_to(versioned, name)) == (if is_left_out(name) {
            Some(unsupported_route_answer(path_to(versioned, name)))
        } else {
            None
        }),
{
    lemma_one_segment(name);
    lemma_segments(versioned, name);
}

} // verus!
