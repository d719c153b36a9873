use vstd::prelude::*;

use crate::digest::is_hex_digit;
use crate::text::concat;

verus! {

/// Whether a text is the plain form of an id: 32 lower-case hexadecimal digits.
pub open spec fn is_plain_id(text: Seq<char>) -> bool {
    &&& text.len() == 32
    &&& forall|i: int| 0 <= i < 32 ==> is_hex_digit(#[trigger] text[i])
}

/// Whether a text is the form of an id in groups: 36 characters, hyphens at four places and
/// lower-case hexadecimal digits elsewhere.
pub open spec fn is_grouped_id(text: Seq<char>) -> bool {
    &&& text.len() == 36
    &&& forall|i: int|
        0 <= i < 36 ==> if i == 8 || i == 13 || i == 18 || i == 23 {
            #[trigger] text[i] == '-'
        } else {
            is_hex_digit(text[i])
        }
}

/// Makes an id with `uuid::Uuid::new_v4` and writes it with `simple`. Of the id nothing is said
/// but its form: it is made by chance.
#[verifier::external_body]
pub(crate) fn plain_id() -> (id: String)
    ensures
        is_plain_id(id@),
{
    uuid::Uuid::new_v4().simple().to_string()
}

/// Makes an id with `uuid::Uuid::new_v4` and writes it with its `Display`. Of the id nothing is
/// said but its form: it is made by chance.
#[verifier::external_body]
pub(crate) fn grouped_id() -> (id: String)
    ensures
        is_grouped_id(id@),
{
    uuid::Uuid::new_v4().to_string()
}

/// The id of a new request.
pub fn new_request_id() -> (id: String)
    ensures
        is_grouped_id(id@),
{
    grouped_id()
}

/// The id of a new chat completion.
pub fn new_completion_id() -> (id: String)
    ensures
        exists|made: Seq<char>| #[trigger] is_plain_id(made) && id@ == "chatcmpl-"@ + made,
{
    let made = plain_id();
    proof {
        assert(is_plain_id(made@));
    }
    concat("chatcmpl-", made.as_str())
}

/// The id of a new file.
pub fn new_file_id() -> (id: String)
    ensures
        exists|made: Seq<char>| #[trigger] is_plain_id(made) && id@ == "file-"@ + made,
{
    let made = plain_id();
    proof {
        assert(is_plain_id(made@));
    }
    concat("file-", made.as_str())
}

} // verus!
