use vstd::prelude::*;
use vstd::string::*;
use vstd::utf8::*;

use crate::text::{
    begins_with, chars_of, is_space, join, joined, pieces, split_on, stands_at, text_of, texts,
    trim, trim_start, trimmed, trimmed_start,
};

verus! {

/// Whether two line feeds stand at a position of a byte stream.
pub open spec fn lf_pair_at(bytes: Seq<u8>, at: int) -> bool {
    &&& 0 <= at <= bytes.len() - 2
    &&& bytes[at] == 0x0a
    &&& bytes[at + 1] == 0x0a
}

/// Whether two line ends of the long form stand at a position of a byte stream.
pub open spec fn crlf_pair_at(bytes: Seq<u8>, at: int) -> bool {
    &&& 0 <= at <= bytes.len() - 4
    &&& bytes[at] == 0x0d
    &&& bytes[at + 1] == 0x0a
    &&& bytes[at + 2] == 0x0d
    &&& bytes[at + 3] == 0x0a
}

/// Whether a frame of a server-sent event stream ends at a position.
pub open spec fn delimiter_at(bytes: Seq<u8>, at: int) -> bool {
    lf_pair_at(bytes, at) || crlf_pair_at(bytes, at)
}

/// Whether the first frame of a byte stream ends at a position.
pub open spec fn first_delimiter(bytes: Seq<u8>, at: int) -> bool {
    &&& delimiter_at(bytes, at)
    &&& forall|k: int| 0 <= k < at ==> !delimiter_at(bytes, k)
}

/// How many bytes the delimiter at a position has.
pub open spec fn delimiter_len(bytes: Seq<u8>, at: int) -> int {
    if crlf_pair_at(bytes, at) {
        4
    } else {
        2
    }
}

/// Where the first frame of a byte stream ends.
pub open spec fn first_end(bytes: Seq<u8>) -> Option<int> {
    if exists|at: int| first_delimiter(bytes, at) {
        Some(choose|at: int| first_delimiter(bytes, at))
    } else {
        None
    }
}

/// The data that one line of a frame carries.
pub open spec fn line_data(line: Seq<char>) -> Option<Seq<char>> {
    if stands_at(trim(line), "data:"@, 0) {
        Some(trim_start(trim(line).skip("data:"@.len() as int)))
    } else {
        None
    }
}

/// The data that the lines of a frame carry, in order.
pub open spec fn lines_data(lines: Seq<Seq<char>>) -> Seq<Seq<char>>
    decreases lines.len(),
{
    if lines.len() == 0 {
        Seq::empty()
    } else {
        match line_data(lines.last()) {
            Some(data) => lines_data(lines.drop_last()).push(data),
            None => lines_data(lines.drop_last()),
        }
    }
}

/// The data of a frame: that of its lines, a line feed between each and the next.
pub open spec fn frame_data(frame: Seq<char>) -> Option<Seq<char>> {
    let data = lines_data(split_on(frame, '\n'));
    if data.len() == 0 {
        None
    } else {
        Some(joined(data, "\n"@))
    }
}

/// What a byte stream holds: the data of its whole frames, and the bytes behind the last of them.
pub open spec fn stream_events(bytes: Seq<u8>) -> (Seq<Seq<char>>, Seq<u8>)
    decreases bytes.len(),
{
    match first_end(bytes) {
        Some(at) => {
            let next = at + delimiter_len(bytes, at);
            if 0 <= at && next <= bytes.len() {
                let (events, rest) = stream_events(bytes.skip(next));
                match frame_data(decode_utf8(bytes.take(at))) {
                    Some(data) => (seq![data] + events, rest),
                    None => (events, rest),
                }
            } else {
                (Seq::empty(), bytes)
            }
        },
        None => (Seq::empty(), bytes),
    }
}

/// Finds where the first frame of a server-sent event stream ends, in bytes.
pub fn find_sse_delimiter(input: &str) -> (at: Option<usize>)
    ensures
        (match at {
            Some(at) => first_delimiter(input.spec_bytes(), at as int),
            None => forall|k: int| !delimiter_at(input.spec_bytes(), k),
        }),
{
    let bytes = input.as_bytes();
    let len: usize = bytes.len();
    let mut at: usize = 0;
    while at < len
        invariant
            bytes@ == input.spec_bytes(),
            at <= len == bytes@.len(),
            forall|k: int| 0 <= k < at ==> !delimiter_at(bytes@, k),
        decreases len - at,
    {
        if len - at >= 2 && bytes[at] == 0x0a && bytes[at + 1] == 0x0a {
            return Some(at);
        }
        if len - at >= 4 && bytes[at] == 0x0d && bytes[at + 1] == 0x0a && bytes[at + 2] == 0x0d
            && bytes[at + 3] == 0x0a {
            return Some(at);
        }
        at = at + 1;
    }
    None
}

/// Reads the data of one frame of a server-sent event stream.
pub fn parse_sse_frame_data(frame: &str) -> (data: Option<String>)
    ensures
        data is Some == frame_data(frame@) is Some,
        data matches Some(data) ==> Some(data@) == frame_data(frame@),
{
    let lines = pieces(frame, '\n');
    let ghost all = split_on(frame@, '\n');
    let mut found: Vec<String> = Vec::new();
    for i in 0..lines.len()
        invariant
            all == texts(lines@),
            texts(found@) == lines_data(all.take(i as int)),
    {
        let ghost before = texts(found@);
        proof {
            assert(all.take(i + 1).drop_last() =~= all.take(i as int));
        }
        let line = trimmed(lines[i].as_str());
        if begins_with(line.as_str(), "data:") {
            let chars = chars_of(line.as_str());
            proof {
                reveal_strlit("data:");
                assert(chars@.subrange(5, chars@.len() as int) =~= line@.skip(5));
            }
            let rest = text_of(&chars, 5, chars.len());
            found.push(trimmed_start(rest.as_str()));
            proof {
                assert(texts(found@) =~= before.push(found@.last()@));
            }
        }
    }
    proof {
        assert(all.take(all.len() as int) =~= all);
    }
    if found.len() == 0 {
        None
    } else {
        Some(join(&found, "\n"))
    }
}

/// Cuts a server-sent event stream into its frames as it arrives.
pub struct SseParser {
    buf: String,
}

impl Default for SseParser {
    fn default() -> (value: SseParser)
        ensures
            value.pending() == Seq::<u8>::empty(),
    {
        SseParser::new()
    }
}

impl SseParser {
    /// The bytes that have arrived since the last whole frame.
    pub closed spec fn pending(self) -> Seq<u8> {
        encode_utf8(self.buf@)
    }

    /// A parser that nothing has reached yet.
    pub fn new() -> (parser: SseParser)
        ensures
            parser.pending() == Seq::<u8>::empty(),
    {
        SseParser { buf: String::new() }
    }

    /// Where the first of the waiting frames ends.
    fn next_end(&self) -> (at: Option<usize>)
        ensures
            (match at {
                Some(at) => first_delimiter(self.pending(), at as int),
                None => forall|k: int| !delimiter_at(self.pending(), k),
            }),
    {
        let waiting = self.buf.as_str();
        proof {
            assert(waiting.spec_bytes() == self.pending());
        }
        find_sse_delimiter(waiting)
    }

    /// Takes in the next stretch of the stream and hands out the data of the frames it completes.
    pub fn feed(&mut self, chunk: &str) -> (out: Vec<String>)
        ensures
            ({
                let (events, rest) = stream_events(old(self).pending() + encode_utf8(chunk@));
                &&& texts(out@) == events
                &&& final(self).pending() == rest
            }),
    {
        let ghost stream = old(self).pending() + encode_utf8(chunk@);
        proof {
            lemma_encode_concat(old(self).buf@, chunk@);
        }
        self.buf.append(chunk);
        proof {
            assert(self.pending() == stream);
        }
        let mut out: Vec<String> = Vec::new();
        proof {
            assert(texts(out@) + stream_events(stream).0 =~= stream_events(stream).0);
        }
        let mut found = self.next_end();
        while found.is_some()
            invariant
                ({
                    let (events, rest) = stream_events(self.pending());
                    let (all_events, all_rest) = stream_events(stream);
                    &&& all_events == texts(out@) + events
                    &&& all_rest == rest
                }),
                (match found {
                    Some(at) => first_delimiter(self.pending(), at as int),
                    None => forall|k: int| !delimiter_at(self.pending(), k),
                }),
            decreases self.pending().len(),
        {
            let index: usize = found.unwrap();
            let ghost bytes = self.pending();
            let ghost before = texts(out@);
            let ghost width = delimiter_len(bytes, index as int);
            let ghost rest_bytes = bytes.skip(index + width);
            proof {
                lemma_first_end(bytes, index as int);
                encode_utf8_valid_utf8(self.buf@);
                lemma_ascii_boundary(bytes, index as int);
            }
            let (frame, tail) = self.buf.as_str().split_at(index);
            let skip: usize = if tail.as_bytes()[0] == 0x0d {
                4
            } else {
                2
            };
            proof {
                encode_utf8_valid_utf8(tail@);
                lemma_ascii_boundary(tail.spec_bytes(), skip - 1);
            }
            let (_, rest) = tail.split_at(skip);
            let data = parse_sse_frame_data(frame);
            let kept = rest.to_owned();
            proof {
                encode_utf8_decode_utf8(frame@);
                assert(frame.spec_bytes() =~= bytes.take(index as int));
                assert(rest.spec_bytes() =~= rest_bytes);
            }
            self.buf = kept;
            if let Some(data) = data {
                out.push(data);
                proof {
                    assert(texts(out@) =~= before.push(data@));
                    assert(texts(out@) + stream_events(rest_bytes).0 =~= before + (seq![data@]
                        + stream_events(rest_bytes).0));
                }
            }
            found = self.next_end();
        }
        proof {
            assert(stream_events(self.pending()) == (Seq::<Seq<char>>::empty(), self.pending()));
            assert(texts(out@) + Seq::<Seq<char>>::empty() =~= texts(out@));
        }
        out
    }
}

pub(crate) proof fn lemma_first_end(bytes: Seq<u8>, at: int)
    requires
        first_delimiter(bytes, at),
    ensures
        first_end(bytes) == Some(at),
{
    let other = choose|at: int| first_delimiter(bytes, at);
    assert(first_delimiter(bytes, other));
}

/// An ASCII byte of a valid text stands between two character boundaries.
proof fn lemma_ascii_boundary(bytes: Seq<u8>, at: int)
    requires
        valid_utf8(bytes),
        0 <= at < bytes.len(),
        bytes[at] < 0x80,
    ensures
        is_char_boundary(bytes, at),
        is_char_boundary(bytes, at + 1),
    decreases bytes.len(),
{
    is_char_boundary_iff_not_is_continuation_byte(bytes, at);
    if at == 0 {
        reveal_with_fuel(is_char_boundary, 2);
    } else {
        let width = length_of_first_scalar(bytes);
        assert(at >= width);
        lemma_ascii_boundary(pop_first_scalar(bytes), at - width);
    }
}

pub(crate) proof fn lemma_encode_concat(a: Seq<char>, b: Seq<char>)
    ensures
        encode_utf8(a + b) == encode_utf8(a) + encode_utf8(b),
    decreases a.len(),
{
    if a.len() == 0 {
        assert(a + b =~= b);
        assert(encode_utf8(a) + encode_utf8(b) =~= encode_utf8(b));
    } else {
        assert((a + b).drop_first() =~= a.drop_first() + b);
        lemma_encode_concat(a.drop_first(), b);
    }
}

proof fn lemma_delimiter_stays(first: Seq<u8>, second: Seq<u8>, at: int)
    requires
        first_delimiter(first, at),
    ensures
        first_delimiter(first + second, at),
        delimiter_len(first + second, at) == delimiter_len(first, at),
{
    let all = first + second;
    assert forall|k: int| 0 <= k < at implies !delimiter_at(all, k) by {
        assert(!delimiter_at(first, k));
        assert(all[k] == first[k] && all[k + 1] == first[k + 1]);
        if crlf_pair_at(all, k) && k + 4 > first.len() {
            assert(all[at + 1] == first[at + 1]);
            assert(at == k + 1);
        }
    }
}

/// Where a stream is cut into stretches does not matter: two stretches, one after the other, give
/// the events that they give as one.
pub proof fn law_stretches_do_not_matter(first: Seq<u8>, second: Seq<u8>)
    ensures
        ({
            let (events, rest) = stream_events(first);
            let (more_events, more_rest) = stream_events(rest + second);
            stream_events(first + second) == (events + more_events, more_rest)
        }),
    decreases first.len(),
{
    match first_end(first) {
        Some(at) => {
            lemma_delimiter_stays(first, second, at);
            lemma_first_end(first + second, at);
            let next = at + delimiter_len(first, at);
            assert((first + second).skip(next) =~= first.skip(next) + second);
            assert((first + second).take(at) =~= first.take(at));
            law_stretches_do_not_matter(first.skip(next), second);
            let (events, rest) = stream_events(first.skip(next));
            let more = stream_events(rest + second).0;
            if let Some(data) = frame_data(decode_utf8(first.take(at))) {
                assert((seq![data] + events) + more =~= seq![data] + (events + more));
            }
        },
        None => {
            let more = stream_events(first + second).0;
            assert(Seq::<Seq<char>>::empty() + more =~= more);
        },
    }
}

/// Whether a text can be the data of an event on one line: it holds no line feed and no white
/// space around it.
pub open spec fn is_line(text: Seq<char>) -> bool {
    &&& text.len() > 0
    &&& !is_space(text[0])
    &&& !is_space(text.last())
    &&& forall|i: int| 0 <= i < text.len() ==> (#[trigger] text[i]) != '\n'
}

proof fn lemma_scalar_bytes(scalar: u32, i: int)
    requires
        scalar != 0x0a,
        0 <= i < encode_scalar(scalar).len(),
    ensures
        encode_scalar(scalar)[i] != 0x0a,
{
    assert(scalar <= 0x7f && scalar != 0x0a ==> (scalar & 0x7F) as u8 != 0x0a) by (bit_vector);
    assert(0xC0u8 | ((scalar >> 6) & 0x1F) as u8 != 0x0a) by (bit_vector);
    assert(0xE0u8 | ((scalar >> 12) & 0x0F) as u8 != 0x0a) by (bit_vector);
    assert(0xF0u8 | ((scalar >> 18) & 0x7) as u8 != 0x0a) by (bit_vector);
    assert(0x80u8 | (scalar & 0x3F) as u8 != 0x0a) by (bit_vector);
    assert(0x80u8 | ((scalar >> 6) & 0x3F) as u8 != 0x0a) by (bit_vector);
    assert(0x80u8 | ((scalar >> 12) & 0x3F) as u8 != 0x0a) by (bit_vector);
}

/// A text without a line feed has no byte of one.
pub(crate) proof fn lemma_no_line_feed(text: Seq<char>, i: int)
    requires
        forall|k: int| 0 <= k < text.len() ==> (#[trigger] text[k]) != '\n',
        0 <= i < encode_utf8(text).len(),
    ensures
        encode_utf8(text)[i] != 0x0a,
    decreases text.len(),
{
    if text.len() > 0 {
        let first = encode_scalar(text[0] as u32);
        if i < first.len() {
            if text[0] as u32 == 0x0a {
                char_u32_cast(text[0], 0x0a);
                assert(0x0au32 as char == '\n');
            }
            lemma_scalar_bytes(text[0] as u32, i);
        } else {
            let rest = text.drop_first();
            assert forall|k: int| 0 <= k < rest.len() implies (#[trigger] rest[k]) != '\n' by {
                assert(rest[k] == text[k + 1]);
            }
            lemma_no_line_feed(rest, i - first.len());
        }
    }
}

proof fn lemma_split_without(text: Seq<char>, separator: char)
    requires
        forall|i: int| 0 <= i < text.len() ==> (#[trigger] text[i]) != separator,
    ensures
        split_on(text, separator) == seq![text],
    decreases text.len(),
{
    if text.len() > 0 {
        let rest = text.drop_last();
        assert forall|i: int| 0 <= i < rest.len() implies (#[trigger] rest[i]) != separator by {
            assert(rest[i] == text[i]);
        }
        lemma_split_without(rest, separator);
        assert(text.last() != separator);
        let pieces = split_on(rest, separator);
        assert(pieces.last() == rest);
        assert(rest.push(text.last()) =~= text);
        assert(pieces.drop_last().push(text) =~= seq![text]);
    } else {
        assert(text =~= Seq::empty());
    }
}

/// The data of a frame with one line.
pub(crate) proof fn lemma_frame_data(text: Seq<char>)
    requires
        is_line(text),
    ensures
        frame_data("data: "@ + text) == Some(text),
{
    let line = "data: "@ + text;
    reveal_strlit("data: ");
    reveal_strlit("data:");
    assert forall|i: int| 0 <= i < line.len() implies (#[trigger] line[i]) != '\n' by {
        if i >= 6 {
            assert(line[i] == text[i - 6]);
        }
    }
    lemma_split_without(line, '\n');
    assert(line[0] == 'd');
    assert(trim_start(line) == line);
    assert(line.last() == text.last());
    assert(trim(line) == line);
    assert(line.subrange(0, 5) =~= "data:"@);
    assert(stands_at(line, "data:"@, 0));
    let rest = line.skip(5);
    assert(rest[0] == ' ');
    assert(rest.drop_first() =~= text);
    reveal_with_fuel(trim_start, 3);
    assert(trim_start(rest) == text);
    assert(line_data(line) == Some(text));
    reveal_with_fuel(lines_data, 2);
    assert(seq![line].drop_last() =~= Seq::empty());
    assert(lines_data(seq![line]) =~= seq![text]);
}

/// A reader of the stream gets back what was written: the frame of a line is one event with that
/// line as its data.
pub proof fn law_frame_is_read_back(text: Seq<char>)
    requires
        is_line(text),
    ensures
        stream_events(encode_utf8("data: "@ + text + "\n\n"@)) == (seq![text], Seq::<u8>::empty()),
{
    let line = "data: "@ + text;
    let frame = line + "\n\n"@;
    let bytes = encode_utf8(frame);
    let at = encode_utf8(line).len() as int;
    reveal_strlit("data: ");
    reveal_strlit("\n\n");
    lemma_encode_concat(line, "\n\n"@);
    is_ascii_chars_encode_utf8("\n\n"@);
    assert forall|i: int| 0 <= i < line.len() implies (#[trigger] line[i]) != '\n' by {
        if i >= 6 {
            assert(line[i] == text[i - 6]);
        }
    }
    assert forall|k: int| 0 <= k < at implies !delimiter_at(bytes, k) by {
        lemma_no_line_feed(line, k);
        assert(bytes[k] == encode_utf8(line)[k]);
        if crlf_pair_at(bytes, k) {
            if k + 1 < at {
                lemma_no_line_feed(line, k + 1);
                assert(bytes[k + 1] == encode_utf8(line)[k + 1]);
            } else {
                assert(bytes[k + 2] == encode_utf8("\n\n"@)[1]);
            }
        }
    }
    assert(bytes[at] == encode_utf8("\n\n"@)[0]);
    assert(bytes[at + 1] == encode_utf8("\n\n"@)[1]);
    assert("\n\n"@[0] as u8 == 0x0a && "\n\n"@[1] as u8 == 0x0a);
    assert(lf_pair_at(bytes, at));
    assert(first_delimiter(bytes, at));
    lemma_first_end(bytes, at);
    assert(bytes.take(at) =~= encode_utf8(line));
    encode_utf8_decode_utf8(line);
    lemma_frame_data(text);
    let rest = bytes.skip(at + 2);
    assert(rest =~= Seq::empty());
    assert(first_end(rest) is None) by {
        if exists|k: int| first_delimiter(rest, k) {
            let k = choose|k: int| first_delimiter(rest, k);
            assert(delimiter_at(rest, k));
        }
    }
    assert(stream_events(rest) == (Seq::<Seq<char>>::empty(), rest));
    assert(seq![text] + Seq::<Seq<char>>::empty() =~= seq![text]);
}

} // verus!
