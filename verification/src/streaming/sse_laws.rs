use vstd::prelude::*;
use vstd::string::*;
use vstd::utf8::*;

use crate::streaming::sse::{
    crlf_pair_at, delimiter_at, first_delimiter, frame_data, is_line, lemma_encode_concat,
    lemma_first_end, lemma_frame_data, lemma_no_line_feed, line_data, lines_data, stream_events,
};
use crate::text::{joined, split_on, stands_at, trim, trim_start};
use crate::text_laws::{is_without, law_split_undoes_join};

verus! {

/// A frame that has not ended waits: nothing is told of it, and nothing of it is lost.
pub proof fn law_unended_frame_waits(bytes: Seq<u8>)
    requires
        forall|at: int| !delimiter_at(bytes, at),
    ensures
        stream_events(bytes) == (Seq::<Seq<char>>::empty(), bytes),
{
    if exists|at: int| first_delimiter(bytes, at) {
        let at = choose|at: int| first_delimiter(bytes, at);
        assert(delimiter_at(bytes, at));
    }
}

/// What a frame does not end with is none of its ends: a lone line feed is not one.
pub proof fn law_frame_ends_at_an_empty_line(bytes: Seq<u8>, at: int)
    requires
        0 <= at,
        at + 1 < bytes.len(),
    ensures
        bytes[at] == 0x0a && bytes[at + 1] == 0x0a ==> delimiter_at(bytes, at),
        at + 3 < bytes.len() && bytes[at] == 0x0d && bytes[at + 1] == 0x0a && bytes[at + 2] == 0x0d
            && bytes[at + 3] == 0x0a ==> delimiter_at(bytes, at),
        bytes[at] != 0x0a && bytes[at] != 0x0d ==> !delimiter_at(bytes, at),
        bytes[at] == 0x0a && bytes[at + 1] != 0x0a ==> !delimiter_at(bytes, at),
        bytes[at] == 0x0d && bytes[at + 1] != 0x0a ==> !delimiter_at(bytes, at),
{
}

/// A line that does not begin with `data:` says nothing.
pub proof fn law_other_lines_say_nothing(lines: Seq<Seq<char>>, line: Seq<char>)
    requires
        !stands_at(trim(line), "data:"@, 0),
    ensures
        lines_data(lines.push(line)) == lines_data(lines),
{
    assert(lines.push(line).drop_last() =~= lines);
}

/// What stands behind `data:` on a line is its data, without the white space before it.
pub proof fn law_data_stands_behind_its_name(line: Seq<char>, rest: Seq<char>)
    requires
        trim(line) == "data:"@ + rest,
    ensures
        line_data(line) == Some(trim_start(rest)),
{
    reveal_strlit("data:");
    assert(trim(line).subrange(0, 5) =~= "data:"@);
    assert(trim(line).skip(5) =~= rest);
}

/// A line of data.
pub open spec fn data_of(text: Seq<char>) -> Seq<char> {
    "data: "@ + text
}

/// Lines of data.
pub open spec fn data_lines(texts: Seq<Seq<char>>) -> Seq<Seq<char>> {
    texts.map_values(|text: Seq<char>| data_of(text))
}

proof fn lemma_line_data(text: Seq<char>)
    requires
        is_line(text),
    ensures
        line_data(data_of(text)) == Some(text),
        is_without(data_of(text), '\n'),
{
    lemma_frame_data(text);
    let line = data_of(text);
    reveal_strlit("data: ");
    assert forall|i: int| 0 <= i < line.len() implies (#[trigger] line[i]) != '\n' by {
        if i >= 6 {
            assert(line[i] == text[i - 6]);
        }
    }
    law_split_undoes_join(seq![line], '\n');
    assert(joined(seq![line], seq!['\n']) == line);
    assert(split_on(line, '\n') == seq![line]);
    reveal_with_fuel(lines_data, 2);
    assert(seq![line].drop_last() =~= Seq::empty());
    assert(lines_data(seq![line]).len() > 0);
    let found = lines_data(seq![line]);
    assert(found =~= seq![line_data(line)->0]);
    assert(joined(found, "\n"@) == found[0]);
}

proof fn lemma_data_lines(texts: Seq<Seq<char>>)
    requires
        forall|i: int| 0 <= i < texts.len() ==> is_line(#[trigger] texts[i]),
    ensures
        lines_data(data_lines(texts)) == texts,
    decreases texts.len(),
{
    let lines = data_lines(texts);
    if texts.len() > 0 {
        let fewer = texts.drop_last();
        assert forall|i: int| 0 <= i < fewer.len() implies is_line(#[trigger] fewer[i]) by {
            assert(fewer[i] == texts[i]);
        }
        lemma_data_lines(fewer);
        assert(lines.drop_last() =~= data_lines(fewer));
        lemma_line_data(texts[texts.len() - 1]);
        assert(lines.last() == data_of(texts[texts.len() - 1]));
        assert(fewer.push(texts.last()) =~= texts);
    } else {
        assert(lines_data(lines) =~= texts);
    }
}

/// The data of a frame is that of all its lines of data, in order, a line feed between each and
/// the next.
pub proof fn law_lines_of_data_are_one_event(texts: Seq<Seq<char>>)
    requires
        texts.len() > 0,
        forall|i: int| 0 <= i < texts.len() ==> is_line(#[trigger] texts[i]),
    ensures
        frame_data(joined(data_lines(texts), "\n"@)) == Some(joined(texts, "\n"@)),
{
    let lines = data_lines(texts);
    assert forall|i: int| 0 <= i < lines.len() implies is_without(#[trigger] lines[i], '\n') by {
        lemma_line_data(texts[i]);
    }
    reveal_strlit("\n");
    assert("\n"@ =~= seq!['\n']);
    law_split_undoes_join(lines, '\n');
    lemma_data_lines(texts);
}

/// A reader of the stream gets back what was written with line ends of the long form, too.
pub proof fn law_long_frame_is_read_back(text: Seq<char>)
    requires
        is_line(text),
    ensures
        stream_events(encode_utf8("data: "@ + text + "\r\n\r\n"@)) == (
            seq![text],
            Seq::<u8>::empty(),
        ),
{
    let line = "data: "@ + text;
    let frame = line + "\r\n\r\n"@;
    let bytes = encode_utf8(frame);
    let at = encode_utf8(line).len() as int;
    reveal_strlit("data: ");
    reveal_strlit("\r\n\r\n");
    lemma_encode_concat(line, "\r\n\r\n"@);
    is_ascii_chars_encode_utf8("\r\n\r\n"@);
    lemma_line_data(text);
    let end = encode_utf8("\r\n\r\n"@);
    assert("\r\n\r\n"@[0] as u8 == 0x0d && "\r\n\r\n"@[1] as u8 == 0x0a);
    assert("\r\n\r\n"@[2] as u8 == 0x0d && "\r\n\r\n"@[3] as u8 == 0x0a);
    assert(end.len() == 4);
    assert(end[0] == 0x0d && end[1] == 0x0a && end[2] == 0x0d && end[3] == 0x0a);
    assert(bytes[at] == end[0] && bytes[at + 1] == end[1]);
    assert(bytes[at + 2] == end[2] && bytes[at + 3] == end[3]);
    assert forall|k: int| 0 <= k < at implies !delimiter_at(bytes, k) by {
        lemma_no_line_feed(line, k);
        assert(bytes[k] == encode_utf8(line)[k]);
        if crlf_pair_at(bytes, k) {
            if k + 1 < at {
                lemma_no_line_feed(line, k + 1);
                assert(bytes[k + 1] == encode_utf8(line)[k + 1]);
            }
        }
    }
    assert(crlf_pair_at(bytes, at));
    assert(first_delimiter(bytes, at));
    lemma_first_end(bytes, at);
    assert(bytes.take(at) =~= encode_utf8(line));
    encode_utf8_decode_utf8(line);
    lemma_frame_data(text);
    let rest = bytes.skip(at + 4);
    assert(rest =~= Seq::empty());
    assert forall|k: int| !delimiter_at(rest, k) by {}
    law_unended_frame_waits(rest);
    assert(seq![text] + Seq::<Seq<char>>::empty() =~= seq![text]);
}

} // verus!
