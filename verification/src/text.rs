use vstd::prelude::*;
use vstd::utf8::*;
use vstd::string::*;

verus! {

/// A text as the caller reads it: the characters of an optional string.
pub open spec fn opt_text(text: Option<&str>) -> Option<Seq<char>> {
    match text {
        Some(text) => Some(text@),
        None => None,
    }
}

/// The characters of an optional owned string.
pub open spec fn opt_string(text: Option<String>) -> Option<Seq<char>> {
    match text {
        Some(text) => Some(text@),
        None => None,
    }
}

/// Whether two texts are the same, character by character.
pub(crate) fn same_text(a: &str, b: &str) -> (same: bool)
    ensures
        same == (a@ == b@),
{
    a.to_owned() == b.to_owned()
}

/// Wraps `String::push`: the character goes to the end of the text.
#[verifier::external_body]
pub(crate) fn push_char(text: &mut String, c: char)
    ensures
        final(text)@ == old(text)@.push(c),
{
    text.push(c)
}

/// The characters of a text, one by one.
pub(crate) fn chars_of(text: &str) -> (chars: Vec<char>)
    ensures
        chars@ == text@,
{
    let mut chars: Vec<char> = Vec::new();
    for c in it: text.chars()
        invariant
            chars@ == text@.take(it.index()),
            it.seq() == text@,
    {
        chars.push(c);
        proof {
            assert(text@.take(it.index() + 1) =~= text@.take(it.index()).push(c));
        }
    }
    proof {
        assert(text@.take(text@.len() as int) =~= text@);
    }
    chars
}

/// The text that a stretch of characters spells.
pub(crate) fn text_of(chars: &Vec<char>, from: usize, to: usize) -> (text: String)
    requires
        from <= to <= chars@.len(),
    ensures
        text@ == chars@.subrange(from as int, to as int),
{
    let mut text = String::new();
    for i in from..to
        invariant
            from <= to <= chars@.len(),
            text@ == chars@.subrange(from as int, i as int),
    {
        push_char(&mut text, chars[i]);
        proof {
            assert(chars@.subrange(from as int, i + 1) =~= chars@.subrange(from as int, i as int).push(chars@[i as int]));
        }
    }
    text
}

/// The text that `String::from_utf8_lossy` reads from bytes.
pub uninterp spec fn lossy_text(bytes: Seq<u8>) -> Seq<char>;

/// Wraps `String::from_utf8_lossy`, which reads bytes as UTF-8 and puts replacement characters
/// where they are none. The text is a function of the bytes; bytes that are valid UTF-8 are read
/// as what they encode.
#[verifier::external_body]
pub(crate) fn read_lossy(bytes: &[u8]) -> (text: String)
    ensures
        text@ == lossy_text(bytes@),
        valid_utf8(bytes@) ==> text@ == decode_utf8(bytes@),
{
    String::from_utf8_lossy(bytes).into_owned()
}

/// The characters with the Unicode property `White_Space`.
pub open spec fn is_space(c: char) -> bool {
    ||| 0x9 <= c as int <= 0xd
    ||| c as int == 0x20
    ||| c as int == 0x85
    ||| c as int == 0xa0
    ||| c as int == 0x1680
    ||| 0x2000 <= c as int <= 0x200a
    ||| c as int == 0x2028
    ||| c as int == 0x2029
    ||| c as int == 0x202f
    ||| c as int == 0x205f
    ||| c as int == 0x3000
}

/// A text without the white space at its start.
pub open spec fn trim_start(text: Seq<char>) -> Seq<char>
    decreases text.len(),
{
    if text.len() > 0 && is_space(text[0]) {
        trim_start(text.drop_first())
    } else {
        text
    }
}

/// A text without the white space at its end.
pub open spec fn trim_end(text: Seq<char>) -> Seq<char>
    decreases text.len(),
{
    if text.len() > 0 && is_space(text.last()) {
        trim_end(text.drop_last())
    } else {
        text
    }
}

/// A text without the white space around it.
pub open spec fn trim(text: Seq<char>) -> Seq<char> {
    trim_end(trim_start(text))
}

proof fn lemma_trim_start_space(text: Seq<char>)
    ensures
        trim_start(text).len() == 0 <==> (forall|i: int|
            0 <= i < text.len() ==> is_space(#[trigger] text[i])),
        trim_start(text).len() > 0 ==> !is_space(trim_start(text)[0]),
    decreases text.len(),
{
    if text.len() > 0 && is_space(text[0]) {
        let rest = text.drop_first();
        lemma_trim_start_space(rest);
        assert forall|i: int|
            (forall|k: int| 0 <= k < rest.len() ==> is_space(#[trigger] rest[k])) && 0 <= i
                < text.len() implies is_space(#[trigger] text[i]) by {
            if i > 0 {
                assert(rest[i - 1] == text[i]);
            }
        }
        assert(forall|k: int| 0 <= k < rest.len() ==> #[trigger] rest[k] == text[k + 1]);
    }
}

proof fn lemma_trim_end_kept(text: Seq<char>)
    requires
        text.len() > 0,
        !is_space(text[0]),
    ensures
        trim_end(text).len() > 0,
    decreases text.len(),
{
    if is_space(text.last()) {
        lemma_trim_end_kept(text.drop_last());
    }
}

/// A text is blank where it holds white space alone.
pub proof fn lemma_blank(text: Seq<char>)
    ensures
        trim(text).len() == 0 <==> (forall|i: int|
            0 <= i < text.len() ==> is_space(#[trigger] text[i])),
{
    lemma_trim_start_space(text);
    if trim_start(text).len() > 0 {
        lemma_trim_end_kept(trim_start(text));
    }
}

/// What begins with a text that is not blank is not blank.
pub proof fn lemma_begins_not_blank(text: Seq<char>, part: Seq<char>)
    requires
        stands_at(text, part, 0),
        trim(part).len() > 0,
    ensures
        trim(text).len() > 0,
{
    lemma_blank(text);
    lemma_blank(part);
    let at = choose|i: int| 0 <= i < part.len() && !is_space(#[trigger] part[i]);
    assert(text.subrange(0, part.len() as int)[at] == text[at]);
}

/// A text without any run of one character at its end.
pub open spec fn trim_end_of(text: Seq<char>, c: char) -> Seq<char>
    decreases text.len(),
{
    if text.len() > 0 && text.last() == c {
        trim_end_of(text.drop_last(), c)
    } else {
        text
    }
}

/// A character in lower case, where it is an ASCII letter.
pub open spec fn lower_char(c: char) -> char {
    if 'A' <= c && c <= 'Z' {
        (c as u32 + 32) as char
    } else {
        c
    }
}

/// A text with its ASCII letters in lower case.
pub open spec fn lower(text: Seq<char>) -> Seq<char> {
    text.map_values(|c: char| lower_char(c))
}

/// The pieces of a text between the occurrences of a separator.
pub open spec fn split_on(text: Seq<char>, separator: char) -> Seq<Seq<char>>
    decreases text.len(),
{
    if text.len() == 0 {
        seq![Seq::empty()]
    } else {
        let pieces = split_on(text.drop_last(), separator);
        if text.last() == separator {
            pieces.push(Seq::empty())
        } else {
            pieces.drop_last().push(pieces.last().push(text.last()))
        }
    }
}

/// Where a character first stands in a text, or the text's length where it does not.
pub open spec fn first_position(text: Seq<char>, c: char) -> int
    decreases text.len(),
{
    if text.len() == 0 || text[0] == c {
        0
    } else {
        1 + first_position(text.drop_first(), c)
    }
}

/// The texts, one after the other, with a separator between each and the next.
pub open spec fn joined(texts: Seq<Seq<char>>, separator: Seq<char>) -> Seq<char>
    decreases texts.len(),
{
    if texts.len() == 0 {
        Seq::empty()
    } else if texts.len() == 1 {
        texts[0]
    } else {
        joined(texts.drop_last(), separator) + separator + texts.last()
    }
}

/// Whether a text stands in another at a position.
pub open spec fn stands_at(text: Seq<char>, part: Seq<char>, at: int) -> bool {
    &&& 0 <= at <= text.len() - part.len()
    &&& text.subrange(at, at + part.len()) == part
}

/// Whether a text stands anywhere in another.
pub open spec fn contains_text(text: Seq<char>, part: Seq<char>) -> bool {
    exists|at: int| stands_at(text, part, at)
}

/// What the strings of a list spell.
pub open spec fn texts(strings: Seq<String>) -> Seq<Seq<char>> {
    strings.map_values(|text: String| text@)
}

pub(crate) fn is_space_char(c: char) -> (space: bool)
    ensures
        space == is_space(c),
{
    let code: u32 = c as u32;
    (code >= 0x9 && code <= 0xd) || code == 0x20 || code == 0x85 || code == 0xa0 || code == 0x1680
        || (code >= 0x2000 && code <= 0x200a) || code == 0x2028 || code == 0x2029 || code == 0x202f
        || code == 0x205f || code == 0x3000
}

/// Where a stretch of characters begins once white space is passed over.
fn start_of(chars: &Vec<char>, from: usize, to: usize) -> (start: usize)
    requires
        from <= to <= chars@.len(),
    ensures
        from <= start <= to,
        chars@.subrange(start as int, to as int) == trim_start(
            chars@.subrange(from as int, to as int),
        ),
{
    let mut start: usize = from;
    while start < to && is_space_char(chars[start])
        invariant
            from <= start <= to <= chars@.len(),
            trim_start(chars@.subrange(from as int, to as int)) == trim_start(
                chars@.subrange(start as int, to as int),
            ),
        decreases to - start,
    {
        proof {
            assert(chars@.subrange(start as int, to as int).drop_first() =~= chars@.subrange(
                start + 1,
                to as int,
            ));
        }
        start = start + 1;
    }
    start
}

/// Where a stretch of characters ends once the white space behind it is left off.
fn end_of(chars: &Vec<char>, from: usize, to: usize) -> (end: usize)
    requires
        from <= to <= chars@.len(),
    ensures
        from <= end <= to,
        chars@.subrange(from as int, end as int) == trim_end(
            chars@.subrange(from as int, to as int),
        ),
{
    let mut end: usize = to;
    while end > from && is_space_char(chars[end - 1])
        invariant
            from <= end <= to <= chars@.len(),
            trim_end(chars@.subrange(from as int, to as int)) == trim_end(
                chars@.subrange(from as int, end as int),
            ),
        decreases end,
    {
        proof {
            assert(chars@.subrange(from as int, end as int).drop_last() =~= chars@.subrange(
                from as int,
                end - 1,
            ));
        }
        end = end - 1;
    }
    end
}

/// The text without the white space around it.
pub(crate) fn trimmed(text: &str) -> (out: String)
    ensures
        out@ == trim(text@),
{
    let chars = chars_of(text);
    let len: usize = chars.len();
    let start: usize = start_of(&chars, 0, len);
    let end: usize = end_of(&chars, start, len);
    proof {
        assert(chars@.subrange(0, len as int) =~= text@);
    }
    text_of(&chars, start, end)
}

/// The text without the white space at its start.
pub(crate) fn trimmed_start(text: &str) -> (out: String)
    ensures
        out@ == trim_start(text@),
{
    let chars = chars_of(text);
    let len: usize = chars.len();
    let start: usize = start_of(&chars, 0, len);
    proof {
        assert(chars@.subrange(0, len as int) =~= text@);
    }
    text_of(&chars, start, len)
}

/// Whether nothing but white space stands in the text.
pub(crate) fn is_blank(text: &str) -> (blank: bool)
    ensures
        blank == (trim(text@).len() == 0),
{
    trimmed(text).as_str().is_empty()
}

/// The text without any run of one character at its end.
pub(crate) fn trimmed_end_of(text: &str, c: char) -> (out: String)
    ensures
        out@ == trim_end_of(text@, c),
{
    let chars = chars_of(text);
    let mut end: usize = chars.len();
    proof {
        assert(chars@.take(end as int) =~= text@);
    }
    while end > 0 && chars[end - 1] == c
        invariant
            end <= chars@.len(),
            trim_end_of(text@, c) == trim_end_of(chars@.take(end as int), c),
        decreases end,
    {
        proof {
            assert(chars@.take(end as int).drop_last() =~= chars@.take(end - 1));
        }
        end = end - 1;
    }
    proof {
        assert(chars@.take(end as int) =~= chars@.subrange(0, end as int));
    }
    text_of(&chars, 0, end)
}

/// The text with its ASCII letters in lower case.
pub(crate) fn lowered(text: &str) -> (out: String)
    ensures
        out@ == lower(text@),
{
    let mut out = String::new();
    for c in it: text.chars()
        invariant
            it.seq() == text@,
            out@ == lower(text@.take(it.index())),
    {
        let small: char = if 'A' <= c && c <= 'Z' {
            ((c as u8) + 32) as char
        } else {
            c
        };
        push_char(&mut out, small);
        proof {
            assert(lower(text@.take(it.index() + 1)) =~= lower(text@.take(it.index())).push(lower_char(c)));
        }
    }
    proof {
        assert(text@.take(text@.len() as int) =~= text@);
    }
    out
}

/// The pieces of the text between the occurrences of a separator.
pub(crate) fn pieces(text: &str, separator: char) -> (out: Vec<String>)
    ensures
        texts(out@) == split_on(text@, separator),
        out@.len() > 0,
{
    let mut out: Vec<String> = Vec::new();
    let mut current = String::new();
    proof {
        assert(texts(out@).push(current@) =~= split_on(text@.take(0), separator));
    }
    for c in it: text.chars()
        invariant
            it.seq() == text@,
            texts(out@).push(current@) == split_on(text@.take(it.index()), separator),
    {
        let ghost before = texts(out@);
        let ghost piece = current@;
        proof {
            assert(text@.take(it.index() + 1).drop_last() =~= text@.take(it.index()));
        }
        if c == separator {
            out.push(current);
            current = String::new();
            proof {
                assert(texts(out@) =~= before.push(piece));
            }
        } else {
            push_char(&mut current, c);
            proof {
                assert(before.push(piece).drop_last() =~= before);
            }
        }
    }
    let ghost before = texts(out@);
    let ghost last = current@;
    out.push(current);
    proof {
        assert(text@.take(text@.len() as int) =~= text@);
        assert(texts(out@) =~= before.push(last));
    }
    out
}

/// The texts around the first occurrence of a separator.
pub(crate) fn parts_around(text: &str, separator: char) -> (parts: Option<(String, String)>)
    ensures
        parts is Some == text@.contains(separator),
        parts matches Some((before, after)) ==> {
            let at = first_position(text@, separator);
            &&& before@ == text@.take(at)
            &&& after@ == text@.skip(at + 1)
        },
{
    let chars = chars_of(text);
    let mut i: usize = 0;
    proof {
        assert(text@.skip(0) =~= text@);
    }
    while i < chars.len()
        invariant
            i <= chars@.len(),
            chars@ == text@,
            first_position(text@, separator) == i + first_position(text@.skip(i as int), separator),
            forall|k: int| 0 <= k < i ==> text@[k] != separator,
        decreases chars@.len() - i,
    {
        if chars[i] == separator {
            proof {
                assert(text@.take(i as int) =~= text@.subrange(0, i as int));
                assert(text@.skip(i + 1) =~= text@.subrange(i + 1, text@.len() as int));
            }
            return Some((text_of(&chars, 0, i), text_of(&chars, i + 1, chars.len())));
        }
        proof {
            assert(text@.skip(i as int).drop_first() =~= text@.skip(i + 1));
        }
        i = i + 1;
    }
    None
}

/// The texts, one after the other, with a separator between each and the next.
pub(crate) fn join(parts: &Vec<String>, separator: &str) -> (out: String)
    ensures
        out@ == joined(texts(parts@), separator@),
{
    let mut out = String::new();
    let ghost all = texts(parts@);
    for i in 0..parts.len()
        invariant
            all == texts(parts@),
            out@ == joined(all.take(i as int), separator@),
    {
        proof {
            assert(all.take(i + 1).drop_last() =~= all.take(i as int));
        }
        if i > 0 {
            out.append(separator);
        }
        out.append(parts[i].as_str());
        proof {
            if i == 0 {
                assert(out@ =~= joined(all.take(1), separator@));
            }
        }
    }
    proof {
        assert(all.take(all.len() as int) =~= all);
    }
    out
}

/// One text behind the other.
pub(crate) fn concat(first: &str, second: &str) -> (out: String)
    ensures
        out@ == first@ + second@,
{
    let mut out = first.to_owned();
    out.append(second);
    out
}

/// Whether a stretch of characters is a given text.
fn stands_at_position(chars: &Vec<char>, part: &Vec<char>, at: usize) -> (stands: bool)
    ensures
        stands == stands_at(chars@, part@, at as int),
{
    if part.len() > chars.len() || at > chars.len() - part.len() {
        return false;
    }
    let mut k: usize = 0;
    while k < part.len()
        invariant
            k <= part@.len(),
            at + part@.len() <= chars.len(),
            forall|j: int| 0 <= j < k ==> chars@[at + j] == part@[j],
        decreases part@.len() - k,
    {
        if chars[at + k] != part[k] {
            proof {
                assert(chars@.subrange(at as int, at + part@.len())[k as int] != part@[k as int]);
            }
            return false;
        }
        k = k + 1;
    }
    proof {
        assert(chars@.subrange(at as int, at + part@.len()) =~= part@);
    }
    true
}

/// Whether a text begins with another.
pub(crate) fn begins_with(text: &str, part: &str) -> (begins: bool)
    ensures
        begins == stands_at(text@, part@, 0),
{
    stands_at_position(&chars_of(text), &chars_of(part), 0)
}

/// Whether a text stands anywhere in another.
pub(crate) fn has_text(text: &str, part: &str) -> (present: bool)
    ensures
        present == contains_text(text@, part@),
{
    let chars = chars_of(text);
    let wanted = chars_of(part);
    let mut at: usize = 0;
    while at <= chars.len()
        invariant
            chars@ == text@,
            wanted@ == part@,
            at <= chars@.len() + 1,
            forall|k: int| 0 <= k < at ==> !stands_at(text@, part@, k),
        decreases chars@.len() + 1 - at,
    {
        if stands_at_position(&chars, &wanted, at) {
            return true;
        }
        if at == chars.len() {
            return false;
        }
        at = at + 1;
    }
    false
}

/// Whether a character is a decimal digit.
pub open spec fn is_digit(c: char) -> bool {
    '0' <= c && c <= '9'
}

/// Whether a text is made of decimal digits, one at least.
pub open spec fn all_digits(text: Seq<char>) -> bool {
    &&& text.len() > 0
    &&& forall|i: int| 0 <= i < text.len() ==> is_digit(#[trigger] text[i])
}

/// The number that decimal digits spell.
pub open spec fn digits_value(text: Seq<char>) -> int
    decreases text.len(),
{
    if text.len() == 0 {
        0
    } else {
        digits_value(text.drop_last()) * 10 + (text.last() as int - '0' as int)
    }
}

/// The whole number that a text spells, with or without a sign.
pub open spec fn decimal(text: Seq<char>) -> Option<int> {
    if all_digits(text) {
        Some(digits_value(text))
    } else if text.len() > 0 && text[0] == '+' && all_digits(text.skip(1)) {
        Some(digits_value(text.skip(1)))
    } else if text.len() > 0 && text[0] == '-' && all_digits(text.skip(1)) {
        Some(-digits_value(text.skip(1)))
    } else {
        None
    }
}

proof fn lemma_digits_value_grows(text: Seq<char>, n: int)
    requires
        0 <= n <= text.len(),
        forall|i: int| 0 <= i < text.len() ==> is_digit(#[trigger] text[i]),
    ensures
        0 <= digits_value(text.take(n)) <= digits_value(text),
    decreases text.len(),
{
    if n < text.len() {
        lemma_digits_value_grows(text.drop_last(), n);
        assert(text.drop_last().take(n) =~= text.take(n));
    } else {
        assert(text.take(n) =~= text);
        if text.len() > 0 {
            lemma_digits_value_grows(text.drop_last(), text.len() - 1);
        }
    }
}

/// The number that a run of decimal digits spells, where 64 bits can hold it.
fn digits_number(chars: &Vec<char>, from: usize) -> (value: Option<u64>)
    requires
        from <= chars@.len(),
    ensures
        ({
            let digits = chars@.skip(from as int);
            match value {
                Some(value) => all_digits(digits) && value == digits_value(digits),
                None => all_digits(digits) ==> digits_value(digits) > u64::MAX,
            }
        }),
{
    let ghost digits = chars@.skip(from as int);
    let mut value: u64 = 0;
    let mut i: usize = from;
    if i == chars.len() {
        return None;
    }
    while i < chars.len()
        invariant
            from <= i <= chars@.len(),
            digits == chars@.skip(from as int),
            forall|k: int| 0 <= k < i - from ==> is_digit(#[trigger] digits[k]),
            value == digits_value(digits.take(i - from)),
        decreases chars@.len() - i,
    {
        let c: char = chars[i];
        proof {
            assert(digits[i - from] == c);
            assert(digits.take(i - from + 1).drop_last() =~= digits.take(i - from));
            if all_digits(digits) {
                lemma_digits_value_grows(digits, i - from + 1);
            }
        }
        if c < '0' || c > '9' {
            return None;
        }
        let digit: u64 = (c as u64) - ('0' as u64);
        let next: u128 = (value as u128) * 10 + (digit as u128);
        if next > u64::MAX as u128 {
            return None;
        }
        value = next as u64;
        i = i + 1;
    }
    proof {
        assert(digits.take(digits.len() as int) =~= digits);
    }
    Some(value)
}

/// Reads a signed 64-bit integer in decimal.
pub(crate) fn parse_signed(text: &str) -> (value: Option<i64>)
    ensures
        value == (match decimal(text@) {
            Some(number) => if i64::MIN <= number <= i64::MAX {
                Some(number as i64)
            } else {
                None
            },
            None => None,
        }),
{
    let chars = chars_of(text);
    proof {
        assert(chars@.skip(0) =~= text@);
    }
    if chars.len() == 0 {
        return None;
    }
    if chars[0] == '-' {
        proof {
            assert(!is_digit(text@[0]));
            if all_digits(text@.skip(1)) {
                lemma_digits_value_grows(text@.skip(1), 0);
            }
        }
        match digits_number(&chars, 1) {
            Some(value) => {
                if value <= i64::MAX as u64 {
                    Some(-(value as i64))
                } else if value == i64::MAX as u64 + 1 {
                    Some(i64::MIN)
                } else {
                    None
                }
            },
            None => None,
        }
    } else {
        let from: usize = if chars[0] == '+' {
            1
        } else {
            0
        };
        proof {
            if chars@[0] == '+' {
                assert(!is_digit(text@[0]));
            }
            if all_digits(chars@.skip(from as int)) {
                lemma_digits_value_grows(chars@.skip(from as int), 0);
            }
        }
        match digits_number(&chars, from) {
            Some(value) => {
                if value <= i64::MAX as u64 {
                    Some(value as i64)
                } else {
                    None
                }
            },
            None => None,
        }
    }
}

/// Whether a text is one of a list.
pub(crate) fn listed(list: &Vec<String>, text: &str) -> (found: bool)
    ensures
        found == texts(list@).contains(text@),
{
    for i in 0..list.len()
        invariant
            forall|k: int| 0 <= k < i ==> (#[trigger] texts(list@)[k]) != text@,
    {
        proof {
            assert(texts(list@)[i as int] == list@[i as int]@);
        }
        if same_text(list[i].as_str(), text) {
            return true;
        }
    }
    false
}

/// A text, or another in its place.
pub open spec fn text_or(text: Option<Seq<char>>, default: Seq<char>) -> Seq<char> {
    match text {
        Some(text) => text,
        None => default,
    }
}

/// A text, or the empty one in its place.
pub(crate) fn or_empty<'a>(text: Option<&'a str>) -> (out: &'a str)
    ensures
        out@ == text_or(opt_text(text), ""@),
{
    match text {
        Some(text) => text,
        None => "",
    }
}

/// A decimal digit.
pub open spec fn digit_char(digit: nat) -> char {
    (48 + digit) as char
}

/// The decimal digits of a number.
pub open spec fn number_digits(number: nat) -> Seq<char>
    decreases number,
{
    if number < 10 {
        seq![digit_char(number)]
    } else {
        number_digits(number / 10).push(digit_char(number % 10))
    }
}

fn push_number(out: &mut String, number: u64)
    ensures
        final(out)@ == old(out)@ + number_digits(number as nat),
    decreases number,
{
    let ghost before = out@;
    if number >= 10 {
        push_number(out, number / 10);
    }
    let digit: u8 = (48 + number % 10) as u8;
    push_char(out, digit as char);
    proof {
        assert(out@ =~= before + number_digits(number as nat));
    }
}

/// Writes a number in decimal digits.
pub(crate) fn number_text(number: u64) -> (text: String)
    ensures
        text@ == number_digits(number as nat),
{
    let mut text = String::new();
    push_number(&mut text, number);
    proof {
        assert(text@ =~= number_digits(number as nat));
    }
    text
}

proof fn lemma_digits_value_positive(text: Seq<char>)
    requires
        forall|i: int| 0 <= i < text.len() ==> is_digit(#[trigger] text[i]),
    ensures
        digits_value(text) >= 0,
    decreases text.len(),
{
    if text.len() > 0 {
        lemma_digits_value_positive(text.drop_last());
    }
}

/// A number without a minus sign is not negative.
pub(crate) proof fn lemma_unsigned(text: Seq<char>)
    requires
        text.len() > 0 ==> text[0] != '-',
    ensures
        decimal(text) matches Some(number) ==> number >= 0,
{
    if all_digits(text) {
        lemma_digits_value_positive(text);
    } else if text.len() > 0 && all_digits(text.skip(1)) {
        lemma_digits_value_positive(text.skip(1));
    }
}

} // verus!
