//! Query strings in the `application/x-www-form-urlencoded` syntax.
//!
//! The text of a list of name and value pairs is stated here byte by byte, and
//! so is the way back from such a text to the pairs. Writing the text is left
//! to the `url` crate; that reading a written text gives the pairs back is
//! proved.

use vstd::prelude::*;
use vstd::utf8::*;
use crate::text::digit_char;

verus! {

/// Names and values, in the order in which they are written.
pub type Entries = Seq<(Seq<char>, Seq<char>)>;

/// The bytes that are written as they are: ASCII letters and digits, `*`, `-`,
/// `.` and `_`.
pub open spec fn is_unchanged(byte: u8) -> bool {
    ||| byte == 0x2A
    ||| byte == 0x2D
    ||| byte == 0x2E
    ||| 0x30 <= byte <= 0x39
    ||| 0x41 <= byte <= 0x5A
    ||| byte == 0x5F
    ||| 0x61 <= byte <= 0x7A
}

/// The upper-case hexadecimal digit of a value below 16.
pub open spec fn hex_digit(value: nat) -> char {
    if value < 10 {
        digit_char(value)
    } else if value == 10 {
        'A'
    } else if value == 11 {
        'B'
    } else if value == 12 {
        'C'
    } else if value == 13 {
        'D'
    } else if value == 14 {
        'E'
    } else {
        'F'
    }
}

/// The value of a hexadecimal digit of either case.
pub open spec fn hex_value(digit: char) -> Option<nat> {
    let code = digit as u32;
    if 0x30 <= code <= 0x39 {
        Some((code - 0x30) as nat)
    } else if 0x41 <= code <= 0x46 {
        Some((code - 0x41 + 10) as nat)
    } else if 0x61 <= code <= 0x66 {
        Some((code - 0x61 + 10) as nat)
    } else {
        None
    }
}

/// How one byte is written: as itself, a space as `+`, any other byte as `%`
/// and its two hexadecimal digits.
pub open spec fn encoded_byte(byte: u8) -> Seq<char> {
    if is_unchanged(byte) {
        seq![byte as char]
    } else if byte == 0x20 {
        seq!['+']
    } else {
        seq!['%', hex_digit(byte as nat / 16), hex_digit(byte as nat % 16)]
    }
}

/// How a string of bytes is written.
pub open spec fn encoded_bytes(bytes: Seq<u8>) -> Seq<char>
    decreases bytes.len(),
{
    if bytes.len() == 0 {
        Seq::empty()
    } else {
        encoded_byte(bytes[0]) + encoded_bytes(bytes.drop_first())
    }
}

/// How a name or a value is written: the bytes of its UTF-8 form, each as
/// [`encoded_byte`] says.
pub open spec fn encoded_text(text: Seq<char>) -> Seq<char> {
    encoded_bytes(encode_utf8(text))
}

/// A name, `=`, and the value.
pub open spec fn encoded_entry(entry: (Seq<char>, Seq<char>)) -> Seq<char> {
    encoded_text(entry.0) + seq!['='] + encoded_text(entry.1)
}

/// The entries in their order, with `&` between one and the next.
pub open spec fn encoded_entries(entries: Entries) -> Seq<char>
    decreases entries.len(),
{
    if entries.len() == 0 {
        Seq::empty()
    } else if entries.len() == 1 {
        encoded_entry(entries[0])
    } else {
        encoded_entry(entries[0]) + seq!['&'] + encoded_entries(entries.drop_first())
    }
}

/// The bytes that a written name or value stands for: `+` is a space, `%` with
/// two hexadecimal digits is the byte they give, and any other character
/// stands for its own UTF-8 form.
pub open spec fn decoded_bytes(text: Seq<char>) -> Seq<u8>
    decreases text.len(),
{
    if text.len() == 0 {
        Seq::empty()
    } else if text[0] == '+' {
        seq![0x20u8] + decoded_bytes(text.skip(1))
    } else if text[0] == '%' && text.len() >= 3 && hex_value(text[1]) is Some && hex_value(
        text[2],
    ) is Some {
        seq![(hex_value(text[1])->0 * 16 + hex_value(text[2])->0) as u8] + decoded_bytes(
            text.skip(3),
        )
    } else {
        encode_utf8(seq![text[0]]) + decoded_bytes(text.skip(1))
    }
}

/// The name or value that a written text stands for, where its bytes are
/// UTF-8.
pub open spec fn decoded_text(text: Seq<char>) -> Option<Seq<char>> {
    let bytes = decoded_bytes(text);
    if valid_utf8(bytes) {
        Some(decode_utf8(bytes))
    } else {
        None
    }
}

/// The place of the first `mark` in `items`, or the length of `items` where
/// they hold none.
pub open spec fn position<A>(items: Seq<A>, mark: A) -> int
    decreases items.len(),
{
    if items.len() == 0 {
        0
    } else if items[0] == mark {
        0
    } else {
        1 + position(items.drop_first(), mark)
    }
}

/// What stands before the first `mark` in `text`.
pub open spec fn before(text: Seq<char>, mark: char) -> Seq<char> {
    let split = position(text, mark);
    if 0 <= split <= text.len() {
        text.subrange(0, split)
    } else {
        text
    }
}

/// What stands after the first `mark` in `text`; nothing where it holds none.
pub open spec fn after(text: Seq<char>, mark: char) -> Seq<char> {
    let split = position(text, mark);
    if 0 <= split < text.len() {
        text.subrange(split + 1, text.len() as int)
    } else {
        Seq::empty()
    }
}

/// The entry that one segment of a query stands for: the name before the first
/// `=`, the value after it.
pub open spec fn decoded_entry(segment: Seq<char>) -> Option<(Seq<char>, Seq<char>)> {
    match (decoded_text(before(segment, '=')), decoded_text(after(segment, '='))) {
        (Some(name), Some(value)) => Some((name, value)),
        _ => None,
    }
}

/// The entries that a query stands for: one for each segment between `&`
/// signs that is not empty. `None` where a name or a value is not UTF-8.
pub open spec fn decoded_entries(query: Seq<char>) -> Option<Entries>
    decreases query.len(),
{
    if query.len() == 0 {
        Some(Seq::empty())
    } else {
        let segment = before(query, '&');
        let rest = after(query, '&');
        if segment.len() == 0 {
            decoded_entries(rest)
        } else {
            match (decoded_entry(segment), decoded_entries(rest)) {
                (Some(entry), Some(entries)) => Some(seq![entry] + entries),
                _ => None,
            }
        }
    }
}

/// The entries that a list of owned pairs holds.
pub open spec fn entry_views(pairs: Seq<(String, String)>) -> Entries {
    Seq::new(pairs.len(), |i: int| (pairs[i].0@, pairs[i].1@))
}

/// Writes the pairs as a query string.
///
/// Calls `url::form_urlencoded::Serializer` on an empty target: `extend_pairs`
/// appends each pair in turn, a `&` first where the target is not empty, then
/// the name, `=` and the value, each through `byte_serialize` on its UTF-8
/// bytes, and `finish` hands the target back. The contract states that text
/// in full.
#[verifier::external_body]
pub(crate) fn form_urlencode(pairs: &Vec<(String, String)>) -> (query: String)
    ensures
        query@ == encoded_entries(entry_views(pairs@)),
{
    url::form_urlencoded::Serializer::new(String::new()).extend_pairs(pairs).finish()
}

/// A hexadecimal digit that was written gives its value back.
proof fn lemma_hex_digit_value(value: nat)
    requires
        value < 16,
    ensures
        hex_value(hex_digit(value)) == Some(value),
{
}

/// Reading what was written for one byte gives that byte, and goes on with
/// what follows.
proof fn lemma_encoded_byte_decodes(byte: u8, rest: Seq<char>)
    ensures
        decoded_bytes(encoded_byte(byte) + rest) == seq![byte] + decoded_bytes(rest),
{
    let text = encoded_byte(byte) + rest;
    if is_unchanged(byte) {
        let c = byte as char;
        assert(text[0] == c);
        assert(text.skip(1) =~= rest);
        assert(is_ascii_chars(seq![c]));
        is_ascii_chars_encode_utf8(seq![c]);
        assert(seq![c][0] as u8 == encode_utf8(seq![c])[0]);
        assert(encode_utf8(seq![c]) =~= seq![byte]);
    } else if byte == 0x20 {
        assert(text[0] == '+');
        assert(text.skip(1) =~= rest);
    } else {
        let high = byte as nat / 16;
        let low = byte as nat % 16;
        lemma_hex_digit_value(high);
        lemma_hex_digit_value(low);
        assert(text[0] == '%');
        assert(text[1] == hex_digit(high));
        assert(text[2] == hex_digit(low));
        assert(text.skip(3) =~= rest);
        assert((high * 16 + low) as u8 == byte);
    }
}

/// Reading what was written for a string of bytes gives those bytes.
proof fn lemma_encoded_bytes_decode(bytes: Seq<u8>)
    ensures
        decoded_bytes(encoded_bytes(bytes)) == bytes,
    decreases bytes.len(),
{
    if bytes.len() > 0 {
        lemma_encoded_bytes_decode(bytes.drop_first());
        lemma_encoded_byte_decodes(bytes[0], encoded_bytes(bytes.drop_first()));
        assert(seq![bytes[0]] + bytes.drop_first() =~= bytes);
    }
}

/// Reading a written name or value gives it back.
pub proof fn lemma_encoded_text_decodes(text: Seq<char>)
    ensures
        decoded_text(encoded_text(text)) == Some(text),
{
    lemma_encoded_bytes_decode(encode_utf8(text));
    encode_utf8_valid_utf8(text);
    encode_utf8_decode_utf8(text);
}

/// No byte is written with a `&` or a `=`.
proof fn lemma_encoded_byte_has_no_separator(byte: u8)
    ensures
        forall|i: int|
            0 <= i < encoded_byte(byte).len() ==> encoded_byte(byte)[i] != '&' && encoded_byte(
                byte,
            )[i] != '=',
{
}

/// No string of bytes is written with a `&` or a `=`.
proof fn lemma_encoded_bytes_have_no_separator(bytes: Seq<u8>)
    ensures
        forall|i: int|
            0 <= i < encoded_bytes(bytes).len() ==> encoded_bytes(bytes)[i] != '&'
                && encoded_bytes(bytes)[i] != '=',
    decreases bytes.len(),
{
    if bytes.len() > 0 {
        let head = encoded_byte(bytes[0]);
        let tail = encoded_bytes(bytes.drop_first());
        lemma_encoded_byte_has_no_separator(bytes[0]);
        lemma_encoded_bytes_have_no_separator(bytes.drop_first());
        assert forall|i: int| 0 <= i < encoded_bytes(bytes).len() implies encoded_bytes(bytes)[i]
            != '&' && encoded_bytes(bytes)[i] != '=' by {
            if i < head.len() {
                assert(encoded_bytes(bytes)[i] == head[i]);
            } else {
                assert(encoded_bytes(bytes)[i] == tail[i - head.len()]);
            }
        }
    }
}

/// The first `mark` stands where `mark` stands and nowhere before.
pub proof fn lemma_position_found<A>(items: Seq<A>, mark: A, place: int)
    requires
        0 <= place < items.len(),
        items[place] == mark,
        forall|i: int| 0 <= i < place ==> items[i] != mark,
    ensures
        position(items, mark) == place,
    decreases items.len(),
{
    if place > 0 {
        assert(items[0] != mark);
        lemma_position_found(items.drop_first(), mark, place - 1);
    }
}

/// Where no item is `mark`, its place is the length.
pub proof fn lemma_position_absent<A>(items: Seq<A>, mark: A)
    requires
        forall|i: int| 0 <= i < items.len() ==> items[i] != mark,
    ensures
        position(items, mark) == items.len(),
    decreases items.len(),
{
    if items.len() > 0 {
        assert(items[0] != mark);
        lemma_position_absent(items.drop_first(), mark);
    }
}

/// The place of `mark` lies within the length; below it stands `mark`, and no
/// `mark` stands before it.
pub proof fn lemma_position_is_first<A>(items: Seq<A>, mark: A)
    ensures
        0 <= position(items, mark) <= items.len(),
        position(items, mark) < items.len() ==> items[position(items, mark)] == mark,
        forall|i: int| 0 <= i < position(items, mark) ==> items[i] != mark,
    decreases items.len(),
{
    if items.len() > 0 && items[0] != mark {
        let rest = items.drop_first();
        lemma_position_is_first(rest, mark);
        assert forall|i: int| 0 <= i < position(items, mark) implies items[i] != mark by {
            if i > 0 {
                assert(items[i] == rest[i - 1]);
            }
        }
    }
}

/// Where `mark` first stands right behind a text that holds none, the text is
/// what stands before it and the rest is what stands after it.
proof fn lemma_split_at_mark(head: Seq<char>, mark: char, tail: Seq<char>)
    requires
        forall|i: int| 0 <= i < head.len() ==> head[i] != mark,
    ensures
        before(head + seq![mark] + tail, mark) == head,
        after(head + seq![mark] + tail, mark) == tail,
{
    let text = head + seq![mark] + tail;
    assert forall|i: int| 0 <= i < head.len() implies text[i] != mark by {
        assert(text[i] == head[i]);
    }
    lemma_position_found(text, mark, head.len() as int);
    assert(text.subrange(0, head.len() as int) =~= head);
    assert(text.subrange(head.len() as int + 1, text.len() as int) =~= tail);
}

/// A text that holds no `mark` stands whole before it, with nothing after.
proof fn lemma_split_without_mark(text: Seq<char>, mark: char)
    requires
        forall|i: int| 0 <= i < text.len() ==> text[i] != mark,
    ensures
        before(text, mark) == text,
        after(text, mark) == Seq::<char>::empty(),
{
    lemma_position_absent(text, mark);
    assert(text.subrange(0, text.len() as int) =~= text);
}

/// Reading a written entry gives it back, and what is written holds a `=` but
/// no `&`.
proof fn lemma_encoded_entry_decodes(entry: (Seq<char>, Seq<char>))
    ensures
        decoded_entry(encoded_entry(entry)) == Some(entry),
        encoded_entry(entry).len() > 0,
        forall|i: int| 0 <= i < encoded_entry(entry).len() ==> encoded_entry(entry)[i] != '&',
{
    let name = encoded_text(entry.0);
    let value = encoded_text(entry.1);
    lemma_encoded_bytes_have_no_separator(encode_utf8(entry.0));
    lemma_encoded_bytes_have_no_separator(encode_utf8(entry.1));
    lemma_split_at_mark(name, '=', value);
    lemma_encoded_text_decodes(entry.0);
    lemma_encoded_text_decodes(entry.1);
    assert(encoded_entry(entry)[name.len() as int] == '=');
}

/// Reading the query that was written for a list of entries gives the list
/// back, entry by entry and in its order.
pub proof fn lemma_encoded_entries_decode(entries: Entries)
    ensures
        decoded_entries(encoded_entries(entries)) == Some(entries),
    decreases entries.len(),
{
    if entries.len() == 0 {
        assert(entries =~= Seq::empty());
    } else {
        let first = encoded_entry(entries[0]);
        lemma_encoded_entry_decodes(entries[0]);
        if entries.len() == 1 {
            lemma_split_without_mark(first, '&');
            assert(decoded_entries(Seq::<char>::empty()) == Some(Seq::<(Seq<char>, Seq<char>)>::empty()));
            assert(seq![entries[0]] + Seq::<(Seq<char>, Seq<char>)>::empty() =~= entries);
        } else {
            let rest = encoded_entries(entries.drop_first());
            lemma_split_at_mark(first, '&', rest);
            lemma_encoded_entries_decode(entries.drop_first());
            assert(seq![entries[0]] + entries.drop_first() =~= entries);
        }
    }
}

} // verus!
