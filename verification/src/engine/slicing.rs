use vstd::prelude::*;
use vstd::string::StringSliceAdditionalSpecFns;
use vstd::utf8::{
    decode_utf8, decode_utf8_split, encode_utf8, encode_utf8_decode_utf8, encode_utf8_valid_utf8,
    is_char_boundary, is_char_boundary_iff_not_is_continuation_byte,
    is_char_boundary_start_end_of_seq, valid_utf8, valid_utf8_split,
};

verus! {

/// Whether bytes `from` to `to` of a text are text themselves: both ends lie
/// where a character begins or the text ends.
pub open spec fn sliceable(bytes: Seq<u8>, from: int, to: int) -> bool {
    &&& 0 <= from <= to <= bytes.len()
    &&& is_char_boundary(bytes, from)
    &&& is_char_boundary(bytes, to)
}

/// The text that bytes `from` to `to` of `content` hold; empty where they do
/// not hold text.
pub open spec fn text_between(content: Seq<char>, from: int, to: int) -> Seq<char> {
    if sliceable(encode_utf8(content), from, to) {
        decode_utf8(encode_utf8(content).subrange(from, to))
    } else {
        Seq::<char>::empty()
    }
}

/// A stretch of a text between two character boundaries is text, and a
/// place in it is a character boundary of the stretch exactly where it is
/// one of the whole.
pub proof fn lemma_boundary_in_slice(bytes: Seq<u8>, from: int, to: int, k: int)
    requires
        valid_utf8(bytes),
        sliceable(bytes, from, to),
        from <= k <= to,
    ensures
        valid_utf8(bytes.subrange(from, to)),
        is_char_boundary(bytes.subrange(from, to), k - from) <==> is_char_boundary(bytes, k),
{
    let len = bytes.len() as int;
    let tail = bytes.subrange(from, len);
    valid_utf8_split(bytes, from);
    assert(is_char_boundary(tail, to - from)) by {
        if to < len {
            is_char_boundary_iff_not_is_continuation_byte(tail, to - from);
            is_char_boundary_iff_not_is_continuation_byte(bytes, to);
            assert(tail[to - from] == bytes[to]);
        } else {
            is_char_boundary_start_end_of_seq(tail);
        }
    }
    valid_utf8_split(tail, to - from);
    let part = bytes.subrange(from, to);
    assert(tail.subrange(0, to - from) =~= part);
    if k < to {
        is_char_boundary_iff_not_is_continuation_byte(part, k - from);
        is_char_boundary_iff_not_is_continuation_byte(bytes, k);
        assert(part[k - from] == bytes[k]);
    } else {
        is_char_boundary_start_end_of_seq(part);
    }
}

/// Two stretches of a text that meet at a character boundary hold, one
/// after the other, what the stretch over both holds.
pub proof fn lemma_slices_join(content: Seq<char>, from: int, mid: int, to: int)
    requires
        sliceable(encode_utf8(content), from, mid),
        sliceable(encode_utf8(content), mid, to),
    ensures
        sliceable(encode_utf8(content), from, to),
        text_between(content, from, to) == text_between(content, from, mid) + text_between(
            content,
            mid,
            to,
        ),
{
    let bytes = encode_utf8(content);
    encode_utf8_valid_utf8(content);
    lemma_boundary_in_slice(bytes, from, to, mid);
    let part = bytes.subrange(from, to);
    decode_utf8_split(part, mid - from);
    assert(part.subrange(0, mid - from) =~= bytes.subrange(from, mid));
    assert(part.subrange(mid - from, part.len() as int) =~= bytes.subrange(mid, to));
}

/// The stretch over all of a text holds the text.
pub proof fn lemma_whole_slice(content: Seq<char>)
    ensures
        sliceable(encode_utf8(content), 0, encode_utf8(content).len() as int),
        text_between(content, 0, encode_utf8(content).len() as int) == content,
{
    let bytes = encode_utf8(content);
    encode_utf8_valid_utf8(content);
    is_char_boundary_start_end_of_seq(bytes);
    encode_utf8_decode_utf8(content);
    assert(bytes.subrange(0, bytes.len() as int) =~= bytes);
}

/// The place after a byte that is a character of its own is a character
/// boundary.
pub proof fn lemma_boundary_after_ascii(bytes: Seq<u8>, p: int)
    requires
        valid_utf8(bytes),
        0 < p <= bytes.len(),
        bytes[p - 1] <= 0x7f,
    ensures
        is_char_boundary(bytes, p),
{
    let len = bytes.len() as int;
    is_char_boundary_iff_not_is_continuation_byte(bytes, p - 1);
    is_char_boundary_start_end_of_seq(bytes);
    let tail = bytes.subrange(p - 1, len);
    valid_utf8_split(bytes, p - 1);
    assert(tail[0] == bytes[p - 1]);
    assert(is_char_boundary(tail, 1)) by {
        reveal_with_fuel(is_char_boundary, 2);
        reveal_with_fuel(valid_utf8, 2);
    }
    lemma_boundary_in_slice(bytes, p - 1, len, p);
    assert(tail.subrange(0, len - (p - 1)) =~= tail);
}

/// Whether bytes `from` to `to` of `content` are text themselves.
pub fn can_slice(content: &str, from: usize, to: usize) -> (ok: bool)
    ensures
        ok == sliceable(encode_utf8(content@), from as int, to as int),
{
    from <= to && to <= content.as_bytes().len() && content.is_char_boundary(from)
        && content.is_char_boundary(to)
}

/// The text that bytes `from` to `to` of `content` hold; empty where they do
/// not hold text.
pub fn slice_text(content: &str, from: usize, to: usize) -> (text: String)
    ensures
        text@ == text_between(content@, from as int, to as int),
{
    if can_slice(content, from, to) {
        proof {
            encode_utf8_valid_utf8(content@);
            is_char_boundary_start_end_of_seq(content.spec_bytes());
            lemma_boundary_in_slice(content.spec_bytes(), 0, to as int, from as int);
        }
        let (head, _) = content.split_at(to);
        proof {
            assert(head.spec_bytes() =~= content.spec_bytes().subrange(0, to as int));
        }
        let (_, tail) = head.split_at(from);
        proof {
            assert(tail.spec_bytes() =~= content.spec_bytes().subrange(from as int, to as int));
            encode_utf8_decode_utf8(tail@);
        }
        tail.to_owned()
    } else {
        String::new()
    }
}

} // verus!
