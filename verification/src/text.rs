use vstd::prelude::*;
use vstd::utf8::{char_is_scalar, encode_scalar, encode_utf8};

verus! {

/// The number of bytes of the UTF-8 encoding of the first `n` characters.
pub open spec fn utf8_prefix_len(chars: Seq<char>, n: int) -> nat {
    encode_utf8(chars.take(n)).len()
}

/// The number of bytes of the UTF-8 encoding of `ch`.
pub fn char_utf8_len(ch: char) -> (r: usize)
    ensures
        r == encode_scalar(ch as u32).len(),
        1 <= r <= 4,
{
    proof {
        char_is_scalar(ch);
    }
    let c: u32 = ch as u32;
    if c <= 0x7F {
        1
    } else if c <= 0x7FF {
        2
    } else if c <= 0xFFFF {
        3
    } else {
        4
    }
}

/// Encoding a concatenation concatenates the encodings.
pub proof fn lemma_encode_utf8_append(a: Seq<char>, b: Seq<char>)
    ensures
        encode_utf8(a + b) == encode_utf8(a) + encode_utf8(b),
    decreases a.len(),
{
    if a.len() == 0 {
        assert(a + b =~= b);
        assert(encode_utf8(a) =~= Seq::<u8>::empty());
        assert(encode_utf8(a) + encode_utf8(b) =~= encode_utf8(b));
    } else {
        assert((a + b).drop_first() =~= a.drop_first() + b);
        assert((a + b)[0] == a[0]);
        lemma_encode_utf8_append(a.drop_first(), b);
        assert(encode_utf8(a + b) =~= encode_scalar(a[0] as u32) + (encode_utf8(a.drop_first())
            + encode_utf8(b)));
    }
}

/// The prefix encoding grows by the encoding of the next character and never
/// passes the encoding of the whole sequence.
pub proof fn lemma_utf8_prefix_step(chars: Seq<char>, i: int)
    requires
        0 <= i < chars.len(),
    ensures
        utf8_prefix_len(chars, i + 1) == utf8_prefix_len(chars, i) + encode_scalar(
            chars[i] as u32,
        ).len(),
        utf8_prefix_len(chars, i + 1) <= encode_utf8(chars).len(),
{
    let s = seq![chars[i]];
    assert(chars.take(i + 1) =~= chars.take(i) + s);
    lemma_encode_utf8_append(chars.take(i), s);
    assert(s.drop_first() =~= Seq::<char>::empty());
    assert(encode_utf8(Seq::<char>::empty()) =~= Seq::<u8>::empty());
    assert(encode_utf8(s) =~= encode_scalar(chars[i] as u32));
    assert(chars =~= chars.take(i + 1) + chars.skip(i + 1));
    lemma_encode_utf8_append(chars.take(i + 1), chars.skip(i + 1));
}

} // verus!
