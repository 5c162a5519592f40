//! Bytes as base64 text.

use vstd::prelude::*;

verus! {

/// The character that stands for a number below 64.
pub open spec fn base64_char(value: nat) -> char {
    if value < 26 {
        (65 + value) as u8 as char
    } else if value < 52 {
        (71 + value) as u8 as char
    } else if value < 62 {
        (value - 4) as u8 as char
    } else if value == 62 {
        '+'
    } else {
        '/'
    }
}

/// The standard base64 text of a sequence of bytes, padded to a multiple of four characters.
pub open spec fn base64(bytes: Seq<u8>) -> Seq<char>
    decreases bytes.len(),
{
    if bytes.len() == 0 {
        Seq::empty()
    } else {
        let first = bytes[0] as nat;
        let second = if bytes.len() > 1 {
            bytes[1] as nat
        } else {
            0
        };
        let third = if bytes.len() > 2 {
            bytes[2] as nat
        } else {
            0
        };
        let group = seq![
            base64_char(first / 4),
            base64_char(first % 4 * 16 + second / 16),
            if bytes.len() > 1 {
                base64_char(second % 16 * 4 + third / 64)
            } else {
                '='
            },
            if bytes.len() > 2 {
                base64_char(third % 64)
            } else {
                '='
            },
        ];
        if bytes.len() > 3 {
            group + base64(bytes.skip(3))
        } else {
            group
        }
    }
}

/// Whether the character is a letter or digit of ASCII, or one of the three other characters of
/// base64 text.
pub open spec fn is_base64_char(ch: char) -> bool {
    ||| 'A' <= ch <= 'Z'
    ||| 'a' <= ch <= 'z'
    ||| '0' <= ch <= '9'
    ||| ch == '+'
    ||| ch == '/'
    ||| ch == '='
}

/// Base64 text holds nothing but its alphabet: no quotation mark, backslash or line break.
pub proof fn law_base64_alphabet(bytes: Seq<u8>)
    ensures
        forall|i: int| 0 <= i < base64(bytes).len() ==> is_base64_char(#[trigger] base64(bytes)[i]),
    decreases bytes.len(),
{
    let text = base64(bytes);
    if bytes.len() > 0 {
        assert(is_base64_char(text[0]) && is_base64_char(text[1]) && is_base64_char(text[2])
            && is_base64_char(text[3]));
    }
    if bytes.len() > 3 {
        let rest = base64(bytes.skip(3));
        law_base64_alphabet(bytes.skip(3));
        assert forall|i: int| 4 <= i < text.len() implies is_base64_char(#[trigger] text[i]) by {
            assert(text[i] == rest[i - 4]);
        }
    }
}

/// Different numbers below 64 have different characters, none of which is the padding.
proof fn lemma_base64_char(left: nat, right: nat)
    requires
        left < 64,
        right < 64,
    ensures
        base64_char(left) != '=',
        base64_char(left) == base64_char(right) ==> left == right,
{
}

/// Different sequences of bytes have different base64 texts.
pub proof fn law_base64_injective(left: Seq<u8>, right: Seq<u8>)
    requires
        base64(left) == base64(right),
    ensures
        left == right,
    decreases left.len(),
{
    let text = base64(left);
    assert(left.len() > 0 ==> base64(left).len() >= 4);
    assert(right.len() > 0 ==> base64(right).len() >= 4);
    if left.len() == 0 || right.len() == 0 {
        assert(left =~= right);
    } else {
        let l0 = left[0] as nat;
        let l1 = if left.len() > 1 { left[1] as nat } else { 0 };
        let l2 = if left.len() > 2 { left[2] as nat } else { 0 };
        let r0 = right[0] as nat;
        let r1 = if right.len() > 1 { right[1] as nat } else { 0 };
        let r2 = if right.len() > 2 { right[2] as nat } else { 0 };
        lemma_base64_char(l0 / 4, r0 / 4);
        lemma_base64_char(l0 % 4 * 16 + l1 / 16, r0 % 4 * 16 + r1 / 16);
        lemma_base64_char(l1 % 16 * 4 + l2 / 64, r1 % 16 * 4 + r2 / 64);
        lemma_base64_char(r1 % 16 * 4 + r2 / 64, l1 % 16 * 4 + l2 / 64);
        lemma_base64_char(l2 % 64, r2 % 64);
        lemma_base64_char(r2 % 64, l2 % 64);
        assert(text[0] == base64_char(l0 / 4) && text[0] == base64_char(r0 / 4));
        assert(text[1] == base64_char(l0 % 4 * 16 + l1 / 16));
        assert(text[1] == base64_char(r0 % 4 * 16 + r1 / 16));
        assert(left.len() > 1 ==> text[2] == base64_char(l1 % 16 * 4 + l2 / 64));
        assert(right.len() > 1 ==> text[2] == base64_char(r1 % 16 * 4 + r2 / 64));
        assert(left.len() == 1 ==> text[2] == '=');
        assert(right.len() == 1 ==> text[2] == '=');
        assert(left.len() > 2 ==> text[3] == base64_char(l2 % 64));
        assert(right.len() > 2 ==> text[3] == base64_char(r2 % 64));
        assert(left.len() <= 2 ==> text[3] == '=');
        assert(right.len() <= 2 ==> text[3] == '=');
        assert(l0 == r0);
        if left.len() > 3 {
            assert(text.skip(4) =~= base64(left.skip(3)));
            if right.len() > 3 {
                assert(text.skip(4) =~= base64(right.skip(3)));
                law_base64_injective(left.skip(3), right.skip(3));
                assert forall|i: int| 3 <= i < left.len() implies left[i] == right[i] by {
                    assert(left.skip(3)[i - 3] == right.skip(3)[i - 3]);
                }
            } else {
                assert(text.len() == 4);
                assert(base64(left.skip(3)).len() > 0);
            }
        } else if right.len() > 3 {
            assert(text.skip(4) =~= base64(right.skip(3)));
            assert(text.len() == 4);
            assert(base64(right.skip(3)).len() > 0);
        }
        assert(left =~= right);
    }
}

/// `Engine::encode` of the crate `base64` with its engine `STANDARD`: the padded base64 text of
/// the bytes.
#[verifier::external_body]
fn standard_encode(bytes: &[u8]) -> (encoded: String)
    ensures
        encoded@ == base64(bytes@),
{
    base64::Engine::encode(&base64::engine::general_purpose::STANDARD, bytes)
}

/// The base64 text of the UTF-8 bytes of a text.
pub fn base64_of_text(source: &str) -> (encoded: String)
    ensures
        encoded@ == base64(vstd::utf8::encode_utf8(source@)),
{
    standard_encode(source.as_bytes())
}

}
