//! Text primitives: comparing, copying and splitting strings, with contracts
//! over the characters that the strings hold.
use vstd::prelude::*;
use vstd::string::StringSliceAdditionalSpecFns;

verus! {

/// The character that separates the prefix of a call name from its verb.
pub const SEPARATOR: char = ':';

/// The byte that encodes [`SEPARATOR`].
const SEPARATOR_BYTE: u8 = 0x3a;

/// The position of the first separator in `s`; its length if it holds none.
pub open spec fn separator_index(s: Seq<char>) -> int
    decreases s.len(),
{
    if s.len() == 0 {
        0
    } else if s[0] == SEPARATOR {
        0
    } else {
        1 + separator_index(s.drop_first())
    }
}

/// What stands before the first separator; all of `s` if it holds none.
pub open spec fn before_separator(s: Seq<char>) -> Seq<char> {
    s.take(separator_index(s))
}

/// What stands behind the first separator; nothing if `s` holds none.
pub open spec fn after_separator(s: Seq<char>) -> Seq<char> {
    if s.contains(SEPARATOR) {
        s.skip(separator_index(s) + 1)
    } else {
        seq![]
    }
}

/// Equality of two strings is equality of their characters.
pub fn str_eq(a: &str, b: &str) -> (equal: bool)
    ensures
        equal == (a@ == b@),
{
    let x = a.as_bytes();
    let y = b.as_bytes();
    proof {
        vstd::utf8::encode_utf8_decode_utf8(a@);
        vstd::utf8::encode_utf8_decode_utf8(b@);
    }
    if x.len() != y.len() {
        return false;
    }
    let mut i: usize = 0;
    while i < x.len()
        invariant
            i <= x@.len(),
            x@.len() == y@.len(),
            x@ == vstd::utf8::encode_utf8(a@),
            y@ == vstd::utf8::encode_utf8(b@),
            forall|j: int| 0 <= j < i ==> x@[j] == y@[j],
        decreases x@.len() - i,
    {
        if x[i] != y[i] {
            return false;
        }
        i += 1;
    }
    assert(x@ =~= y@);
    true
}

/// Where the first separator stands, and that none stands before it.
pub proof fn lemma_separator_index(s: Seq<char>)
    ensures
        0 <= separator_index(s) <= s.len(),
        s.contains(SEPARATOR) <==> separator_index(s) < s.len(),
        separator_index(s) < s.len() ==> s[separator_index(s)] == SEPARATOR,
        !s.take(separator_index(s)).contains(SEPARATOR),
    decreases s.len(),
{
    if s.len() == 0 {
    } else if s[0] == SEPARATOR {
        assert(s.contains(s[0]));
    } else {
        let rest = s.drop_first();
        lemma_separator_index(rest);
        assert forall|i: int| 0 <= i < s.len() && s[i] == SEPARATOR implies rest.contains(
            SEPARATOR,
        ) by {
            assert(rest[i - 1] == s[i]);
        }
        if rest.contains(SEPARATOR) {
            let i = choose|i: int| 0 <= i < rest.len() && rest[i] == SEPARATOR;
            assert(s[i + 1] == SEPARATOR);
        }
        let head = s.take(separator_index(s));
        assert forall|i: int| 0 <= i < head.len() implies head[i] != SEPARATOR by {
            if i > 0 {
                assert(rest.take(separator_index(rest))[i - 1] == head[i]);
            }
        }
    }
}

/// A text that does not hold the separator, followed by it, has its first
/// separator right there.
pub proof fn lemma_separator_split(a: Seq<char>, b: Seq<char>)
    requires
        !a.contains(SEPARATOR),
    ensures
        separator_index(a + seq![SEPARATOR] + b) == a.len(),
        separator_index(a) == a.len(),
    decreases a.len(),
{
    let s = a + seq![SEPARATOR] + b;
    if a.len() == 0 {
        assert(s[0] == SEPARATOR);
    } else {
        assert(s[0] == a[0]);
        assert(a.contains(a[0]));
        let rest = a.drop_first();
        assert forall|i: int| 0 <= i < rest.len() implies rest[i] != SEPARATOR by {
            assert(a[i + 1] == rest[i]);
        }
        lemma_separator_split(rest, b);
        assert(s.drop_first() =~= rest + seq![SEPARATOR] + b);
    }
}

/// A text that holds the separator has its byte among those that encode it.
proof fn lemma_separator_byte(s: Seq<char>)
    requires
        s.contains(SEPARATOR),
    ensures
        vstd::utf8::encode_utf8(s).contains(SEPARATOR_BYTE),
    decreases s.len(),
{
    let head = vstd::utf8::encode_scalar(s[0] as u32);
    let rest = s.drop_first();
    if s[0] == SEPARATOR {
        assert(0x3au32 & 0x7Fu32 == 0x3au32) by (bit_vector);
        assert(head[0] == SEPARATOR_BYTE);
        assert(vstd::utf8::encode_utf8(s)[0] == SEPARATOR_BYTE);
    } else {
        let i = choose|i: int| 0 <= i < s.len() && s[i] == SEPARATOR;
        assert(rest[i - 1] == SEPARATOR);
        lemma_separator_byte(rest);
        let j = choose|j: int|
            0 <= j < vstd::utf8::encode_utf8(rest).len() && vstd::utf8::encode_utf8(rest)[j] == SEPARATOR_BYTE;
        assert(vstd::utf8::encode_utf8(s)[head.len() + j] == SEPARATOR_BYTE);
    }
}

/// Splits `s` at its first separator: what stands before it and what stands
/// behind it, or nothing if `s` holds no separator.
pub fn split_once(s: &str) -> (parts: Option<(&str, &str)>)
    ensures
        parts is Some <==> s@.contains(SEPARATOR),
        parts matches Some(p) ==> {
            &&& p.0@ == before_separator(s@)
            &&& p.1@ == after_separator(s@)
            &&& s@ == p.0@ + seq![SEPARATOR] + p.1@
        },
{
    let bytes = s.as_bytes();
    let mut i: usize = 0;
    while i < bytes.len()
        invariant
            i <= bytes@.len(),
            bytes@ == vstd::utf8::encode_utf8(s@),
            forall|j: int| 0 <= j < i ==> bytes@[j] != SEPARATOR_BYTE,
        decreases bytes@.len() - i,
    {
        if bytes[i] == SEPARATOR_BYTE {
            proof {
                vstd::utf8::encode_utf8_valid_utf8(s@);
                vstd::utf8::is_char_boundary_iff_not_is_continuation_byte(bytes@, i as int);
            }
            let (head, rest) = s.split_at(i);
            proof {
                lemma_split_bytes(s@, head@, rest@, i as int);
                vstd::utf8::encode_utf8_valid_utf8(rest@);
                reveal_with_fuel(vstd::utf8::is_char_boundary, 2);
            }
            let (mark, tail) = rest.split_at(1);
            proof {
                lemma_split_bytes(rest@, mark@, tail@, 1);
                lemma_separator_char(mark@);
                if head@.contains(SEPARATOR) {
                    lemma_separator_byte(head@);
                }
                assert(s@ =~= head@ + seq![SEPARATOR] + tail@);
                lemma_separator_split(head@, tail@);
                assert(s@[head@.len() as int] == SEPARATOR);
                assert(before_separator(s@) =~= head@);
                assert(after_separator(s@) =~= tail@);
            }
            return Some((head, tail));
        }
        i += 1;
    }
    proof {
        if s@.contains(SEPARATOR) {
            lemma_separator_byte(s@);
        }
    }
    None
}

/// Cutting the bytes of a text at a character boundary cuts its characters.
proof fn lemma_split_bytes(s: Seq<char>, a: Seq<char>, b: Seq<char>, i: int)
    requires
        0 <= i <= vstd::utf8::encode_utf8(s).len(),
        vstd::utf8::is_char_boundary(vstd::utf8::encode_utf8(s), i),
        vstd::utf8::encode_utf8(a) == vstd::utf8::encode_utf8(s).subrange(0, i),
        vstd::utf8::encode_utf8(b) == vstd::utf8::encode_utf8(s).subrange(
            i,
            vstd::utf8::encode_utf8(s).len() as int,
        ),
    ensures
        s == a + b,
{
    let bytes = vstd::utf8::encode_utf8(s);
    vstd::utf8::encode_utf8_valid_utf8(s);
    vstd::utf8::encode_utf8_decode_utf8(s);
    vstd::utf8::encode_utf8_decode_utf8(a);
    vstd::utf8::encode_utf8_decode_utf8(b);
    vstd::utf8::decode_utf8_split(bytes, i);
}

/// The one text that the separator's byte encodes.
proof fn lemma_separator_char(s: Seq<char>)
    requires
        vstd::utf8::encode_utf8(s) == seq![SEPARATOR_BYTE],
    ensures
        s == seq![SEPARATOR],
{
    let t = seq![SEPARATOR];
    assert(0x3au32 & 0x7Fu32 == 0x3au32) by (bit_vector);
    reveal_with_fuel(vstd::utf8::encode_utf8, 2);
    assert(vstd::utf8::encode_utf8(t) =~= seq![SEPARATOR_BYTE]);
    vstd::utf8::encode_utf8_decode_utf8(s);
    vstd::utf8::encode_utf8_decode_utf8(t);
}

} // verus!
