//! Base64 with the URL-safe alphabet and no padding, and what is believed of `base64` for it.

use vstd::prelude::*;

verus! {

/// The character that stands for six bits: letters, digits, `-` and `_` in this order.
pub open spec fn digit(bits: int) -> char {
    if bits < 26 {
        ('A' as int + bits) as char
    } else if bits < 52 {
        ('a' as int + (bits - 26)) as char
    } else if bits < 62 {
        ('0' as int + (bits - 52)) as char
    } else if bits == 62 {
        '-'
    } else {
        '_'
    }
}

/// The characters of base64url.
pub open spec fn is_digit(c: char) -> bool {
    'A' <= c <= 'Z' || 'a' <= c <= 'z' || '0' <= c <= '9' || c == '-' || c == '_'
}

/// The byte at `i`, or zero bits after the last one.
pub open spec fn byte_at(bytes: Seq<u8>, i: int) -> int {
    if 0 <= i < bytes.len() {
        bytes[i] as int
    } else {
        0
    }
}

/// The `i`-th six bits of the bytes; three bytes make four of them.
pub open spec fn six_bits(bytes: Seq<u8>, i: int) -> int {
    let first = byte_at(bytes, i / 4 * 3);
    let second = byte_at(bytes, i / 4 * 3 + 1);
    let third = byte_at(bytes, i / 4 * 3 + 2);
    if i % 4 == 0 {
        first / 4
    } else if i % 4 == 1 {
        first % 4 * 16 + second / 16
    } else if i % 4 == 2 {
        second % 16 * 4 + third / 64
    } else {
        third % 64
    }
}

/// The base64url text of some bytes: as many characters as it takes to hold all of their bits.
pub open spec fn encoded(bytes: Seq<u8>) -> Seq<char> {
    Seq::new((4 * bytes.len() + 2) / 3, |i: int| digit(six_bits(bytes, i)))
}

/// The bytes of which this is the base64url text, if there are any.
pub open spec fn decoded(text: Seq<char>) -> Option<Seq<u8>> {
    if exists|bytes: Seq<u8>| #[trigger] encoded(bytes) == text {
        Some(choose|bytes: Seq<u8>| #[trigger] encoded(bytes) == text)
    } else {
        None
    }
}

proof fn lemma_six_bits_range(bytes: Seq<u8>, i: int)
    ensures
        0 <= six_bits(bytes, i) < 64,
{
}

proof fn lemma_digit_is_one_to_one(a: int, b: int)
    requires
        0 <= a < 64,
        0 <= b < 64,
        digit(a) == digit(b),
    ensures
        a == b,
{
}

/// Different bytes have different texts.
pub proof fn encoding_is_one_to_one(bytes: Seq<u8>, other: Seq<u8>)
    requires
        encoded(bytes) == encoded(other),
    ensures
        bytes == other,
{
    let n = bytes.len() as int;
    let m = other.len() as int;
    assert(encoded(bytes).len() == (4 * n + 2) / 3);
    assert(encoded(other).len() == (4 * m + 2) / 3);
    assert(n == m);
    assert forall|i: int| 0 <= i < bytes.len() implies bytes[i] == other[i] by {
        let j = i / 3 * 4 + i % 3;
        assert(j + 1 < (4 * n + 2) / 3);
        assert(encoded(bytes)[j] == digit(six_bits(bytes, j)));
        assert(encoded(other)[j] == digit(six_bits(other, j)));
        assert(encoded(bytes)[j + 1] == digit(six_bits(bytes, j + 1)));
        assert(encoded(other)[j + 1] == digit(six_bits(other, j + 1)));
        lemma_six_bits_range(bytes, j);
        lemma_six_bits_range(other, j);
        lemma_six_bits_range(bytes, j + 1);
        lemma_six_bits_range(other, j + 1);
        lemma_digit_is_one_to_one(six_bits(bytes, j), six_bits(other, j));
        lemma_digit_is_one_to_one(six_bits(bytes, j + 1), six_bits(other, j + 1));
        assert(j / 4 == i / 3 && (j + 1) / 4 == i / 3);
        assert(j % 4 == i % 3 && (j + 1) % 4 == i % 3 + 1);
    }
    assert(bytes =~= other);
}

/// Decoding gives back what was encoded.
pub proof fn decoding_undoes_encoding(bytes: Seq<u8>)
    ensures
        decoded(encoded(bytes)) == Some(bytes),
{
    encoding_is_one_to_one(decoded(encoded(bytes))->0, bytes);
}

/// A text holds nothing but base64url characters, and is empty for no bytes only.
pub proof fn encoding_is_made_of_digits(bytes: Seq<u8>)
    ensures
        forall|i: int| 0 <= i < encoded(bytes).len() ==> is_digit(#[trigger] encoded(bytes)[i]),
        encoded(bytes).len() == 0 <==> bytes.len() == 0,
{
    assert forall|i: int| 0 <= i < encoded(bytes).len() implies is_digit(
        #[trigger] encoded(bytes)[i],
    ) by {
        lemma_six_bits_range(bytes, i);
    }
}

/// The characters of base64url have no meaning of their own in a query.
pub proof fn digits_need_no_escapes(c: char)
    requires
        is_digit(c),
    ensures
        c != '?' && c != '&' && c != '=' && c != '#',
        c != '%' && c != '+' && c != '/' && c != ' ',
{
}

/// `base64::engine::general_purpose::URL_SAFE_NO_PAD.encode`: the base64url text of the bytes. A
/// slice holds no more than `isize::MAX` bytes, so the length of the text fits a `usize`; that
/// there is memory for the text is taken for granted, as it is wherever a string grows.
#[verifier::external_body]
pub(crate) fn encode(bytes: &[u8]) -> (text: String)
    ensures
        text@ == encoded(bytes@),
{
    base64::Engine::encode(&base64::engine::general_purpose::URL_SAFE_NO_PAD, bytes)
}

/// `base64::engine::general_purpose::URL_SAFE_NO_PAD.decode`: the bytes of which this is the
/// base64url text. A text that it rejects gives `None`: one with another character or padding, of
/// a length that no bytes give, or with bits set after the last byte.
#[verifier::external_body]
pub(crate) fn decode(text: &str) -> (bytes: Option<Vec<u8>>)
    ensures
        match bytes {
            Some(bytes) => encoded(bytes@) == text@,
            None => forall|other: Seq<u8>| #[trigger] encoded(other) != text@,
        },
{
    base64::Engine::decode(&base64::engine::general_purpose::URL_SAFE_NO_PAD, text).ok()
}

/// The alphabet is that of base64 with `-` and `_` for its last two characters.
pub proof fn digits_are_the_alphabet(bits: int)
    requires
        0 <= bits < 64,
    ensures
        digit(bits)
            == "ABCDEFGHIJKLMNOPQRSTUVWXYZabcdefghijklmnopqrstuvwxyz0123456789-_"@[bits],
        is_digit(digit(bits)),
{
    reveal_strlit("ABCDEFGHIJKLMNOPQRSTUVWXYZabcdefghijklmnopqrstuvwxyz0123456789-_");
}

/// Three bytes are four characters that stand for the same number.
pub proof fn three_bytes_are_four_digits(
    first: u8,
    second: u8,
    third: u8,
    a: int,
    b: int,
    c: int,
    d: int,
)
    requires
        0 <= a < 64,
        0 <= b < 64,
        0 <= c < 64,
        0 <= d < 64,
        first * 65536 + second * 256 + third == a * 262144 + b * 4096 + c * 64 + d,
    ensures
        encoded(seq![first, second, third]) == seq![digit(a), digit(b), digit(c), digit(d)],
{
    let bytes = seq![first, second, third];
    assert(six_bits(bytes, 0) == a);
    assert(six_bits(bytes, 1) == b);
    assert(six_bits(bytes, 2) == c);
    assert(six_bits(bytes, 3) == d);
    assert(encoded(bytes) =~= seq![digit(a), digit(b), digit(c), digit(d)]);
}

/// Two bytes are three characters, one is two; the bits that are left over are zero.
pub proof fn fewer_bytes_are_fewer_digits(first: u8, second: u8, a: int, b: int, c: int)
    requires
        0 <= a < 64,
        0 <= b < 64,
        0 <= c < 64,
    ensures
        (first * 256 + second) * 4 == a * 4096 + b * 64 + c ==> encoded(seq![first, second])
            == seq![digit(a), digit(b), digit(c)],
        first * 16 == a * 64 + b ==> encoded(seq![first]) == seq![digit(a), digit(b)],
        encoded(Seq::empty()) == Seq::<char>::empty(),
{
    if (first * 256 + second) * 4 == a * 4096 + b * 64 + c {
        let bytes = seq![first, second];
        assert(six_bits(bytes, 0) == a);
        assert(six_bits(bytes, 1) == b);
        assert(six_bits(bytes, 2) == c);
        assert(encoded(bytes) =~= seq![digit(a), digit(b), digit(c)]);
    }
    if first * 16 == a * 64 + b {
        let bytes = seq![first];
        assert(six_bits(bytes, 0) == a);
        assert(six_bits(bytes, 1) == b);
        assert(encoded(bytes) =~= seq![digit(a), digit(b)]);
    }
    assert(encoded(Seq::empty()) =~= Seq::<char>::empty());
}

/// Behind whole groups of three bytes the text goes on with that of the bytes that follow.
pub proof fn groups_are_encoded_one_by_one(groups: Seq<u8>, rest: Seq<u8>)
    requires
        groups.len() % 3 == 0,
    ensures
        encoded(groups + rest) == encoded(groups) + encoded(rest),
{
    let whole = groups + rest;
    let n = groups.len() as int;
    let m = rest.len() as int;
    let k = n / 3;
    assert(n == 3 * k);
    assert(encoded(groups).len() == (4 * n + 2) / 3 == 4 * k);
    assert(encoded(rest).len() == (4 * m + 2) / 3);
    assert(encoded(whole).len() == (4 * (n + m) + 2) / 3 == 4 * k + (4 * m + 2) / 3);
    assert forall|i: int| 0 <= i < encoded(whole).len() implies encoded(whole)[i] == (encoded(
        groups,
    ) + encoded(rest))[i] by {
        if i < 4 * k {
            assert(i / 4 < k);
            assert(six_bits(whole, i) == six_bits(groups, i));
        } else {
            let j = i - 4 * k;
            assert(i / 4 == k + j / 4 && i % 4 == j % 4);
            assert(six_bits(whole, i) == six_bits(rest, j));
        }
    }
    assert(encoded(whole) =~= encoded(groups) + encoded(rest));
}

/// A text decodes to the bytes of which it is the encoding, and to no others.
pub proof fn decoding_finds_what_was_encoded(text: Seq<char>, bytes: Seq<u8>)
    ensures
        decoded(text) == Some(bytes) <==> encoded(bytes) == text,
{
    if encoded(bytes) == text {
        decoding_undoes_encoding(bytes);
    }
}

/// The characters of base64url are those of the alphabet, and no others.
pub proof fn only_the_alphabet_is_digits(c: char)
    ensures
        is_digit(c)
            <==> "ABCDEFGHIJKLMNOPQRSTUVWXYZabcdefghijklmnopqrstuvwxyz0123456789-_"@.contains(c),
{
    let alphabet = "ABCDEFGHIJKLMNOPQRSTUVWXYZabcdefghijklmnopqrstuvwxyz0123456789-_"@;
    reveal_strlit("ABCDEFGHIJKLMNOPQRSTUVWXYZabcdefghijklmnopqrstuvwxyz0123456789-_");
    if is_digit(c) {
        let bits: int = if 'A' <= c <= 'Z' {
            c as int - 'A' as int
        } else if 'a' <= c <= 'z' {
            c as int - 'a' as int + 26
        } else if '0' <= c <= '9' {
            c as int - '0' as int + 52
        } else if c == '-' {
            62
        } else {
            63
        };
        digits_are_the_alphabet(bits);
        assert(alphabet[bits] == c);
    }
    if alphabet.contains(c) {
        let bits = choose|bits: int| 0 <= bits < alphabet.len() && alphabet[bits] == c;
        digits_are_the_alphabet(bits);
    }
}

} // verus!
