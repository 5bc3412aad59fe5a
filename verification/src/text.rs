//! The few string operations the client is built from, over sequences of characters.

use vstd::prelude::*;

verus! {

/// `s` without the slashes it ends in.
pub open spec fn without_trailing_slashes(s: Seq<char>) -> Seq<char>
    decreases s.len(),
{
    if s.len() > 0 && s.last() == '/' {
        without_trailing_slashes(s.drop_last())
    } else {
        s
    }
}

/// Whether `pattern` stands in `s` from index `i` on.
pub open spec fn occurs_at(s: Seq<char>, pattern: Seq<char>, i: int) -> bool {
    0 <= i && i + pattern.len() <= s.len() && s.subrange(i, i + pattern.len()) == pattern
}

/// Whether `pattern` stands in `s` from index `i` on, and nowhere before.
pub open spec fn first_occurs_at(s: Seq<char>, pattern: Seq<char>, i: int) -> bool {
    &&& occurs_at(s, pattern, i)
    &&& forall|j: int| 0 <= j < i ==> !occurs_at(s, pattern, j)
}

/// `s` with the first occurrence of `from` replaced by `to`, or `s` itself where there is none.
pub open spec fn with_first_replaced(s: Seq<char>, from: Seq<char>, to: Seq<char>) -> Seq<char> {
    if exists|i: int| first_occurs_at(s, from, i) {
        let i = choose|i: int| first_occurs_at(s, from, i);
        s.take(i) + to + s.skip(i + from.len())
    } else {
        s
    }
}

/// An optional text as its characters.
pub open spec fn optional_chars(text: Option<&str>) -> Option<Seq<char>> {
    match text {
        Some(text) => Some(text@),
        None => None,
    }
}

/// The decimal digits of `n`, without leading zeros.
pub open spec fn decimal(n: nat) -> Seq<char>
    decreases n,
{
    if n < 10 {
        seq!["0123456789"@[n as int]]
    } else {
        decimal(n / 10).push("0123456789"@[(n % 10) as int])
    }
}

/// Trimming leaves a prefix that does not end in a slash, and takes off nothing but slashes.
pub proof fn trimming_removes_only_trailing_slashes(s: Seq<char>)
    ensures
        ({
            let t = without_trailing_slashes(s);
            &&& t.len() <= s.len()
            &&& t == s.take(t.len() as int)
            &&& t.len() > 0 ==> t.last() != '/'
            &&& forall|i: int| t.len() <= i < s.len() ==> s[i] == '/'
        }),
    decreases s.len(),
{
    if s.len() > 0 && s.last() == '/' {
        trimming_removes_only_trailing_slashes(s.drop_last());
        let t = without_trailing_slashes(s);
        assert(t == s.take(t.len() as int));
        assert forall|i: int| t.len() <= i < s.len() implies s[i] == '/' by {
            if i < s.len() - 1 {
                assert(s.drop_last()[i] == s[i]);
            }
        }
    }
}

/// Trimming twice is trimming once.
pub proof fn trimming_is_idempotent(s: Seq<char>)
    ensures
        without_trailing_slashes(without_trailing_slashes(s)) == without_trailing_slashes(s),
{
    trimming_removes_only_trailing_slashes(s);
}

/// There is at most one first occurrence.
pub proof fn lemma_first_replaced(s: Seq<char>, from: Seq<char>, to: Seq<char>, i: int)
    requires
        first_occurs_at(s, from, i),
    ensures
        with_first_replaced(s, from, to) == s.take(i) + to + s.skip(i + from.len()),
{
    let j = choose|j: int| first_occurs_at(s, from, j);
    assert(i == j);
}

/// A slash more at the end makes no difference to trimming.
pub proof fn trimming_ignores_one_more_slash(s: Seq<char>)
    ensures
        without_trailing_slashes(s.push('/')) == without_trailing_slashes(s),
{
    assert(s.push('/').drop_last() =~= s);
}

/// An occurrence behind a prefix is an occurrence in what follows the prefix.
proof fn lemma_occurs_behind(prefix: Seq<char>, s: Seq<char>, pattern: Seq<char>, i: int)
    requires
        0 <= i,
    ensures
        occurs_at(prefix + s, pattern, prefix.len() + i) == occurs_at(s, pattern, i),
{
    if i + pattern.len() <= s.len() {
        let j = prefix.len() + i;
        assert((prefix + s).subrange(j, j + pattern.len()) =~= s.subrange(i, i + pattern.len()));
    }
}

/// Where no occurrence starts within a prefix, the replacement happens behind it.
pub proof fn lemma_replaced_behind(
    prefix: Seq<char>,
    s: Seq<char>,
    from: Seq<char>,
    to: Seq<char>,
)
    requires
        forall|i: int| 0 <= i < prefix.len() ==> !occurs_at(prefix + s, from, i),
    ensures
        with_first_replaced(prefix + s, from, to) == prefix + with_first_replaced(s, from, to),
{
    let n = prefix.len() as int;
    let whole = prefix + s;
    if exists|i: int| first_occurs_at(s, from, i) {
        let i = choose|i: int| first_occurs_at(s, from, i);
        lemma_occurs_behind(prefix, s, from, i);
        assert forall|j: int| 0 <= j < n + i implies !occurs_at(whole, from, j) by {
            if j >= n {
                lemma_occurs_behind(prefix, s, from, j - n);
            }
        }
        lemma_first_replaced(whole, from, to, n + i);
        assert(whole.take(n + i) =~= prefix + s.take(i));
        assert(whole.skip(n + i + from.len()) =~= s.skip(i + from.len()));
        assert(with_first_replaced(whole, from, to) =~= prefix + with_first_replaced(s, from, to));
    } else {
        assert forall|j: int| !first_occurs_at(whole, from, j) by {
            if occurs_at(whole, from, j) {
                lemma_occurs_behind(prefix, s, from, j - n);
                lemma_first_occurrence_exists(s, from, j - n);
            }
        }
    }
}

/// Where the pattern occurs at all, it has a first occurrence, no later than that one.
pub proof fn lemma_first_occurrence_exists(s: Seq<char>, pattern: Seq<char>, i: int)
    requires
        occurs_at(s, pattern, i),
    ensures
        exists|j: int| j <= i && first_occurs_at(s, pattern, j),
    decreases i,
{
    if exists|j: int| 0 <= j < i && occurs_at(s, pattern, j) {
        let j = choose|j: int| 0 <= j < i && occurs_at(s, pattern, j);
        lemma_first_occurrence_exists(s, pattern, j);
    } else {
        assert(first_occurs_at(s, pattern, i));
    }
}

/// The characters of `s`.
fn chars_of(s: &str) -> (chars: Vec<char>)
    ensures
        chars@ == s@,
{
    let mut chars: Vec<char> = Vec::new();
    for c in it: s.chars()
        invariant
            it.seq() == s@,
            chars@ == s@.take(it.index() as int),
    {
        chars.push(c);
        assert(s@.take(it.index() as int).push(c) =~= s@.take(it.index() + 1));
    }
    assert(s@.take(s@.len() as int) =~= s@);
    chars
}

/// `s` without the slashes it ends in.
pub fn trim_trailing_slashes(s: &str) -> (trimmed: String)
    ensures
        trimmed@ == without_trailing_slashes(s@),
{
    let mut n: usize = s.unicode_len();
    assert(s@.take(n as int) =~= s@);
    while n > 0 && s.get_char(n - 1) == '/'
        invariant
            n <= s@.len(),
            without_trailing_slashes(s@) == without_trailing_slashes(s@.take(n as int)),
        decreases n,
    {
        assert(s@.take(n as int).drop_last() =~= s@.take(n - 1));
        n = n - 1;
    }
    assert(s@.subrange(0, n as int) =~= s@.take(n as int));
    s.substring_char(0, n).to_owned()
}

/// Whether the character occurs in `s`.
pub fn contains_char(s: &str, c: char) -> (found: bool)
    ensures
        found == s@.contains(c),
{
    let chars = chars_of(s);
    let mut i: usize = 0;
    while i < chars.len()
        invariant
            i <= chars@.len(),
            chars@ == s@,
            forall|j: int| 0 <= j < i ==> s@[j] != c,
        decreases chars.len() - i,
    {
        if chars[i] == c {
            assert(s@[i as int] == c);
            return true;
        }
        i = i + 1;
    }
    false
}

/// Whether `pattern` stands in `chars` from index `at` on.
fn matches_at(chars: &Vec<char>, pattern: &Vec<char>, at: usize) -> (found: bool)
    requires
        at + pattern@.len() <= chars@.len(),
    ensures
        found == occurs_at(chars@, pattern@, at as int),
{
    let n: usize = chars.len();
    let mut i: usize = 0;
    while i < pattern.len()
        invariant
            i <= pattern@.len(),
            n == chars@.len(),
            at + pattern@.len() <= n,
            forall|j: int| 0 <= j < i ==> chars@[at + j] == pattern@[j],
        decreases pattern.len() - i,
    {
        if chars[at + i] != pattern[i] {
            assert(chars@.subrange(at as int, at + pattern@.len())[i as int] != pattern@[i as int]);
            return false;
        }
        i = i + 1;
    }
    assert(chars@.subrange(at as int, at + pattern@.len()) =~= pattern@);
    true
}

/// `s` with the first occurrence of `from` replaced by `to`, or `s` itself where there is none.
pub fn replace_first(s: &str, from: &str, to: &str) -> (replaced: String)
    ensures
        replaced@ == with_first_replaced(s@, from@, to@),
{
    let chars = chars_of(s);
    let pattern = chars_of(from);
    let n: usize = chars.len();
    let m: usize = pattern.len();
    if m > n {
        return s.to_owned();
    }
    let mut i: usize = 0;
    while i < n - m && !matches_at(&chars, &pattern, i)
        invariant
            m <= n,
            i <= n - m,
            n == chars@.len(),
            m == pattern@.len(),
            chars@ == s@,
            pattern@ == from@,
            forall|j: int| 0 <= j < i ==> !occurs_at(s@, from@, j),
        decreases n - m - i,
    {
        i = i + 1;
    }
    if matches_at(&chars, &pattern, i) {
        let mut replaced = s.substring_char(0, i).to_owned();
        replaced.append(to);
        replaced.append(s.substring_char(i + m, n));
        proof {
            lemma_first_replaced(s@, from@, to@, i as int);
            assert(s@.subrange(0, i as int) =~= s@.take(i as int));
            assert(s@.subrange(i + m, n as int) =~= s@.skip(i + m));
        }
        replaced
    } else {
        s.to_owned()
    }
}

/// Appends the decimal digits of `n`.
pub fn append_decimal(out: &mut String, n: u32)
    ensures
        final(out)@ == old(out)@ + decimal(n as nat),
    decreases n,
{
    proof {
        reveal_strlit("0123456789");
    }
    if n >= 10 {
        append_decimal(out, n / 10);
    }
    let d: usize = (n % 10) as usize;
    let digit = "0123456789".substring_char(d, d + 1);
    assert(digit@ =~= seq!["0123456789"@[d as int]]);
    out.append(digit);
    assert(out@ =~= old(out)@ + decimal(n as nat));
}

/// Whatever the slashes at the end, what stands before them is kept: a text followed by slashes
/// only is trimmed to the text, where that does not end in a slash itself.
pub proof fn trimming_keeps_what_stands_before_the_slashes(
    s: &str,
    trimmed: String,
    kept: Seq<char>,
    slashes: Seq<char>,
)
    requires
        call_ensures(trim_trailing_slashes, (s,), trimmed),
        s@ == kept + slashes,
        forall|i: int| 0 <= i < slashes.len() ==> slashes[i] == '/',
        kept.len() > 0 ==> kept.last() != '/',
    ensures
        trimmed@ == kept,
{
    lemma_trimmed(kept, slashes);
}

/// A text followed by slashes only is trimmed to the text.
pub proof fn lemma_trimmed(kept: Seq<char>, slashes: Seq<char>)
    requires
        forall|i: int| 0 <= i < slashes.len() ==> slashes[i] == '/',
        kept.len() > 0 ==> kept.last() != '/',
    ensures
        without_trailing_slashes(kept + slashes) == kept,
    decreases slashes.len(),
{
    if slashes.len() > 0 {
        lemma_trimmed(kept, slashes.drop_last());
        assert((kept + slashes).drop_last() =~= kept + slashes.drop_last());
    } else {
        assert(kept + slashes =~= kept);
    }
}

/// The replacement takes out the pattern where it stands first, and leaves what stands before and
/// after it as it is.
pub proof fn first_occurrence_alone_is_replaced(
    s: Seq<char>,
    from: Seq<char>,
    to: Seq<char>,
    before: Seq<char>,
    after: Seq<char>,
)
    requires
        s == before + from + after,
        forall|i: int| 0 <= i < before.len() ==> (#[trigger] s.skip(i)).take(from.len() as int) != from,
    ensures
        with_first_replaced(s, from, to) == before + to + after,
{
    let n = before.len() as int;
    assert(s.subrange(n, n + from.len()) =~= from);
    assert forall|i: int| 0 <= i < n implies !occurs_at(s, from, i) by {
        assert(s.skip(i).take(from.len() as int) =~= s.subrange(i, i + from.len()));
    }
    lemma_first_replaced(s, from, to, n);
    assert(s.take(n) =~= before);
    assert(s.skip(n + from.len()) =~= after);
}

/// A text in which the pattern stands nowhere is left as it is.
pub proof fn absent_pattern_replaces_nothing(s: Seq<char>, from: Seq<char>, to: Seq<char>)
    requires
        forall|i: int|
            0 <= i <= s.len() - from.len() ==> (#[trigger] s.skip(i)).take(from.len() as int) != from,
    ensures
        with_first_replaced(s, from, to) == s,
{
    assert forall|i: int| !occurs_at(s, from, i) by {
        if occurs_at(s, from, i) {
            assert(s.skip(i).take(from.len() as int) =~= s.subrange(i, i + from.len()));
        }
    }
}

/// [`replace_first`] takes out the pattern where it stands first, and nothing else.
pub proof fn replacing_takes_out_the_first_occurrence(
    s: &str,
    from: &str,
    to: &str,
    replaced: String,
    before: Seq<char>,
    after: Seq<char>,
)
    requires
        call_ensures(replace_first, (s, from, to), replaced),
        s@ == before + from@ + after,
        forall|i: int|
            0 <= i < before.len() ==> (#[trigger] s@.skip(i)).take(from@.len() as int) != from@,
    ensures
        replaced@ == before + to@ + after,
{
    first_occurrence_alone_is_replaced(s@, from@, to@, before, after);
}

/// [`replace_first`] gives the text back where the pattern stands nowhere in it.
pub proof fn replacing_nothing_gives_the_text_back(
    s: &str,
    from: &str,
    to: &str,
    replaced: String,
)
    requires
        call_ensures(replace_first, (s, from, to), replaced),
        forall|i: int|
            0 <= i <= s@.len() - from@.len() ==> (#[trigger] s@.skip(i)).take(from@.len() as int)
                != from@,
    ensures
        replaced@ == s@,
{
    absent_pattern_replaces_nothing(s@, from@, to@);
}

/// A character is found where it stands between two parts of the text, and only then.
pub proof fn characters_are_found_where_they_stand(s: &str, c: char, found: bool)
    requires
        call_ensures(contains_char, (s, c), found),
    ensures
        found <==> exists|before: Seq<char>, after: Seq<char>| s@ == #[trigger] (before.push(c) + after),
{
    if found {
        let i = choose|i: int| 0 <= i < s@.len() && s@[i] == c;
        assert(s@ =~= s@.take(i).push(c) + s@.skip(i + 1));
    }
    if exists|before: Seq<char>, after: Seq<char>| s@ == #[trigger] (before.push(c) + after) {
        let (before, after) = choose|before: Seq<char>, after: Seq<char>|
            s@ == #[trigger] (before.push(c) + after);
        assert(s@[before.len() as int] == c);
    }
}

/// A digit is its own text, and a digit more at the end stands for ten times the number and the
/// digit.
pub proof fn decimal_is_read_in_tens(n: nat, d: nat)
    requires
        d < 10,
    ensures
        decimal(d) == seq![('0' as int + d) as char],
        n > 0 ==> decimal(10 * n + d) == decimal(n).push(('0' as int + d) as char),
{
    reveal_strlit("0123456789");
    assert("0123456789"@[d as int] == ('0' as int + d) as char);
    assert((10 * n + d) / 10 == n && (10 * n + d) % 10 == d);
}

/// An optional text is there or not, with its own characters.
pub proof fn optional_text_keeps_its_characters(s: &str)
    ensures
        optional_chars(Some(s)) == Some(s@),
        optional_chars(None) is None,
{
}

} // verus!
