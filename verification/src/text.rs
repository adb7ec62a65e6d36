//! Text helpers shared by the parsers: UTF-8 decoding, decimal numbers,
//! and splitting and joining of delimited fields.

use vstd::prelude::*;
use vstd::string::*;
use vstd::utf8::*;

verus! {

/// Whether `c` is one of the ASCII digits `0` to `9`.
pub open spec fn is_digit(c: char) -> bool {
    '0' <= c <= '9'
}

/// The value of an ASCII digit.
pub open spec fn digit_value(c: char) -> nat {
    (c as nat - '0' as nat) as nat
}

/// Whether every character of `s` is an ASCII digit.
pub open spec fn all_digits(s: Seq<char>) -> bool {
    forall|i: int| 0 <= i < s.len() ==> is_digit(#[trigger] s[i])
}

/// The number that a string of ASCII digits writes in base ten.
pub open spec fn digits_value(s: Seq<char>) -> nat
    decreases s.len(),
{
    if s.len() == 0 {
        0
    } else {
        10 * digits_value(s.drop_last()) + digit_value(s.last())
    }
}

/// The digits of an unsigned decimal number: the text without one leading `+`.
pub open spec fn unsigned_digits(s: Seq<char>) -> Seq<char> {
    if s.len() > 0 && s[0] == '+' {
        s.skip(1)
    } else {
        s
    }
}

/// The unsigned decimal number that `s` writes, if it writes one no larger than `max`.
///
/// A number is an optional `+` followed by one or more ASCII digits; leading
/// zeros are allowed.
pub open spec fn parse_decimal(s: Seq<char>, max: nat) -> Option<nat> {
    let digits = unsigned_digits(s);
    if digits.len() > 0 && all_digits(digits) && digits_value(digits) <= max {
        Some(digits_value(digits))
    } else {
        None
    }
}

/// A longer string of digits never writes a smaller number than its prefix.
pub proof fn lemma_digits_value_monotonic(s: Seq<char>, n: int)
    requires
        0 <= n <= s.len(),
    ensures
        digits_value(s.take(n)) <= digits_value(s),
    decreases s.len(),
{
    if n == s.len() {
        assert(s.take(n) =~= s);
    } else {
        lemma_digits_value_monotonic(s.drop_last(), n);
        assert(s.drop_last().take(n) =~= s.take(n));
    }
}

/// Parses an unsigned decimal number no larger than `max`.
pub fn parse_bounded(s: &str, max: usize) -> (r: Option<usize>)
    ensures
        match parse_decimal(s@, max as nat) {
            Some(n) => r == Some(n as usize),
            None => r is None,
        },
{
    let len: usize = s.unicode_len();
    let start: usize = if len > 0 && s.get_char(0) == '+' {
        1
    } else {
        0
    };
    let ghost digits = unsigned_digits(s@);
    assert(digits =~= s@.skip(start as int));
    if start == len {
        return None;
    }
    let mut value: usize = 0;
    let mut i: usize = start;
    while i < len
        invariant
            start <= i <= len,
            len == s@.len(),
            digits == s@.skip(start as int),
            digits == unsigned_digits(s@),
            value <= max,
            value == digits_value(digits.take(i - start)),
            forall|j: int| 0 <= j < i - start ==> is_digit(#[trigger] digits[j]),
        decreases len - i,
    {
        let c: char = s.get_char(i);
        assert(digits[i - start] == c);
        if !('0' <= c && c <= '9') {
            assert(!is_digit(digits[i - start]));
            return None;
        }
        let d: usize = (c as u32 - '0' as u32) as usize;
        proof {
            assert(digits.take(i - start + 1).drop_last() =~= digits.take(i - start));
            assert(digits.take(i - start + 1).last() == c);
            assert(digits_value(digits.take(i - start + 1)) == 10 * value + d);
            lemma_digits_value_monotonic(digits, i - start + 1);
        }
        if d > max || value > (max - d) / 10 {
            return None;
        }
        value = value * 10 + d;
        i = i + 1;
    }
    assert(digits.take(len - start) =~= digits);
    Some(value)
}

/// Parses an unsigned decimal number that fits in a byte.
pub fn parse_u8(s: &str) -> (r: Option<u8>)
    ensures
        match parse_decimal(s@, 255) {
            Some(n) => r == Some(n as u8),
            None => r is None,
        },
{
    match parse_bounded(s, 255) {
        Some(n) => Some(n as u8),
        None => None,
    }
}

/// Parses an unsigned decimal number that fits in a `usize`.
pub fn parse_usize(s: &str) -> (r: Option<usize>)
    ensures
        match parse_decimal(s@, usize::MAX as nat) {
            Some(n) => r == Some(n as usize),
            None => r is None,
        },
{
    parse_bounded(s, usize::MAX)
}

/// The index of the first `sep` in `s`, or the length of `s` if there is none.
pub open spec fn find_char(s: Seq<char>, sep: char) -> int
    decreases s.len(),
{
    if s.len() == 0 || s[0] == sep {
        0
    } else {
        1 + find_char(s.skip(1), sep)
    }
}

/// The fields of `s` between occurrences of `sep`; there is always at least one.
pub open spec fn split(s: Seq<char>, sep: char) -> Seq<Seq<char>>
    decreases s.len(),
{
    let n = find_char(s, sep);
    if 0 <= n < s.len() {
        seq![s.take(n)] + split(s.skip(n + 1), sep)
    } else {
        seq![s]
    }
}

/// The fields written one after another with `sep` between them.
pub open spec fn join(fields: Seq<Seq<char>>, sep: char) -> Seq<char>
    decreases fields.len(),
{
    if fields.len() == 0 {
        Seq::empty()
    } else if fields.len() == 1 {
        fields[0]
    } else {
        join(fields.drop_last(), sep) + seq![sep] + fields.last()
    }
}

/// `find_char` is the one index before which no `sep` stands and at which
/// one does, or the text ends.
pub proof fn lemma_find_char(s: Seq<char>, sep: char, n: int)
    requires
        0 <= n <= s.len(),
        forall|j: int| 0 <= j < n ==> s[j] != sep,
        n < s.len() ==> s[n] == sep,
    ensures
        find_char(s, sep) == n,
    decreases s.len(),
{
    if n > 0 {
        assert(s[0] != sep);
        assert forall|j: int| 0 <= j < n - 1 implies s.skip(1)[j] != sep by {
            assert(s.skip(1)[j] == s[j + 1]);
        }
        lemma_find_char(s.skip(1), sep, n - 1);
    }
}

/// Splits `s` at every occurrence of `sep`.
pub fn split_fields(s: &str, sep: char) -> (fields: Vec<String>)
    ensures
        fields.deep_view() == split(s@, sep),
{
    let len: usize = s.unicode_len();
    let mut fields: Vec<String> = Vec::new();
    let mut start: usize = 0;
    let mut i: usize = 0;
    assert(s@.skip(0) =~= s@);
    assert(fields.deep_view() + split(s@.skip(0), sep) =~= split(s@, sep));
    while i < len
        invariant
            start <= i <= len,
            len == s@.len(),
            forall|j: int| start <= j < i ==> s@[j] != sep,
            fields.deep_view() + split(s@.skip(start as int), sep) == split(s@, sep),
        decreases len - i,
    {
        if s.get_char(i) == sep {
            let field: String = s.substring_char(start, i).to_owned();
            proof {
                let tail = s@.skip(start as int);
                lemma_find_char(tail, sep, i - start);
                assert(tail.take(i - start) =~= s@.subrange(start as int, i as int));
                assert(tail.skip(i - start + 1) =~= s@.skip(i + 1));
                assert(split(tail, sep) == seq![field@] + split(s@.skip(i + 1), sep));
                assert(fields.deep_view().push(field@) + split(s@.skip(i + 1), sep)
                    =~= fields.deep_view() + split(tail, sep));
            }
            let ghost before = fields.deep_view();
            fields.push(field);
            assert(fields.deep_view() =~= before.push(field@));
            start = i + 1;
        }
        i = i + 1;
    }
    let field: String = s.substring_char(start, len).to_owned();
    proof {
        let tail = s@.skip(start as int);
        lemma_find_char(tail, sep, len - start);
        assert(tail =~= s@.subrange(start as int, len as int));
        assert(split(tail, sep) == seq![field@]);
    }
    let ghost before = fields.deep_view();
    fields.push(field);
    assert(fields.deep_view() =~= before.push(field@));
    fields
}

/// Joins the fields from index `from` on with commas.
pub(crate) fn join_commas(fields: &Vec<String>, from: usize) -> (joined: String)
    requires
        from <= fields.len(),
    ensures
        joined@ == join(fields.deep_view().skip(from as int), ','),
{
    let mut joined: String = String::new();
    let mut i: usize = from;
    let ghost all = fields.deep_view();
    assert(all.skip(from as int).take(0) =~= Seq::<Seq<char>>::empty());
    while i < fields.len()
        invariant
            from <= i <= fields.len(),
            all == fields.deep_view(),
            joined@ == join(all.skip(from as int).take(i - from), ','),
        decreases fields.len() - i,
    {
        proof {
            reveal_strlit(",");
            let done = all.skip(from as int).take(i - from);
            let next = all.skip(from as int).take(i - from + 1);
            assert(next.drop_last() =~= done);
            assert(next.last() == fields[i as int]@);
            assert(",".view() =~= seq![',']);
        }
        if i > from {
            joined.append(",");
        }
        joined.append(fields[i].as_str());
        assert(joined@ =~= join(all.skip(from as int).take(i - from + 1), ','));
        i = i + 1;
    }
    assert(all.skip(from as int).take(fields.len() - from) =~= all.skip(from as int));
    joined
}

/// Decodes UTF-8.
///
/// Calls `String::from_utf8`, which gives the text that the bytes encode and
/// fails exactly when they are not valid UTF-8.
#[verifier::external_body]
pub(crate) fn string_from_utf8(bytes: Vec<u8>) -> (text: Option<String>)
    ensures
        text is Some <==> valid_utf8(bytes@),
        text matches Some(s) ==> s@ == decode_utf8(bytes@),
{
    String::from_utf8(bytes).ok()
}

/// The text whose characters are the bytes, for bytes that are all ASCII.
pub open spec fn ascii_text(bytes: Seq<u8>) -> Seq<char> {
    Seq::new(bytes.len(), |i: int| bytes[i] as char)
}

/// Whether every byte is ASCII.
pub open spec fn is_ascii_bytes(bytes: Seq<u8>) -> bool {
    forall|i: int| 0 <= i < bytes.len() ==> #[trigger] bytes[i] < 0x80
}

/// ASCII bytes are UTF-8, and decode to one character for each byte.
pub proof fn lemma_ascii_is_utf8(bytes: Seq<u8>)
    requires
        is_ascii_bytes(bytes),
    ensures
        valid_utf8(bytes),
        decode_utf8(bytes) == ascii_text(bytes),
{
    let chars = ascii_text(bytes);
    assert(is_ascii_chars(chars));
    is_ascii_chars_encode_utf8(chars);
    assert(encode_utf8(chars) =~= bytes) by {
        assert forall|i: int| 0 <= i < chars.len() implies encode_utf8(chars)[i] == bytes[i] by {
            assert(chars[i] as u8 == encode_utf8(chars)[i]);
        }
    }
    encode_utf8_valid_utf8(chars);
    encode_utf8_decode_utf8(chars);
}

/// What a search of `text` with the regular expression `pattern` captures:
/// `None` where the pattern does not compile or nothing matches; otherwise,
/// for each group of the pattern, the whole match first, what the group
/// matched, if it took part in the match.
pub uninterp spec fn regex_captures(pattern: Seq<char>, text: Seq<char>) -> Option<
    Seq<Option<Seq<char>>>,
>;

/// The view of what `captures` returns.
pub open spec fn captures_view(groups: Option<Vec<Option<String>>>) -> Option<
    Seq<Option<Seq<char>>>,
> {
    match groups {
        Some(groups) => Some(
            Seq::new(
                groups@.len(),
                |i: int|
                    match groups@[i] {
                        Some(s) => Some(s@),
                        None => None,
                    },
            ),
        ),
        None => None,
    }
}

/// Searches `text` for the first match of the regular expression `pattern`.
///
/// Calls `regex::Regex::new` and `regex::Regex::captures`, and copies what
/// each group captured. The result is `None` where the pattern does not
/// compile or does not match; what it holds otherwise is what the regex
/// crate finds, and is only named here.
#[verifier::external_body]
pub(crate) fn captures(pattern: &str, text: &str) -> (groups: Option<Vec<Option<String>>>)
    ensures
        captures_view(groups) == regex_captures(pattern@, text@),
{
    let regex = regex::Regex::new(pattern).ok()?;
    let found = regex.captures(text)?;
    Some(found.iter().map(|group| group.map(|m| m.as_str().to_owned())).collect())
}

/// Whether two texts are the same.
pub fn same_text(a: &str, b: &str) -> (same: bool)
    ensures
        same == (a@ == b@),
{
    let len: usize = a.unicode_len();
    if len != b.unicode_len() {
        return false;
    }
    let mut i: usize = 0;
    while i < len
        invariant
            i <= len,
            len == a@.len(),
            len == b@.len(),
            forall|j: int| 0 <= j < i ==> a@[j] == b@[j],
        decreases len - i,
    {
        if a.get_char(i) != b.get_char(i) {
            return false;
        }
        i = i + 1;
    }
    assert(a@ =~= b@);
    true
}

/// The text in lower case, as Unicode defines it.
pub uninterp spec fn lowercase_of(text: Seq<char>) -> Seq<char>;

/// Turns a text into lower case.
///
/// Calls `str::to_lowercase`; what it gives for a text is only named here.
#[verifier::external_body]
pub(crate) fn to_lowercase(text: &str) -> (lower: String)
    ensures
        lower@ == lowercase_of(text@),
{
    text.to_lowercase()
}

/// The last component of a path, as the platform reads paths.
///
/// Calls `std::path::Path::file_name`; gives the empty text where the path
/// has no last component or where it is not Unicode. What a path is read as
/// depends on the platform, so nothing is said of the result.
#[verifier::external_body]
pub(crate) fn file_name(path: &str) -> (name: String) {
    std::path::Path::new(path).file_name().and_then(|name| name.to_str()).unwrap_or("").to_owned()
}

} // verus!
