//! Verified text utilities shared by the ledger and the protocol layer:
//! decimal rendering and parsing, string comparison and substring search,
//! and the bridge between byte buffers and character strings.

use vstd::prelude::*;

verus! {

/// The characters of the decimal rendering of `n`, as bytes (`'0'` is 48).
pub open spec fn spec_u64_bytes(n: nat) -> Seq<u8>
    decreases n,
{
    if n < 10 {
        seq![(48 + n) as u8]
    } else {
        spec_u64_bytes(n / 10).push((48 + n % 10) as u8)
    }
}

/// The decimal rendering of a signed value: a leading `'-'` (45) for
/// negative values, then the digits of the magnitude.
pub open spec fn spec_i64_bytes(v: int) -> Seq<u8> {
    if v < 0 {
        seq![45u8] + spec_u64_bytes((-v) as nat)
    } else {
        spec_u64_bytes(v as nat)
    }
}

/// Every byte of a decimal rendering is an ASCII digit.
pub proof fn lemma_u64_bytes_are_digits(n: nat)
    ensures
        forall|i: int| 0 <= i < spec_u64_bytes(n).len() ==> 48 <= #[trigger] spec_u64_bytes(n)[i] <= 57,
    decreases n,
{
    if n < 10 {
        assert(spec_u64_bytes(n) =~= seq![(48 + n) as u8]);
    } else {
        lemma_u64_bytes_are_digits(n / 10);
        assert(spec_u64_bytes(n) =~= spec_u64_bytes(n / 10).push((48 + n % 10) as u8));
    }
}

/// Appends the decimal digits of `n` to `out`.
pub fn push_u64_digits(n: u64, out: &mut Vec<u8>)
    ensures
        final(out)@ == old(out)@ + spec_u64_bytes(n as nat),
    decreases n,
{
    if n < 10 {
        out.push(48 + (n as u8));
    } else {
        push_u64_digits(n / 10, out);
        out.push(48 + ((n % 10) as u8));
    }
}

/// Appends the decimal rendering of `v`, sign included, to `out`.
pub fn push_i64_digits(v: i64, out: &mut Vec<u8>)
    ensures
        final(out)@ == old(out)@ + spec_i64_bytes(v as int),
{
    if v < 0 {
        out.push(45);
        let magnitude: u64 = ((-(v + 1)) as u64) + 1;
        assert(magnitude == -(v as int));
        push_u64_digits(magnitude, out);
        assert(out@ =~= old(out)@ + spec_i64_bytes(v as int));
    } else {
        push_u64_digits(v as u64, out);
    }
}

/// The decimal rendering of `n` as characters.
pub open spec fn spec_u64_chars(n: nat) -> Seq<char> {
    bytes_as_chars(spec_u64_bytes(n))
}

/// The signed decimal rendering of `v` as characters.
pub open spec fn spec_i64_chars(v: int) -> Seq<char> {
    bytes_as_chars(spec_i64_bytes(v))
}

/// The decimal rendering of `n` as a string.
pub fn u64_to_string(n: u64) -> (r: String)
    ensures
        r@ == spec_u64_chars(n as nat),
{
    let mut digits: Vec<u8> = Vec::new();
    push_u64_digits(n, &mut digits);
    proof {
        lemma_u64_bytes_are_digits(n as nat);
        assert(digits@ =~= spec_u64_bytes(n as nat));
    }
    ascii_to_string(&digits)
}

/// The signed decimal rendering of `v` as a string.
pub fn i64_to_string(v: i64) -> (r: String)
    ensures
        r@ == spec_i64_chars(v as int),
{
    let mut digits: Vec<u8> = Vec::new();
    push_i64_digits(v, &mut digits);
    proof {
        if v < 0 {
            lemma_u64_bytes_are_digits((-(v as int)) as nat);
        } else {
            lemma_u64_bytes_are_digits(v as nat);
        }
        assert(digits@ =~= spec_i64_bytes(v as int));
    }
    ascii_to_string(&digits)
}

/// The bytes of a separated decimal list of the values of `b`: each byte's
/// decimal rendering, with `sep` between neighbours.
pub open spec fn spec_byte_list_bytes(b: Seq<u8>, sep: Seq<u8>) -> Seq<u8>
    decreases b.len(),
{
    if b.len() == 0 {
        Seq::empty()
    } else if b.len() == 1 {
        spec_u64_bytes(b[0] as nat)
    } else {
        spec_byte_list_bytes(b.drop_last(), sep) + sep + spec_u64_bytes(b.last() as nat)
    }
}

/// A separated decimal list keeps to ASCII when its separator does.
pub proof fn lemma_byte_list_ascii(b: Seq<u8>, sep: Seq<u8>)
    requires
        ascii_bytes(sep),
    ensures
        ascii_bytes(spec_byte_list_bytes(b, sep)),
    decreases b.len(),
{
    if b.len() == 1 {
        lemma_u64_bytes_are_digits(b[0] as nat);
    } else if b.len() > 1 {
        lemma_byte_list_ascii(b.drop_last(), sep);
        lemma_u64_bytes_are_digits(b.last() as nat);
    }
}

/// Appends the separated decimal list of the values of `b` to `out`.
pub fn push_byte_list(b: &Vec<u8>, sep: &Vec<u8>, out: &mut Vec<u8>)
    ensures
        final(out)@ == old(out)@ + spec_byte_list_bytes(b@, sep@),
{
    let mut i: usize = 0;
    while i < b.len()
        invariant
            0 <= i <= b@.len(),
            out@ == old(out)@ + spec_byte_list_bytes(b@.subrange(0, i as int), sep@),
        decreases b@.len() - i,
    {
        if i > 0 {
            let mut sep_copy = sep.clone();
            out.append(&mut sep_copy);
        }
        push_u64_digits(b[i] as u64, out);
        proof {
            let pre = b@.subrange(0, i as int);
            let post = b@.subrange(0, i as int + 1);
            assert(post.drop_last() =~= pre);
            assert(post.last() == b@[i as int]);
            if i == 0 {
                assert(spec_byte_list_bytes(pre, sep@) =~= Seq::<u8>::empty());
                assert(out@ =~= old(out)@ + spec_byte_list_bytes(post, sep@));
            } else {
                assert(out@ =~= old(out)@ + spec_byte_list_bytes(post, sep@));
            }
        }
        i = i + 1;
    }
    proof {
        assert(b@.subrange(0, b@.len() as int) =~= b@);
    }
}

/// Whether `c` is an ASCII decimal digit.
pub open spec fn is_digit_char(c: char) -> bool {
    '0' <= c && c <= '9'
}

/// The value of a digit character.
pub open spec fn digit_value(c: char) -> int {
    c as int - '0' as int
}

/// Whether every character of `s` is a decimal digit.
pub open spec fn all_digits(s: Seq<char>) -> bool {
    forall|i: int| 0 <= i < s.len() ==> is_digit_char(#[trigger] s[i])
}

/// The numeric value of a digit string, most significant digit first.
pub open spec fn digits_value(s: Seq<char>) -> int
    decreases s.len(),
{
    if s.len() == 0 {
        0
    } else {
        digits_value(s.drop_last()) * 10 + digit_value(s.last())
    }
}

/// A longer digit string never has a smaller value: extending a prefix by
/// further digits can only grow the value.
proof fn lemma_digits_value_prefix(s: Seq<char>, i: int, j: int)
    requires
        all_digits(s),
        0 <= i <= j <= s.len(),
    ensures
        digits_value(s.subrange(0, i)) <= digits_value(s.subrange(0, j)),
        digits_value(s.subrange(0, i)) >= 0,
    decreases j - i,
{
    if i == j {
        lemma_digits_value_nonneg(s, i);
    } else {
        lemma_digits_value_prefix(s, i, j - 1);
        assert(s.subrange(0, j).drop_last() =~= s.subrange(0, j - 1));
        assert(digits_value(s.subrange(0, j))
            == digits_value(s.subrange(0, j - 1)) * 10 + digit_value(s[j - 1]));
    }
}

proof fn lemma_digits_value_nonneg(s: Seq<char>, i: int)
    requires
        all_digits(s),
        0 <= i <= s.len(),
    ensures
        digits_value(s.subrange(0, i)) >= 0,
    decreases i,
{
    if i > 0 {
        lemma_digits_value_nonneg(s, i - 1);
        assert(s.subrange(0, i).drop_last() =~= s.subrange(0, i - 1));
    }
}

/// Parses `s` as an unsigned decimal number. Returns the value exactly when
/// `s` is a non-empty, all-digit string whose value fits in `usize`.
pub fn parse_usize(s: &str) -> (r: Option<usize>)
    ensures
        match r {
            Some(v) => s@.len() > 0 && all_digits(s@) && digits_value(s@) == v as int,
            None => !(s@.len() > 0 && all_digits(s@) && digits_value(s@) <= usize::MAX),
        },
{
    let n: usize = s.unicode_len();
    if n == 0 {
        return None;
    }
    let mut acc: usize = 0;
    let mut i: usize = 0;
    while i < n
        invariant
            0 < n == s@.len(),
            0 <= i <= n,
            all_digits(s@.subrange(0, i as int)),
            acc as int == digits_value(s@.subrange(0, i as int)),
        decreases n - i,
    {
        let c = s.get_char(i);
        if !('0' <= c && c <= '9') {
            return None;
        }
        let d: usize = (c as u8 - 48) as usize;
        if acc > (usize::MAX - d) / 10 {
            proof {
                if all_digits(s@) {
                    lemma_digits_value_prefix(s@, i as int + 1, s@.len() as int);
                    assert(s@.subrange(0, s@.len() as int) =~= s@);
                    assert(s@.subrange(0, i as int + 1).drop_last() =~= s@.subrange(0, i as int));
                    assert(digits_value(s@.subrange(0, i as int + 1)) == acc as int * 10 + d);
                    assert(acc as int * 10 + d > usize::MAX) by (nonlinear_arith)
                        requires
                            acc as int > (usize::MAX as int - d) / 10,
                            0 <= d <= 9,
                    ;
                }
            }
            return None;
        }
        assert(acc as int * 10 + d <= usize::MAX) by (nonlinear_arith)
            requires
                acc as int <= (usize::MAX as int - d) / 10,
                0 <= d <= 9,
        ;
        acc = acc * 10 + d;
        i = i + 1;
        assert(s@.subrange(0, i as int).drop_last() =~= s@.subrange(0, i as int - 1));
    }
    assert(s@.subrange(0, n as int) =~= s@);
    Some(acc)
}

/// Character-for-character string equality.
pub fn str_eq(a: &str, b: &str) -> (r: bool)
    ensures
        r == (a@ == b@),
{
    let la: usize = a.unicode_len();
    let lb: usize = b.unicode_len();
    if la != lb {
        return false;
    }
    let mut i: usize = 0;
    while i < la
        invariant
            la == a@.len() == b@.len(),
            0 <= i <= la,
            forall|j: int| 0 <= j < i ==> a@[j] == b@[j],
        decreases la - i,
    {
        if a.get_char(i) != b.get_char(i) {
            return false;
        }
        i = i + 1;
    }
    proof {
        assert(a@ =~= b@);
    }
    true
}

/// Whether `needle` occurs in `hay` starting at position `at`.
pub open spec fn matches_at(hay: Seq<char>, needle: Seq<char>, at: int) -> bool {
    0 <= at && at + needle.len() <= hay.len() && hay.subrange(at, at + needle.len()) == needle
}

/// Whether `needle` occurs anywhere in `hay`.
pub open spec fn contains_seq(hay: Seq<char>, needle: Seq<char>) -> bool {
    exists|at: int| matches_at(hay, needle, at)
}

/// Substring search: whether `needle` occurs anywhere in `hay`.
pub fn str_contains(hay: &str, needle: &str) -> (r: bool)
    ensures
        r == contains_seq(hay@, needle@),
{
    let lh: usize = hay.unicode_len();
    let ln: usize = needle.unicode_len();
    if ln > lh {
        assert(!contains_seq(hay@, needle@));
        return false;
    }
    let mut at: usize = 0;
    while at <= lh - ln
        invariant
            ln <= lh,
            lh == hay@.len(),
            ln == needle@.len(),
            0 <= at <= lh - ln + 1,
            forall|k: int| 0 <= k < at ==> !matches_at(hay@, needle@, k),
        decreases lh - ln - at + 1,
    {
        let mut j: usize = 0;
        let mut all_match: bool = true;
        while j < ln && all_match
            invariant
                ln <= lh,
                lh == hay@.len(),
                ln == needle@.len(),
                0 <= at <= lh - ln,
                0 <= j <= ln,
                all_match ==> (forall|k: int| 0 <= k < j ==> hay@[at + k] == needle@[k]),
                !all_match ==> !matches_at(hay@, needle@, at as int),
            decreases ln - j + (if all_match { 1int } else { 0int }),
        {
            if hay.get_char(at + j) != needle.get_char(j) {
                all_match = false;
                proof {
                    if matches_at(hay@, needle@, at as int) {
                        assert(hay@.subrange(at as int, at as int + needle@.len())[j as int]
                            == needle@[j as int]);
                    }
                }
            } else {
                j = j + 1;
            }
        }
        if all_match {
            proof {
                assert(hay@.subrange(at as int, at as int + needle@.len()) =~= needle@);
                assert(matches_at(hay@, needle@, at as int));
            }
            return true;
        }
        proof {
            if ln == 0 {
                assert(hay@.subrange(at as int, at as int) =~= needle@);
                assert(matches_at(hay@, needle@, at as int));
            }
        }
        at = at + 1;
    }
    proof {
        assert forall|k: int| matches_at(hay@, needle@, k) implies false by {
            assert(0 <= k < at);
        }
    }
    false
}

/// Names what `String::from_utf8_lossy` returns: the decoding is a function
/// of the bytes alone.
pub uninterp spec fn utf8_lossy(b: Seq<u8>) -> Seq<char>;

/// Relies on `String::from_utf8_lossy`: decoding depends on the bytes alone,
/// and ASCII bytes decode to the matching characters unchanged.
#[verifier::external_body]
pub(crate) fn utf8_lossy_decode(b: &[u8]) -> (r: String)
    ensures
        r@ == utf8_lossy(b@),
        (forall|i: int| 0 <= i < b@.len() ==> b@[i] < 128) ==> r@ == b@.map_values(|x: u8| x as char),
{
    String::from_utf8_lossy(b).into_owned()
}

/// The bytes of a character sequence, one byte per character; meaningful
/// for ASCII text, where it is the UTF-8 encoding.
pub open spec fn chars_as_bytes(s: Seq<char>) -> Seq<u8> {
    s.map_values(|c: char| c as u8)
}

/// The UTF-8 bytes of an ASCII string: one byte per character.
pub fn ascii_str_bytes(s: &str) -> (r: Vec<u8>)
    requires
        vstd::utf8::is_ascii_chars(s@),
    ensures
        r@ == chars_as_bytes(s@),
{
    let r = s.as_bytes_vec();
    proof {
        vstd::utf8::is_ascii_chars_encode_utf8(s@);
        assert(r@ =~= chars_as_bytes(s@));
    }
    r
}

/// Relies on `char::to_string`: a string holding exactly that character.
#[verifier::external_body]
pub(crate) fn char_to_string(c: char) -> (r: String)
    ensures
        r@ == seq![c],
{
    c.to_string()
}

/// Text that can stand inside one of our serialized strings: printable
/// ASCII or a newline.
pub open spec fn json_stringable(s: Seq<char>) -> bool {
    forall|i: int| 0 <= i < s.len() ==> (' ' <= #[trigger] s[i] <= '~' || s[i] == '\n')
}

/// Such text is ASCII.
pub proof fn lemma_json_stringable_ascii(s: Seq<char>)
    requires
        json_stringable(s),
    ensures
        vstd::utf8::is_ascii_chars(s),
{
}

/// Whether every byte of `b` is ASCII.
pub open spec fn ascii_bytes(b: Seq<u8>) -> bool {
    forall|i: int| 0 <= i < b.len() ==> b[i] < 128
}

/// The characters of an ASCII byte sequence.
pub open spec fn bytes_as_chars(b: Seq<u8>) -> Seq<char> {
    b.map_values(|x: u8| x as char)
}

/// Turns a buffer of ASCII bytes into the string of the same characters.
pub fn ascii_to_string(b: &Vec<u8>) -> (r: String)
    requires
        ascii_bytes(b@),
    ensures
        r@ == bytes_as_chars(b@),
{
    utf8_lossy_decode(b.as_slice())
}

} // verus!
