use vstd::prelude::*;
use vstd::string::*;
use vstd::utf8::*;

verus! {

/// What went wrong with one read of an endpoint.
#[derive(Debug)]
pub enum ReadIntoErrorKind {
    /// The read itself failed; the text is the system's description.
    Io(String),
    /// The bytes read are not well-formed UTF-8.
    Utf8(Vec<u8>),
    /// The text read is not a number of the expected type.
    Parse(String),
}

/// A failed read, with the endpoint's path.
#[derive(Debug)]
pub struct ReadIntoError {
    pub path: String,
    pub kind: ReadIntoErrorKind,
}

impl ReadIntoError {
    pub fn new(path: &str, kind: ReadIntoErrorKind) -> (r: ReadIntoError)
        ensures
            r.path@ == path@,
            r.kind == kind,
    {
        ReadIntoError { path: path.to_owned(), kind }
    }
}

/// The padding that surrounds a reading: NUL bytes of an unfilled buffer and
/// the newline that ends the value.
pub open spec fn is_pad(c: char) -> bool {
    c == '\0' || c == '\n'
}

/// `s` without the padding at its start.
pub open spec fn trim_start(s: Seq<char>) -> Seq<char>
    decreases s.len(),
{
    if s.len() > 0 && is_pad(s[0]) {
        trim_start(s.drop_first())
    } else {
        s
    }
}

/// `s` without the padding at its end.
pub open spec fn trim_end(s: Seq<char>) -> Seq<char>
    decreases s.len(),
{
    if s.len() > 0 && is_pad(s.last()) {
        trim_end(s.drop_last())
    } else {
        s
    }
}

/// `s` without the padding at either end.
pub open spec fn trimmed(s: Seq<char>) -> Seq<char> {
    trim_end(trim_start(s))
}

pub open spec fn is_digit(c: char) -> bool {
    '0' as int <= c as int <= '9' as int
}

/// A non-empty run of decimal digits.
pub open spec fn all_digits(s: Seq<char>) -> bool {
    s.len() > 0 && forall|i: int| 0 <= i < s.len() ==> is_digit(#[trigger] s[i])
}

/// The number that a run of decimal digits writes.
pub open spec fn digits_value(s: Seq<char>) -> int
    decreases s.len(),
{
    if s.len() == 0 {
        0
    } else {
        digits_value(s.drop_last()) * 10 + (s.last() as int - '0' as int)
    }
}

/// The integer that `s` writes in decimal: an optional sign, then digits.
pub open spec fn int_text_value(s: Seq<char>) -> Option<int> {
    if s.len() > 0 && (s[0] == '-' || s[0] == '+') && all_digits(s.drop_first()) {
        if s[0] == '-' {
            Some(-digits_value(s.drop_first()))
        } else {
            Some(digits_value(s.drop_first()))
        }
    } else if all_digits(s) {
        Some(digits_value(s))
    } else {
        None
    }
}

/// The 32-bit integer that `s` writes, if it writes one in range.
pub open spec fn parse_i32(s: Seq<char>) -> Option<int> {
    match int_text_value(s) {
        Some(v) => if i32::MIN <= v <= i32::MAX {
            Some(v)
        } else {
            None
        },
        None => None,
    }
}

/// The outcome of decoding the bytes of one read.
pub open spec fn decode_spec(bytes: Seq<u8>) -> Option<int> {
    if valid_utf8(bytes) {
        parse_i32(trimmed(decode_utf8(bytes)))
    } else {
        None
    }
}

proof fn lemma_digits_prefix_le(s: Seq<char>, k: int)
    requires
        all_digits(s),
        0 <= k <= s.len(),
    ensures
        0 <= digits_value(s.take(k)) <= digits_value(s),
    decreases s.len(),
{
    if k == s.len() {
        assert(s.take(k) =~= s);
        lemma_digits_nonneg(s);
    } else {
        let d = s.drop_last();
        if d.len() > 0 {
            assert(all_digits(d)) by {
                assert forall|i: int| 0 <= i < d.len() implies is_digit(#[trigger] d[i]) by {
                    assert(d[i] == s[i]);
                }
            }
            lemma_digits_prefix_le(d, k);
            assert(d.take(k) =~= s.take(k));
            assert(is_digit(s[s.len() - 1]));
        } else {
            assert(s.take(k) =~= Seq::<char>::empty());
            assert(is_digit(s[s.len() - 1]));
        }
    }
}

proof fn lemma_digits_nonneg(s: Seq<char>)
    requires
        forall|i: int| 0 <= i < s.len() ==> is_digit(#[trigger] s[i]),
    ensures
        digits_value(s) >= 0,
    decreases s.len(),
{
    if s.len() > 0 {
        let d = s.drop_last();
        assert forall|i: int| 0 <= i < d.len() implies is_digit(#[trigger] d[i]) by {
            assert(d[i] == s[i]);
        }
        lemma_digits_nonneg(d);
        assert(is_digit(s[s.len() - 1]));
    }
}

fn is_pad_char(c: char) -> (r: bool)
    ensures
        r == is_pad(c),
{
    c == '\0' || c == '\n'
}

/// Parses the characters `a..b` of `t` as a 32-bit decimal integer.
pub fn parse_i32_range(t: &str, a: usize, b: usize) -> (r: Option<i32>)
    requires
        a <= b <= t@.len(),
    ensures
        match parse_i32(t@.subrange(a as int, b as int)) {
            Some(v) => r == Some(v as i32),
            None => r is None,
        },
{
    let ghost s = t@.subrange(a as int, b as int);
    let mut i: usize = a;
    let mut neg = false;
    if a < b {
        let c = t.get_char(a);
        if c == '-' {
            neg = true;
            i = a + 1;
        } else if c == '+' {
            i = a + 1;
        }
    }
    let ghost body = t@.subrange(i as int, b as int);
    proof {
        if i > a {
            assert(s.drop_first() =~= body);
        } else {
            assert(s =~= body);
        }
        if a < b {
            assert(s[0] == t@[a as int]);
        }
    }
    if i == b {
        return None;
    }
    let mut acc: i64 = 0;
    let mut k: usize = i;
    while k < b
        invariant
            a <= i < b <= t@.len(),
            i <= k <= b,
            s == t@.subrange(a as int, b as int),
            i == a ==> s == body && s[0] != '-' && s[0] != '+',
            i != a ==> i == a + 1 && s.drop_first() == body && (s[0] == '-' || s[0] == '+'),
            neg <==> (i != a && s[0] == '-'),
            body == t@.subrange(i as int, b as int),
            acc as int == digits_value(t@.subrange(i as int, k as int)),
            0 <= acc <= 2147483648,
            forall|j: int| i <= j < k ==> is_digit(#[trigger] t@[j]),
        decreases b - k,
    {
        let c = t.get_char(k);
        let d = c as u32;
        if d < 48 || d > 57 {
            proof {
                assert(body[k - i] == c);
                assert(!all_digits(body));
                assert(s[0] == t@[a as int]);
            }
            return None;
        }
        proof {
            assert(t@.subrange(i as int, k + 1).drop_last() =~= t@.subrange(i as int, k as int));
        }
        acc = acc * 10 + (d as i64 - 48);
        k = k + 1;
        if acc > 2147483648 {
            proof {
                if all_digits(body) {
                    lemma_digits_prefix_le(body, k - i);
                    assert(body.take(k - i) =~= t@.subrange(i as int, k as int));
                }
                assert(s[0] == t@[a as int]);
            }
            return None;
        }
    }
    proof {
        assert(t@.subrange(i as int, k as int) =~= body);
        assert(all_digits(body));
        if i == a {
            assert(is_digit(s[0]));
        }
    }
    let v: i64 = if neg { -acc } else { acc };
    if v > 2147483647 {
        return None;
    }
    Some(v as i32)
}

/// Relies on std::str::from_utf8: it succeeds exactly on well-formed UTF-8,
/// and the text is then the characters that the bytes encode.
#[verifier::external_body]
pub(crate) fn utf8_text(b: &[u8]) -> (r: Option<String>)
    ensures
        r is Some <==> valid_utf8(b@),
        r matches Some(s) ==> s@ == decode_utf8(b@),
{
    std::str::from_utf8(b).ok().map(|s| s.to_owned())
}

/// Finds the padding around the text: the result `(a, b)` is such that
/// characters `a..b` are the text without its padding.
pub fn pad_bounds(t: &str) -> (r: (usize, usize))
    ensures
        r.0 <= r.1 <= t@.len(),
        t@.subrange(r.0 as int, r.1 as int) == trimmed(t@),
{
    let n = t.unicode_len();
    let mut a: usize = 0;
    assert(t@.subrange(0, n as int) =~= t@);
    while a < n && is_pad_char(t.get_char(a))
        invariant
            n == t@.len(),
            a <= n,
            trim_start(t@) == trim_start(t@.subrange(a as int, n as int)),
        decreases n - a,
    {
        assert(t@.subrange(a as int, n as int).drop_first() =~= t@.subrange(a + 1, n as int));
        a = a + 1;
    }
    assert(trim_start(t@) == t@.subrange(a as int, n as int));
    let mut b: usize = n;
    while b > a && is_pad_char(t.get_char(b - 1))
        invariant
            n == t@.len(),
            a <= b <= n,
            trim_end(t@.subrange(a as int, n as int)) == trim_end(t@.subrange(a as int, b as int)),
        decreases b,
    {
        assert(t@.subrange(a as int, b as int).drop_last() =~= t@.subrange(a as int, b - 1));
        b = b - 1;
    }
    (a, b)
}

/// Decodes one fixed-width read of an endpoint: the bytes must be UTF-8 text
/// that, without its padding, writes a 32-bit integer. `read` is what the read
/// gave (the bytes, or the system's description of its failure) and `path`
/// names the endpoint in the error.
pub fn read_into(read: Result<Vec<u8>, String>, path: &str) -> (r: Result<i32, ReadIntoError>)
    ensures
        r matches Err(e) ==> e.path@ == path@,
        read matches Err(m) ==> r matches Err(e) && e.kind == ReadIntoErrorKind::Io(m),
        read matches Ok(b) ==> match decode_spec(b@) {
            Some(v) => r == Ok::<i32, ReadIntoError>(v as i32),
            None => r matches Err(e) && if valid_utf8(b@) {
                e.kind matches ReadIntoErrorKind::Parse(s) && s@ == decode_utf8(b@)
            } else {
                e.kind == ReadIntoErrorKind::Utf8(b)
            },
        },
{
    let bytes = match read {
        Err(m) => {
            return Err(ReadIntoError::new(path, ReadIntoErrorKind::Io(m)));
        },
        Ok(b) => b,
    };
    let text = match utf8_text(bytes.as_slice()) {
        None => {
            return Err(ReadIntoError::new(path, ReadIntoErrorKind::Utf8(bytes)));
        },
        Some(s) => s,
    };
    let (a, b) = pad_bounds(text.as_str());
    match parse_i32_range(text.as_str(), a, b) {
        Some(v) => Ok(v),
        None => Err(ReadIntoError::new(path, ReadIntoErrorKind::Parse(text))),
    }
}

} // verus!
