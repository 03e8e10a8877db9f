//! Pieces shared by the request and response parsers: finding the end of the
//! head, reading `Content-Length`, decimal numbers and text conversion.
use vstd::prelude::*;
use vstd::utf8::{decode_utf8, valid_utf8};

verus! {

/// The maximal number of headers read from a message head.
pub const MAX_HEADERS: usize = 64;

/// Outcome of reading a message head.
pub enum HeadParse<T> {
    /// The head is complete and well formed
    Complete(T),
    /// More bytes are needed
    Partial,
    /// The bytes are not a head of the expected grammar
    Invalid,
}

/// A header as found on the wire: name and raw value.
pub type RawHeader = (String, Vec<u8>);

pub open spec fn raw_headers_view(hs: Seq<RawHeader>) -> Seq<(Seq<char>, Seq<u8>)> {
    hs.map_values(|h: RawHeader| (h.0@, h.1@))
}

pub open spec fn text_headers_view(hs: Seq<(String, String)>) -> Seq<(Seq<char>, Seq<char>)> {
    hs.map_values(|h: (String, String)| (h.0@, h.1@))
}

/// Text read from bytes where each invalid UTF-8 sequence becomes U+FFFD.
pub uninterp spec fn utf8_lossy(b: Seq<u8>) -> Seq<char>;

/// The text that bytes are read as: valid UTF-8 decoded as it is, anything
/// else with its invalid sequences replaced.
pub open spec fn text_of(b: Seq<u8>) -> Seq<char> {
    if valid_utf8(b) {
        decode_utf8(b)
    } else {
        utf8_lossy(b)
    }
}

/// Relies on String::from_utf8_lossy: the text depends on the bytes alone, and
/// valid UTF-8 is decoded as it is.
#[verifier::external_body]
pub(crate) fn lossy_text(b: &[u8]) -> (r: String)
    ensures
        r@ == utf8_lossy(b@),
        valid_utf8(b@) ==> r@ == decode_utf8(b@),
{
    String::from_utf8_lossy(b).into_owned()
}

/// Value of a non-empty sequence of ASCII digits.
pub open spec fn digits_value(d: Seq<u8>) -> nat
    decreases d.len(),
{
    if d.len() == 0 {
        0
    } else {
        digits_value(d.drop_last()) * 10 + (d.last() - 48u8) as nat
    }
}

pub open spec fn all_digits(d: Seq<u8>) -> bool {
    forall|i: int| 0 <= i < d.len() ==> 48u8 <= #[trigger] d[i] <= 57u8
}

/// The number that a text of decimal digits denotes, as std's integer parsing
/// reads it: an optional `+`, then one or more ASCII digits.
pub open spec fn decimal_of(b: Seq<u8>) -> Option<nat> {
    let d = if b.len() > 0 && b[0] == 43u8 {
        b.drop_first()
    } else {
        b
    };
    if d.len() > 0 && all_digits(d) {
        Some(digits_value(d))
    } else {
        None
    }
}

/// The number that `b` denotes, where it is at most `max`.
pub open spec fn bounded_decimal(b: Seq<u8>, max: nat) -> Option<nat> {
    match decimal_of(b) {
        Some(n) => if n <= max {
            Some(n)
        } else {
            None
        },
        None => None,
    }
}

proof fn lemma_digits_value_grows(d: Seq<u8>, k: int)
    requires
        0 <= k <= d.len(),
        all_digits(d),
    ensures
        digits_value(d.subrange(0, k)) <= digits_value(d),
    decreases d.len() - k,
{
    if k < d.len() {
        let a = d.subrange(0, k);
        let b = d.subrange(0, k + 1);
        assert(b.drop_last() =~= a);
        assert(48u8 <= d[k]);
        lemma_digits_value_grows(d, k + 1);
        assert(digits_value(a) <= digits_value(b)) by (nonlinear_arith)
            requires
                digits_value(b) == digits_value(a) * 10 + (b.last() - 48u8) as nat,
        ;
    } else {
        assert(d.subrange(0, k) =~= d);
    }
}

/// Reads the decimal number in `b`, as std's `str::parse` does for an unsigned
/// integer type whose largest value is `max`.
pub fn parse_decimal(b: &[u8], max: u64) -> (r: Option<u64>)
    ensures
        r matches Some(n) ==> bounded_decimal(b@, max as nat) == Some(n as nat),
        r is None ==> bounded_decimal(b@, max as nat) is None,
{
    let start: usize = if b.len() > 0 && b[0] == 43 {
        1
    } else {
        0
    };
    let ghost d = if b@.len() > 0 && b@[0] == 43u8 {
        b@.drop_first()
    } else {
        b@
    };
    assert(d =~= b@.subrange(start as int, b@.len() as int));
    assert(decimal_of(b@) == (if d.len() > 0 && all_digits(d) {
        Some(digits_value(d))
    } else {
        None
    }));
    if start >= b.len() {
        return None;
    }
    let mut acc: u64 = 0;
    let mut i: usize = start;
    while i < b.len()
        invariant
            start <= i <= b@.len(),
            d =~= b@.subrange(start as int, b@.len() as int),
            decimal_of(b@) == (if d.len() > 0 && all_digits(d) {
                Some(digits_value(d))
            } else {
                None
            }),
            forall|j: int| start <= j < i ==> 48u8 <= #[trigger] b@[j] <= 57u8,
            acc as nat == digits_value(b@.subrange(start as int, i as int)),
            acc <= max,
        decreases b.len() - i,
    {
        let c = b[i];
        if c < 48 || c > 57 {
            assert(d[i - start] == c);
            assert(!all_digits(d));
            return None;
        }
        let digit: u64 = (c - 48) as u64;
        let ghost prefix = b@.subrange(start as int, i as int + 1);
        assert(prefix.drop_last() =~= b@.subrange(start as int, i as int));
        if digit > max || acc > (max - digit) / 10 {
            assert(digits_value(prefix) > max) by (nonlinear_arith)
                requires
                    digit > max || acc > (max - digit) / 10,
                    digits_value(prefix) == acc * 10 + digit,
            ;
            proof {
                if all_digits(d) {
                    assert(prefix =~= d.subrange(0, i - start + 1));
                    lemma_digits_value_grows(d, i - start + 1);
                }
            }
            return None;
        }
        assert(acc * 10 + digit <= max) by (nonlinear_arith)
            requires
                acc <= (max - digit) / 10,
                digit <= max,
        ;
        acc = acc * 10 + digit;
        i = i + 1;
    }
    assert(b@.subrange(start as int, i as int) =~= d);
    Some(acc)
}

/// Outcome of reading a message from the bytes received so far.
pub enum Progress<V> {
    /// More bytes are needed
    Pending,
    /// The head is not of the expected grammar
    Malformed,
    /// The message is complete
    Parsed(V),
}

/// Header values read as text.
pub open spec fn lossy_headers(hs: Seq<(Seq<char>, Seq<u8>)>) -> Seq<(Seq<char>, Seq<char>)> {
    hs.map_values(|h: (Seq<char>, Seq<u8>)| (h.0, text_of(h.1)))
}

/// The length that the first `Content-Length` header declares; 0 where there
/// is none or where its value is not a number that fits in `usize`.
pub open spec fn content_length_of(hs: Seq<(Seq<char>, Seq<u8>)>) -> nat
    decreases hs.len(),
{
    if hs.len() == 0 {
        0
    } else if hs[0].0 == "Content-Length"@ {
        match bounded_decimal(hs[0].1, usize::MAX as nat) {
            Some(n) => n,
            None => 0,
        }
    } else {
        content_length_of(hs.drop_first())
    }
}

/// Reads the body length that the headers declare.
pub fn content_length(headers: &Vec<RawHeader>) -> (r: usize)
    ensures
        r as nat == content_length_of(raw_headers_view(headers@)),
{
    let name = String::from_str("Content-Length");
    let ghost hs = raw_headers_view(headers@);
    let mut i: usize = 0;
    assert(hs.subrange(0, hs.len() as int) =~= hs);
    while i < headers.len()
        invariant
            i <= headers@.len(),
            name@ == "Content-Length"@,
            hs == raw_headers_view(headers@),
            content_length_of(hs) == content_length_of(hs.subrange(i as int, hs.len() as int)),
        decreases headers.len() - i,
    {
        let ghost rest = hs.subrange(i as int, hs.len() as int);
        assert(rest.drop_first() =~= hs.subrange(i + 1, hs.len() as int));
        if headers[i].0 == name {
            return match parse_decimal(headers[i].1.as_slice(), usize::MAX as u64) {
                Some(n) => n as usize,
                None => 0,
            };
        }
        i = i + 1;
    }
    0
}

/// Turns raw header values into text.
pub fn text_headers(headers: &Vec<RawHeader>) -> (r: Vec<(String, String)>)
    ensures
        text_headers_view(r@) == lossy_headers(raw_headers_view(headers@)),
{
    let mut out: Vec<(String, String)> = Vec::new();
    let mut i: usize = 0;
    while i < headers.len()
        invariant
            i <= headers@.len(),
            text_headers_view(out@) =~= lossy_headers(raw_headers_view(headers@)).subrange(
                0,
                i as int,
            ),
        decreases headers.len() - i,
    {
        let name = headers[i].0.clone();
        let value = lossy_text(headers[i].1.as_slice());
        let ghost prev = out@;
        out.push((name, value));
        proof {
            let target = lossy_headers(raw_headers_view(headers@));
            assert(text_headers_view(out@) =~= text_headers_view(prev).push((name@, value@)));
            assert(target.subrange(0, i + 1) =~= target.subrange(0, i as int).push(target[i as int]));
        }
        i = i + 1;
    }
    out
}

/// The body, once all its bytes have arrived.
pub fn body_text(buf: &[u8], start: usize, len: usize) -> (r: Option<String>)
    requires
        start <= buf@.len(),
    ensures
        r is Some <==> buf@.len() >= start + len,
        r matches Some(b) ==> b@ == text_of(buf@.subrange(start as int, start + len)),
{
    if buf.len() - start < len {
        None
    } else {
        Some(lossy_text(&buf[start..start + len]))
    }
}

/// The decimal digits of `n`, most significant first, without leading zeros.
pub open spec fn decimal_digits(n: nat) -> Seq<u8>
    decreases n,
{
    if n < 10 {
        seq![(48 + n) as u8]
    } else {
        decimal_digits(n / 10).push((48 + n % 10) as u8)
    }
}

/// Reading back the digits written for a number gives the number.
pub proof fn lemma_decimal_round_trip(n: nat)
    ensures
        decimal_of(decimal_digits(n)) == Some(n),
        all_digits(decimal_digits(n)),
        decimal_digits(n).len() > 0,
    decreases n,
{
    let d = decimal_digits(n);
    if n >= 10 {
        lemma_decimal_round_trip(n / 10);
        let p = decimal_digits(n / 10);
        assert(p[0] != 43u8);
        assert(digits_value(p) == n / 10);
        assert(d.drop_last() =~= p);
        assert(digits_value(d) == (n / 10) * 10 + n % 10);
        assert(digits_value(d) == n);
        assert forall|i: int| 0 <= i < d.len() implies 48u8 <= #[trigger] d[i] <= 57u8 by {
            if i < d.len() - 1 {
                assert(d[i] == decimal_digits(n / 10)[i]);
            }
        }
    } else {
        assert(d.drop_last() =~= Seq::<u8>::empty());
        assert(d.last() as int == 48 + n);
        assert(digits_value(d) == digits_value(d.drop_last()) * 10 + (d.last() - 48u8) as nat);
        assert(digits_value(d) == n);
    }
    assert(d[0] != 43u8);
}

/// Appends `b` to `out`.
pub fn push_bytes(out: &mut Vec<u8>, b: &[u8])
    ensures
        final(out)@ == old(out)@ + b@,
{
    let ghost start = out@;
    let mut i: usize = 0;
    while i < b.len()
        invariant
            i <= b@.len(),
            out@ =~= start + b@.subrange(0, i as int),
        decreases b.len() - i,
    {
        out.push(b[i]);
        i = i + 1;
    }
    assert(b@.subrange(0, b@.len() as int) =~= b@);
}

/// Appends the decimal digits of `n` to `out`.
pub fn push_decimal(out: &mut Vec<u8>, n: u64)
    ensures
        final(out)@ == old(out)@ + decimal_digits(n as nat),
    decreases n,
{
    if n >= 10 {
        push_decimal(out, n / 10);
    }
    out.push((48 + n % 10) as u8);
    assert(n < 10 ==> decimal_digits(n as nat) =~= seq![(48 + n) as u8]);
}

/// The decimal digits of `n` as text.
pub open spec fn decimal_text(n: nat) -> Seq<char> {
    decimal_digits(n).map_values(|b: u8| b as char)
}

/// The text of one decimal digit.
fn digit_text(d: u64) -> (r: &'static str)
    requires
        d < 10,
    ensures
        r@ == seq![(48 + d) as u8 as char],
{
    proof {
        reveal_strlit("0");
        reveal_strlit("1");
        reveal_strlit("2");
        reveal_strlit("3");
        reveal_strlit("4");
        reveal_strlit("5");
        reveal_strlit("6");
        reveal_strlit("7");
        reveal_strlit("8");
        reveal_strlit("9");
    }
    match d {
        0 => "0",
        1 => "1",
        2 => "2",
        3 => "3",
        4 => "4",
        5 => "5",
        6 => "6",
        7 => "7",
        8 => "8",
        _ => "9",
    }
}

/// Appends the decimal digits of `n` to `out`, as text.
pub fn push_decimal_text(out: &mut String, n: u64)
    ensures
        final(out)@ == old(out)@ + decimal_text(n as nat),
    decreases n,
{
    let ghost start = out@;
    if n >= 10 {
        push_decimal_text(out, n / 10);
    }
    out.append(digit_text(n % 10));
    proof {
        let d = decimal_digits(n as nat);
        if n >= 10 {
            assert(d =~= decimal_digits((n / 10) as nat).push((48 + n % 10) as u8));
            assert(decimal_text(n as nat) =~= decimal_text((n / 10) as nat).push((48 + n % 10) as u8 as char));
        } else {
            assert(d =~= seq![(48 + n) as u8]);
            assert(decimal_text(n as nat) =~= seq![(48 + n) as u8 as char]);
        }
        assert(out@ =~= start + decimal_text(n as nat));
    }
}

} // verus!
