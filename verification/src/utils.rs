//! Small helpers: random integers, random names and the clock.
//!
//! Every random value starts as one uniformly drawn `u64`. A draw `d` stands
//! for the fraction `d / 2^64` of the half-open unit interval, and a random
//! integer is that fraction of a span, rounded toward zero. The functions that
//! draw say what holds of every draw; their `*_from` counterparts take the
//! draw as an argument and say exactly what comes out.

use vstd::prelude::*;
use vstd::utf8::encode_utf8;

verus! {

/// Two to the sixty-fourth: the number of values a draw can take.
pub open spec fn draw_count() -> int {
    0x1_0000_0000_0000_0000
}

/// The fraction `draw / 2^64` of `span`, rounded down.
pub open spec fn scaled(draw: u64, span: int) -> int {
    (draw as int * span) / draw_count()
}

/// The integer part of `(draw / 2^64) * (end + 1)`, rounded toward zero.
///
/// For `end >= 0` this ranges over `0 ..= end`; for `end < -1` over
/// `end + 2 ..= 0`; for `end == -1` it is `0`.
pub open spec fn spread(draw: u64, end: int) -> int {
    if end + 1 >= 0 {
        scaled(draw, end + 1)
    } else {
        -scaled(draw, -(end + 1))
    }
}

/// A scaled draw lies below its span, and is zero only when it has to be.
pub proof fn lemma_scaled_bounds(draw: u64, span: int)
    requires
        0 <= span,
    ensures
        0 <= scaled(draw, span),
        span > 0 ==> scaled(draw, span) < span,
        span == 0 ==> scaled(draw, span) == 0,
{
    let p: int = draw as int * span;
    let n: int = draw_count();
    assert(0 <= p) by (nonlinear_arith)
        requires
            p == draw as int * span,
            0 <= draw as int,
            0 <= span,
    ;
    assert(p <= (n - 1) * span) by (nonlinear_arith)
        requires
            p == draw as int * span,
            0 <= draw as int <= n - 1,
            0 <= span,
    ;
    vstd::arithmetic::div_mod::lemma_fundamental_div_mod(p, n);
    vstd::arithmetic::div_mod::lemma_mod_bound(p, n);
    let q: int = p / n;
    assert(0 <= q && (span > 0 ==> q < span) && (span == 0 ==> q == 0)) by (nonlinear_arith)
        requires
            p == n * q + p % n,
            0 <= p % n < n,
            0 <= p <= (n - 1) * span,
            0 <= span,
            n > 0,
    ;
}

/// The smallest draw whose fraction of `span` reaches `value`.
pub open spec fn draw_for(value: int, span: int) -> int {
    (value * draw_count() + span - 1) / span
}

/// Every value below a span of at most `2^64` is selected by some draw.
pub proof fn lemma_draw_for(value: int, span: int)
    requires
        0 <= value < span <= draw_count(),
    ensures
        0 <= draw_for(value, span) < draw_count(),
        scaled(draw_for(value, span) as u64, span) == value,
{
    let n: int = draw_count();
    let x: int = value * n + span - 1;
    let d: int = x / span;
    assert(0 <= value * n <= (span - 1) * n) by (nonlinear_arith)
        requires
            0 <= value <= span - 1,
            0 < n,
    ;
    vstd::arithmetic::div_mod::lemma_fundamental_div_mod(x, span);
    vstd::arithmetic::div_mod::lemma_mod_bound(x, span);
    let p: int = span * d;
    assert(value * n <= p <= value * n + span - 1);
    assert(0 <= d < n) by (nonlinear_arith)
        requires
            p == span * d,
            0 <= p <= (span - 1) * n + span - 1,
            0 < span <= n,
    ;
    let rest: int = p - value * n;
    assert(d * span == n * value + rest) by (nonlinear_arith)
        requires
            p == span * d,
            rest == p - value * n,
    ;
    vstd::arithmetic::div_mod::lemma_div_multiples_vanish_fancy(value, rest, n);
}

/// One uniformly distributed `u64` from the thread-local generator.
///
/// Calls `rand::random::<u64>()`. Nothing is claimed of the value: it depends
/// on chance alone.
#[verifier::external_body]
fn random_u64() -> (draw: u64) {
    rand::random::<u64>()
}

/// The random integer that `draw` selects for `async_rng_int_big(end)`.
pub fn rng_int_big_from(draw: u64, end: i64) -> (r: i64)
    requires
        end < i64::MAX,
    ensures
        r == spread(draw, end as int),
        end >= 0 ==> 0 <= r <= end,
        end < 0 ==> r <= 0 && (r == 0 || end + 2 <= r),
{
    let width: i64 = end + 1;
    if width >= 0 {
        proof {
            lemma_scaled_bounds(draw, width as int);
        }
        let product: u128 = (draw as u128) * (width as u128);
        let part: u128 = product / 0x1_0000_0000_0000_0000u128;
        part as i64
    } else {
        // width > i64::MIN here, since end >= i64::MIN
        let span: u64 = (-(width as i128)) as u64;
        proof {
            lemma_scaled_bounds(draw, span as int);
        }
        let product: u128 = (draw as u128) * (span as u128);
        let part: u128 = product / 0x1_0000_0000_0000_0000u128;
        -(part as i64)
    }
}

/// The random integer that `draw` selects for `async_rng_int(end)`.
pub fn rng_int_from(draw: u64, end: i32) -> (r: i32)
    requires
        end < i32::MAX,
    ensures
        r == spread(draw, end as int),
        end >= 0 ==> 0 <= r <= end,
        end < 0 ==> r <= 0 && (r == 0 || end + 2 <= r),
{
    let r: i64 = rng_int_big_from(draw, end as i64);
    r as i32
}

/// A random integer between zero and `end`, both included, for `end >= 0`.
///
/// For a negative `end` the result lies between `end + 2` and zero; it is
/// zero for `end == -1`.
pub fn async_rng_int_big(end: i64) -> (r: i64)
    requires
        end < i64::MAX,
    ensures
        exists|draw: u64| r == #[trigger] spread(draw, end as int),
        end >= 0 ==> 0 <= r <= end,
        end < 0 ==> r <= 0 && (r == 0 || end + 2 <= r),
{
    let draw: u64 = random_u64();
    rng_int_big_from(draw, end)
}

/// A random integer between zero and `end`, both included, for `end >= 0`.
///
/// For a negative `end` the result lies between `end + 2` and zero; it is
/// zero for `end == -1`.
pub fn async_rng_int(end: i32) -> (r: i32)
    requires
        end < i32::MAX,
    ensures
        exists|draw: u64| r == #[trigger] spread(draw, end as int),
        end >= 0 ==> 0 <= r <= end,
        end < 0 ==> r <= 0 && (r == 0 || end + 2 <= r),
{
    let draw: u64 = random_u64();
    rng_int_from(draw, end)
}

/// A random integer between `start` and `end`, both included, for
/// `start <= end`.
pub fn async_rng_range_int_big(start: i64, end: i64) -> (r: i64)
    requires
        i64::MIN <= end - start < i64::MAX,
    ensures
        exists|draw: u64| r == start + #[trigger] spread(draw, end - start),
        start <= end ==> start <= r <= end,
        end < start ==> r <= start && (r == start || end + 2 <= r),
{
    start + async_rng_int_big(end - start)
}

/// A random integer between `start` and `end`, both included, for
/// `start <= end`.
pub fn async_rng_range_int(start: i32, end: i32) -> (r: i32)
    requires
        i32::MIN <= end - start < i32::MAX,
    ensures
        exists|draw: u64| r == start + #[trigger] spread(draw, end - start),
        start <= end ==> start <= r <= end,
        end < start ==> r <= start && (r == start || end + 2 <= r),
{
    start + async_rng_int(end - start)
}

/// A random position in `inv`; zero when `inv` is empty.
pub fn async_rng_index<T>(inv: &Vec<T>) -> (i: usize)
    requires
        inv.len() <= i32::MAX,
    ensures
        exists|draw: u64| i == #[trigger] spread(draw, inv.len() - 1),
        inv.len() > 0 ==> i < inv.len(),
        inv.len() == 0 ==> i == 0,
{
    let last: i32 = inv.len() as i32 - 1;
    let pick: i32 = async_rng_int(last);
    pick as usize
}

/// A random element of `inv`.
pub fn async_rng_item<T>(inv: &Vec<T>) -> (item: &T)
    requires
        0 < inv.len() <= i32::MAX,
    ensures
        exists|i: int| 0 <= i < inv.len() && *item == inv[i],
{
    let i: usize = async_rng_index(inv);
    &inv[i]
}

/// The position that `draw` selects in `inv`; zero when `inv` is empty.
pub fn rng_index_from<T>(draw: u64, inv: &Vec<T>) -> (i: usize)
    requires
        inv.len() <= i32::MAX,
    ensures
        i == spread(draw, inv.len() - 1),
        inv.len() > 0 ==> i < inv.len(),
{
    let last: i32 = inv.len() as i32 - 1;
    let pick: i32 = rng_int_from(draw, last);
    pick as usize
}

/// The lower-case letters that open a syllable of a generated name.
pub open spec fn is_vowel(c: char) -> bool {
    c == 'a' || c == 'e'
}

/// The lower-case letters that close a syllable of a generated name.
pub open spec fn is_consonant(c: char) -> bool {
    c == 'b' || c == 'c' || c == 'd' || c == 'f'
}

/// `s` is `length` syllables, each a vowel followed by a consonant.
pub open spec fn is_name(s: Seq<char>, length: nat) -> bool {
    &&& s.len() == 2 * length
    &&& forall|k: int|
        0 <= k < s.len() ==> if k % 2 == 0 {
            is_vowel(#[trigger] s[k])
        } else {
            is_consonant(s[k])
        }
}

/// `String::push` appends one character.
pub assume_specification[ String::push ](s: &mut String, ch: char)
    ensures
        final(s)@ == old(s)@.push(ch),
;

/// A random pronounceable name of `length` syllables.
pub fn generate_name(length: usize) -> (name: String)
    ensures
        is_name(name@, length as nat),
{
    let vowels: Vec<char> = vec!['a', 'e'];
    let consonants: Vec<char> = vec!['b', 'c', 'd', 'f'];
    let mut result: String = String::new();
    let mut done: usize = 0;
    while done < length
        invariant
            done <= length,
            is_name(result@, done as nat),
            vowels@ == seq!['a', 'e'],
            consonants@ == seq!['b', 'c', 'd', 'f'],
        decreases length - done,
    {
        let opening: char = *async_rng_item(&vowels);
        let closing: char = *async_rng_item(&consonants);
        result.push(opening);
        result.push(closing);
        done = done + 1;
    }
    result
}

/// The system clock's reading.
#[verifier::external_type_specification]
#[verifier::external_body]
pub struct ExSystemTime(std::time::SystemTime);

/// What `duration_since` reports when the earlier instant is the later one.
#[verifier::external_type_specification]
#[verifier::external_body]
pub struct ExSystemTimeError(std::time::SystemTimeError);

/// `SystemTime::now` reads the clock; nothing is claimed of the reading.
pub assume_specification[ std::time::SystemTime::now ]() -> (now: std::time::SystemTime)
;

/// `SystemTime::duration_since` measures from `earlier` to `t`, or fails when
/// `earlier` is the later of the two; nothing is claimed of which.
pub assume_specification[ std::time::SystemTime::duration_since ](
    t: &std::time::SystemTime,
    earlier: std::time::SystemTime,
) -> (elapsed: Result<std::time::Duration, std::time::SystemTimeError>)
;

/// `Duration::as_secs` gives the whole seconds of a duration.
pub assume_specification[ std::time::Duration::as_secs ](d: &std::time::Duration) -> (secs: u64)
;

/// The start of 1970 in UTC, `std::time::UNIX_EPOCH`.
#[verifier::external_body]
fn unix_epoch() -> (epoch: std::time::SystemTime) {
    std::time::UNIX_EPOCH
}

/// The timestamp for a clock that reads `secs` whole seconds since the start
/// of 1970: the same number, or `None` where it is too large for an `i64`.
pub fn timestamp_from(secs: u64) -> (t: Option<i64>)
    ensures
        secs <= i64::MAX ==> t == Some(secs as i64),
        secs > i64::MAX ==> t is None,
{
    if secs <= i64::MAX as u64 {
        Some(secs as i64)
    } else {
        None
    }
}

/// Whole seconds since the start of 1970, or `None` when the clock reads an
/// earlier instant or one too late for an `i64`.
///
/// What the clock reads decides; [`timestamp_from`] says what is made of each
/// reading.
pub fn get_time() -> (t: Option<i64>)
    ensures
        t matches Some(secs) ==> secs >= 0,
{
    let now: std::time::SystemTime = std::time::SystemTime::now();
    match now.duration_since(unix_epoch()) {
        Ok(elapsed) => timestamp_from(elapsed.as_secs()),
        Err(_) => None,
    }
}

/// One integer column of a row.
#[derive(Debug, Clone, PartialEq, Eq)]
pub struct ValueInt(pub i64);

/// One text column of a row.
#[derive(Debug, Clone, PartialEq, Eq)]
pub struct ValueString(pub String);

/// The bytes that stand for themselves in a percent-encoded text: the ASCII
/// letters and digits, and `-`, `.`, `_` and `~`.
pub open spec fn is_unreserved(byte: u8) -> bool {
    ||| 0x30 <= byte <= 0x39
    ||| 0x41 <= byte <= 0x5a
    ||| 0x61 <= byte <= 0x7a
    ||| byte == 0x2d
    ||| byte == 0x2e
    ||| byte == 0x5f
    ||| byte == 0x7e
}

/// The upper-case hexadecimal digit for a number below sixteen.
pub open spec fn hex_digit(nibble: u8) -> u8 {
    if nibble < 10 {
        (0x30 + nibble) as u8
    } else {
        (0x41 + nibble - 10) as u8
    }
}

/// The percent-encoding of `bytes`: an unreserved byte stands for itself, any
/// other becomes `%` and its two hexadecimal digits.
pub open spec fn percent_encoded(bytes: Seq<u8>) -> Seq<u8>
    decreases bytes.len(),
{
    if bytes.len() == 0 {
        Seq::empty()
    } else if is_unreserved(bytes[0]) {
        seq![bytes[0]] + percent_encoded(bytes.drop_first())
    } else {
        seq![0x25u8, hex_digit(bytes[0] / 16), hex_digit(bytes[0] % 16)] + percent_encoded(
            bytes.drop_first(),
        )
    }
}

/// The percent-encoding of the UTF-8 form of `text`, as text.
pub open spec fn percent_text(text: Seq<char>) -> Seq<char> {
    percent_encoded(encode_utf8(text)).map_values(|byte: u8| byte as char)
}

/// The text that `urlencoding::decode` makes of `text`, or `None` where it
/// reports that the decoded bytes are not UTF-8.
pub uninterp spec fn percent_decoded(text: Seq<char>) -> Option<Seq<char>>;

/// What `String::from_utf8` reports of bytes that are not UTF-8.
#[verifier::external_type_specification]
#[verifier::external_body]
pub struct ExFromUtf8Error(std::string::FromUtf8Error);

/// Calls `urlencoding::encode`.
///
/// Claimed of it: it percent-encodes every byte of the text's UTF-8 form but
/// the ASCII letters and digits and `-`, `.`, `_`, `~`, with upper-case
/// hexadecimal digits.
#[verifier::external_body]
fn url_encode(text: &str) -> (encoded: String)
    ensures
        encoded@ == percent_text(text@),
{
    urlencoding::encode(text).into_owned()
}

/// Calls `urlencoding::decode`.
///
/// Claimed of it: whether it succeeds, and what it returns, depends on the
/// text alone.
#[verifier::external_body]
fn url_decode(text: &str) -> (decoded: Result<String, std::string::FromUtf8Error>)
    ensures
        match decoded {
            Ok(plain) => percent_decoded(text@) == Some(plain@),
            Err(_) => percent_decoded(text@) is None,
        },
{
    match urlencoding::decode(text) {
        Ok(plain) => Ok(plain.into_owned()),
        Err(e) => Err(e),
    }
}

/// The reply that reports `data`: an object that names the outcome and holds
/// the percent-encoded text of what came out, be it a result or an error.
pub fn parse_response(data: Result<String, String>) -> (reply: String)
    ensures
        match data {
            Ok(d) => reply@ == "{\"type\":\"success\",\"data\":\""@ + percent_text(d@) + "\"}"@,
            Err(e) => reply@ == "{\"type\":\"fail\",\"error\":\""@ + percent_text(e@) + "\"}"@,
        },
{
    match data {
        Ok(d) => {
            let mut reply: String = String::from_str("{\"type\":\"success\",\"data\":\"");
            reply.append(url_encode(d.as_str()).as_str());
            reply.append("\"}");
            reply
        },
        Err(e) => {
            let mut reply: String = String::from_str("{\"type\":\"fail\",\"error\":\"");
            reply.append(url_encode(e.as_str()).as_str());
            reply.append("\"}");
            reply
        },
    }
}

/// The text that `s` is the percent-encoding of, or `None` where the decoded
/// bytes are not UTF-8.
pub fn decode_uri(s: String) -> (plain: Option<String>)
    ensures
        match plain {
            Some(p) => percent_decoded(s@) == Some(p@),
            None => percent_decoded(s@) is None,
        },
{
    match url_decode(s.as_str()) {
        Ok(p) => Some(p),
        Err(_) => None,
    }
}

} // verus!
