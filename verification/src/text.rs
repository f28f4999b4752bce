//! Text helpers: decimal parsing with the rules of `str::parse` for signed
//! integers, lower-case hexadecimal encoding, and ASCII byte strings.

use vstd::prelude::*;

verus! {

/// A decimal digit `0`..`9`.
pub open spec fn is_digit(c: char) -> bool {
    '0' <= c <= '9'
}

/// The value of a decimal digit.
pub open spec fn digit_value(c: char) -> int {
    c as int - '0' as int
}

/// Every character is a decimal digit.
pub open spec fn all_digits(s: Seq<char>) -> bool {
    forall|i: int| 0 <= i < s.len() ==> is_digit(#[trigger] s[i])
}

/// The value of a string of decimal digits, most significant first.
pub open spec fn digits_value(s: Seq<char>) -> int
    decreases s.len(),
{
    if s.len() == 0 {
        0
    } else {
        digits_value(s.drop_last()) * 10 + digit_value(s.last())
    }
}

/// The integer that a decimal text denotes, as `str::parse` reads a signed
/// integer: an optional `+` or `-`, then one or more ASCII digits and nothing
/// else (no blanks). `None` for any other text.
pub open spec fn decimal_value(s: Seq<char>) -> Option<int> {
    if s.len() > 0 && (s[0] == '+' || s[0] == '-') {
        let d = s.skip(1);
        if d.len() > 0 && all_digits(d) {
            Some(if s[0] == '-' { -digits_value(d) } else { digits_value(d) })
        } else {
            None
        }
    } else if s.len() > 0 && all_digits(s) {
        Some(digits_value(s))
    } else {
        None
    }
}

/// What `str::parse::<T>` returns for a signed integer type whose values are
/// `lo..=hi`: the denoted value when there is one and it fits.
pub open spec fn parsed_within(s: Seq<char>, lo: int, hi: int) -> Option<int> {
    match decimal_value(s) {
        Some(v) => if lo <= v <= hi { Some(v) } else { None },
        None => None,
    }
}

/// Appending a digit multiplies the value by ten and adds the digit.
proof fn lemma_digits_push(s: Seq<char>, k: int)
    requires
        0 <= k < s.len(),
    ensures
        digits_value(s.take(k + 1)) == digits_value(s.take(k)) * 10 + digit_value(s[k]),
{
    assert(s.take(k + 1).drop_last() =~= s.take(k));
}

/// The value of a digit string never shrinks when digits are appended.
proof fn lemma_digits_monotone(s: Seq<char>, j: int, k: int)
    requires
        0 <= j <= k <= s.len(),
        all_digits(s),
    ensures
        0 <= digits_value(s.take(j)) <= digits_value(s.take(k)),
    decreases k - j,
{
    if j == k {
        lemma_digits_nonneg(s.take(j));
    } else {
        lemma_digits_monotone(s, j, k - 1);
        lemma_digits_push(s, k - 1);
        assert(is_digit(s[k - 1]));
    }
}

proof fn lemma_digits_nonneg(s: Seq<char>)
    requires
        all_digits(s),
    ensures
        digits_value(s) >= 0,
    decreases s.len(),
{
    if s.len() > 0 {
        assert(all_digits(s.drop_last()));
        lemma_digits_nonneg(s.drop_last());
        assert(is_digit(s[s.len() - 1]));
    }
}

/// Parses a decimal `i64` as `str::parse::<i64>` does.
pub fn parse_i64(s: &str) -> (res: Option<i64>)
    ensures
        res == (match parsed_within(s@, i64::MIN as int, i64::MAX as int) {
            Some(v) => Some(v as i64),
            None => None,
        }),
{
    if !s.is_ascii() {
        proof {
            let k = choose|k: int| 0 <= k < s@.len() && !('\0' <= #[trigger] s@[k] <= '\u{7f}');
            if s@.len() > 0 && (s@[0] == '+' || s@[0] == '-') {
                assert(s@.skip(1)[k - 1] == s@[k]);
            }
        }
        return None;
    }
    let n = s.unicode_len();
    if n == 0 {
        return None;
    }
    let first = s.get_ascii(0);
    let negative = first == 45u8;
    let start: usize = if first == 43u8 || first == 45u8 { 1 } else { 0 };
    if start == n {
        return None;
    }
    let ghost d = s@.skip(start as int);
    let mut acc: i64 = 0;
    let mut i: usize = start;
    while i < n
        invariant
            s.is_ascii(),
            n == s@.len(),
            start <= i <= n,
            start < n,
            d == s@.skip(start as int),
            all_digits(d.take(i - start)),
            acc == (if negative { -digits_value(d.take(i - start)) } else { digits_value(d.take(i - start)) }),
            negative == (s@[0] == '-'),
            start == (if s@[0] == '+' || s@[0] == '-' { 1usize } else { 0usize }),
        decreases n - i,
    {
        let b = s.get_ascii(i);
        proof {
            assert(d[i - start] == s@[i as int]);
        }
        if b < 48u8 || b > 57u8 {
            proof {
                assert(!is_digit(d[i - start]));
                if start == 0 {
                    assert(d =~= s@);
                }
            }
            return None;
        }
        let digit: i64 = (b - 48u8) as i64;
        proof {
            lemma_digits_push(d, (i - start) as int);
            assert(digit_value(d[i - start]) == digit);
            assert forall|t: int| 0 <= t < (i + 1 - start) implies is_digit(#[trigger] d.take(i + 1 - start)[t]) by {
                if t < i - start {
                    assert(d.take(i + 1 - start)[t] == d.take(i - start)[t]);
                }
            }
        }
        let next = if negative {
            match acc.checked_mul(10) {
                Some(m) => m.checked_sub(digit),
                None => None,
            }
        } else {
            match acc.checked_mul(10) {
                Some(m) => m.checked_add(digit),
                None => None,
            }
        };
        match next {
            Some(v) => {
                acc = v;
            },
            None => {
                proof {
                    // The digits read so far already leave the range; more digits only grow the value.
                    if all_digits(d) {
                        lemma_digits_monotone(d, (i + 1 - start) as int, d.len() as int);
                        assert(d.take(d.len() as int) =~= d);
                    }
                    if start == 0 {
                        assert(d =~= s@);
                    }
                }
                return None;
            },
        }
        i = i + 1;
    }
    proof {
        assert(d.take(n - start) =~= d);
        if start == 0 {
            assert(d =~= s@);
        }
    }
    Some(acc)
}

/// Parses a decimal `i32` as `str::parse::<i32>` does.
pub fn parse_i32(s: &str) -> (res: Option<i32>)
    ensures
        res == (match parsed_within(s@, i32::MIN as int, i32::MAX as int) {
            Some(v) => Some(v as i32),
            None => None,
        }),
{
    match parse_i64(s) {
        Some(v) => {
            if v < -2147483648i64 || v > 2147483647i64 {
                None
            } else {
                Some(v as i32)
            }
        },
        None => None,
    }
}

/// The characters that stand for the bytes of an ASCII byte string.
pub open spec fn ascii_chars(bytes: Seq<u8>) -> Seq<char> {
    bytes.map_values(|b: u8| b as char)
}

/// Every byte is below 0x80.
pub open spec fn ascii_bytes(bytes: Seq<u8>) -> bool {
    forall|i: int| 0 <= i < bytes.len() ==> #[trigger] bytes[i] < 128
}

/// `String::from_utf8`: the bytes as a `String` when they are valid UTF-8.
/// Claimed: ASCII bytes are valid UTF-8 and each byte becomes the character
/// with that code; nothing is claimed of other byte strings.
#[verifier::external_body]
fn string_from_utf8(bytes: Vec<u8>) -> (res: Option<String>)
    ensures
        ascii_bytes(bytes@) ==> res is Some && res->Some_0@ == ascii_chars(bytes@),
{
    String::from_utf8(bytes).ok()
}

/// Turns ASCII bytes into the `String` of the same characters.
pub fn ascii_string(bytes: Vec<u8>) -> (res: String)
    requires
        ascii_bytes(bytes@),
    ensures
        res@ == ascii_chars(bytes@),
{
    match string_from_utf8(bytes) {
        Some(s) => s,
        None => {
            proof {
                assert(false);
            }
            String::new()
        },
    }
}

/// The lower-case hexadecimal digit for a value below 16.
pub open spec fn hex_digit(v: int) -> char {
    if v < 10 { (v + 48) as char } else { (v + 87) as char }
}

/// Two lower-case hexadecimal digits per byte, high nibble first: what
/// formatting with `{:02x}` writes for each byte in turn.
pub open spec fn hex_lower(bytes: Seq<u8>) -> Seq<char>
    decreases bytes.len(),
{
    if bytes.len() == 0 {
        Seq::empty()
    } else {
        hex_lower(bytes.drop_last()) + seq![
            hex_digit(bytes.last() as int / 16),
            hex_digit(bytes.last() as int % 16),
        ]
    }
}

fn hex_digit_byte(v: u8) -> (b: u8)
    requires
        v < 16,
    ensures
        b < 128,
        b as char == hex_digit(v as int),
{
    if v < 10 {
        v + 48
    } else {
        v + 87
    }
}

/// Encodes bytes as lower-case hexadecimal text.
pub fn hex_lower_string(bytes: &[u8]) -> (res: String)
    requires
        bytes@.len() * 2 <= usize::MAX,
    ensures
        res@ == hex_lower(bytes@),
        res@.len() == 2 * bytes@.len(),
{
    let mut out: Vec<u8> = Vec::new();
    let n = bytes.len();
    let mut i: usize = 0;
    while i < n
        invariant
            n == bytes@.len(),
            i <= n,
            ascii_bytes(out@),
            ascii_chars(out@) == hex_lower(bytes@.take(i as int)),
            out@.len() == 2 * i,
        decreases n - i,
    {
        let b = bytes[i];
        let hi = hex_digit_byte(b / 16);
        let lo = hex_digit_byte(b % 16);
        let ghost before = out@;
        out.push(hi);
        out.push(lo);
        proof {
            assert(bytes@.take(i + 1).drop_last() =~= bytes@.take(i as int));
            assert(ascii_chars(out@) =~= ascii_chars(before) + seq![hi as char, lo as char]);
        }
        i = i + 1;
    }
    proof {
        assert(bytes@.take(n as int) =~= bytes@);
    }
    ascii_string(out)
}

/// What a decimal text can be: a text that has a value is not empty, every
/// character is an ASCII digit except a leading `+` or `-`, and a sign is
/// followed by at least one digit.
pub proof fn lemma_decimal_shape(s: Seq<char>)
    requires
        decimal_value(s) is Some,
    ensures
        s.len() > 0,
        forall|i: int|
            0 <= i < s.len() ==> ('0' <= #[trigger] s[i] <= '9') || (i == 0 && (s[i] == '+' || s[i]
                == '-')),
        (s[0] == '+' || s[0] == '-') ==> s.len() > 1,
{
    if s[0] == '+' || s[0] == '-' {
        assert forall|i: int| 0 <= i < s.len() implies ('0' <= #[trigger] s[i] <= '9') || (i == 0
            && (s[i] == '+' || s[i] == '-')) by {
            if i > 0 {
                assert(s.skip(1)[i - 1] == s[i]);
            }
        }
    }
}

/// One digit alone has its own value.
pub proof fn lemma_decimal_one_digit(c: char)
    requires
        '0' <= c <= '9',
    ensures
        decimal_value(seq![c]) == Some(c as int - 48),
{
    let s = seq![c];
    assert(s.drop_last() =~= Seq::<char>::empty());
    assert(s[0] == c);
    assert(all_digits(s));
    assert(digits_value(s) == digits_value(s.drop_last()) * 10 + digit_value(s.last()));
}

/// Appending a digit to an unsigned decimal text multiplies its value by ten
/// and adds the digit.
pub proof fn lemma_decimal_append_digit(d: Seq<char>, c: char)
    requires
        d.len() > 0,
        forall|i: int| 0 <= i < d.len() ==> '0' <= #[trigger] d[i] <= '9',
        '0' <= c <= '9',
    ensures
        decimal_value(d) is Some,
        decimal_value(d.push(c)) == Some(decimal_value(d)->Some_0 * 10 + (c as int - 48)),
{
    assert(all_digits(d));
    assert(all_digits(d.push(c))) by {
        assert forall|i: int| 0 <= i < d.push(c).len() implies is_digit(#[trigger] d.push(c)[i]) by {
            if i < d.len() {
                assert(d.push(c)[i] == d[i]);
            }
        }
    }
    assert(d.push(c).drop_last() =~= d);
}

/// A sign in front of an unsigned decimal text: `-` negates its value, `+`
/// keeps it.
pub proof fn lemma_decimal_sign(d: Seq<char>)
    requires
        d.len() > 0,
        forall|i: int| 0 <= i < d.len() ==> '0' <= #[trigger] d[i] <= '9',
    ensures
        decimal_value(d) is Some,
        decimal_value(seq!['-'] + d) == Some(-decimal_value(d)->Some_0),
        decimal_value(seq!['+'] + d) == Some(decimal_value(d)->Some_0),
{
    assert(all_digits(d));
    assert((seq!['-'] + d).skip(1) =~= d);
    assert((seq!['+'] + d).skip(1) =~= d);
}

/// A parse for a type of values `lo..=hi` gives the text's value exactly
/// when it has one within the range, and nothing otherwise.
pub proof fn lemma_parse_range(s: Seq<char>, lo: int, hi: int)
    ensures
        parsed_within(s, lo, hi) is Some <==> (decimal_value(s) is Some && lo
            <= decimal_value(s)->Some_0 <= hi),
        parsed_within(s, lo, hi) is Some ==> parsed_within(s, lo, hi) == decimal_value(s),
{
}

/// The numeric value of a lower-case hexadecimal digit.
pub open spec fn hex_digit_value(c: char) -> int {
    if '0' <= c <= '9' {
        c as int - 48
    } else {
        c as int - 87
    }
}

proof fn lemma_hex_digit(v: int)
    requires
        0 <= v < 16,
    ensures
        '0' <= hex_digit(v) <= '9' || 'a' <= hex_digit(v) <= 'f',
        hex_digit_value(hex_digit(v)) == v,
{
}

/// The two characters at `2 * i` and `2 * i + 1` are lower-case
/// hexadecimal digits that give the byte `b`: sixteen times the first plus
/// the second.
pub open spec fn hex_pair_gives(h: Seq<char>, i: int, b: u8) -> bool {
    &&& ('0' <= h[2 * i] <= '9' || 'a' <= h[2 * i] <= 'f')
    &&& ('0' <= h[2 * i + 1] <= '9' || 'a' <= h[2 * i + 1] <= 'f')
    &&& hex_digit_value(h[2 * i]) * 16 + hex_digit_value(h[2 * i + 1]) == b
}

/// Hexadecimal text has two characters per byte; both are lower-case
/// hexadecimal digits, and the first is worth sixteen times its value plus
/// the second: together they give the byte back.
pub proof fn lemma_hex_encodes_each_byte(bytes: Seq<u8>)
    ensures
        hex_lower(bytes).len() == 2 * bytes.len(),
        forall|i: int| 0 <= i < bytes.len() ==> hex_pair_gives(hex_lower(bytes), i, #[trigger] bytes[i]),
    decreases bytes.len(),
{
    if bytes.len() > 0 {
        let init = bytes.drop_last();
        lemma_hex_encodes_each_byte(init);
        let h = hex_lower(bytes);
        let b = bytes.last();
        assert(h == hex_lower(init) + seq![hex_digit(b as int / 16), hex_digit(b as int % 16)]);
        lemma_hex_digit(b as int / 16);
        lemma_hex_digit(b as int % 16);
        assert forall|i: int| 0 <= i < bytes.len() implies hex_pair_gives(h, i, #[trigger] bytes[i]) by {
            if i < init.len() {
                assert(init[i] == bytes[i]);
                assert(hex_pair_gives(hex_lower(init), i, init[i]));
                assert(h[2 * i] == hex_lower(init)[2 * i]);
                assert(h[2 * i + 1] == hex_lower(init)[2 * i + 1]);
            } else {
                assert(h[2 * i] == hex_digit(b as int / 16));
                assert(h[2 * i + 1] == hex_digit(b as int % 16));
                assert(bytes[i] == b);
            }
        }
    }
}

} // verus!
