//! Text helpers: decimal numbers in the notation of Rust's `to_string` and
//! `str::parse`, and the `_ACCOUNT` ending of the titles of account sheets.
use vstd::prelude::*;
use vstd::utf8::*;
use vstd::string::*;

verus! {

/// `String::push` appends one character at the end of the string.
#[verifier::external_body]
pub(crate) fn push_char(s: &mut String, c: char)
    ensures
        final(s)@ == old(s)@.push(c),
{
    s.push(c)
}

/// The character of a decimal digit.
pub open spec fn digit_char(d: int) -> char {
    if d == 0 { '0' }
    else if d == 1 { '1' }
    else if d == 2 { '2' }
    else if d == 3 { '3' }
    else if d == 4 { '4' }
    else if d == 5 { '5' }
    else if d == 6 { '6' }
    else if d == 7 { '7' }
    else if d == 8 { '8' }
    else { '9' }
}

/// Whether a character is an ASCII decimal digit.
pub open spec fn is_digit(c: char) -> bool {
    '0' <= c && c <= '9'
}

/// The value of a decimal digit character.
pub open spec fn digit_value(c: char) -> int {
    (c as int) - ('0' as int)
}

/// The shortest decimal notation of a natural number.
pub open spec fn nat_digits(n: nat) -> Seq<char>
    decreases n,
{
    if n < 10 {
        seq![digit_char(n as int)]
    } else {
        nat_digits(n / 10).push(digit_char((n % 10) as int))
    }
}

/// The decimal notation of an integer, with a leading `-` when it is negative.
pub open spec fn int_text(i: int) -> Seq<char> {
    if i < 0 {
        seq!['-'] + nat_digits((-i) as nat)
    } else {
        nat_digits(i as nat)
    }
}

fn digit_to_char(d: u32) -> (c: char)
    requires
        d < 10,
    ensures
        c == digit_char(d as int),
{
    if d == 0 { '0' }
    else if d == 1 { '1' }
    else if d == 2 { '2' }
    else if d == 3 { '3' }
    else if d == 4 { '4' }
    else if d == 5 { '5' }
    else if d == 6 { '6' }
    else if d == 7 { '7' }
    else if d == 8 { '8' }
    else { '9' }
}

/// Appends the decimal notation of `n`.
pub fn push_decimal(s: &mut String, n: u32)
    ensures
        final(s)@ == old(s)@ + nat_digits(n as nat),
    decreases n,
{
    if n >= 10 {
        push_decimal(s, n / 10);
    }
    let c = digit_to_char(n % 10);
    push_char(s, c);
    proof {
        if n < 10 {
            assert(n % 10 == n);
        }
    }
}

/// Appends the decimal notation of `i`, as `i.to_string()` writes it.
pub fn push_i32(s: &mut String, i: i32)
    ensures
        final(s)@ == old(s)@ + int_text(i as int),
{
    if i < 0 {
        push_char(s, '-');
        let m: u32 = (-(i as i64)) as u32;
        push_decimal(s, m);
    } else {
        push_decimal(s, i as u32);
    }
}

/// The decimal notation of `i`, as `i.to_string()` writes it.
pub fn i32_to_text(i: i32) -> (r: String)
    ensures
        r@ == int_text(i as int),
{
    let mut s = String::new();
    push_i32(&mut s, i);
    s
}


/// The value of a sequence of decimal digits, most significant first.
pub open spec fn digits_value(s: Seq<char>) -> int
    decreases s.len(),
{
    if s.len() == 0 {
        0
    } else {
        digits_value(s.drop_last()) * 10 + digit_value(s.last())
    }
}

/// Whether every character is a decimal digit.
pub open spec fn all_digits(s: Seq<char>) -> bool {
    forall|k: int| 0 <= k < s.len() ==> is_digit(#[trigger] s[k])
}

/// The digits after an optional leading sign.
pub open spec fn unsigned_part(s: Seq<char>) -> Seq<char> {
    if s.len() > 0 && (s[0] == '-' || s[0] == '+') {
        s.drop_first()
    } else {
        s
    }
}

/// Whether the text starts with a minus sign.
pub open spec fn is_negative_text(s: Seq<char>) -> bool {
    s.len() > 0 && s[0] == '-'
}

/// What `text.parse::<i32>()` gives: an optional sign followed by at least one
/// decimal digit, whose value fits in an `i32`; `None` for every other text.
pub open spec fn parse_i32_text(s: Seq<char>) -> Option<i32> {
    let body = unsigned_part(s);
    let v = if is_negative_text(s) { -digits_value(body) } else { digits_value(body) };
    if body.len() == 0 || !all_digits(body) {
        None
    } else if i32::MIN <= v <= i32::MAX {
        Some(v as i32)
    } else {
        None
    }
}

proof fn lemma_digits_value_nonneg(s: Seq<char>)
    requires
        all_digits(s),
    ensures
        digits_value(s) >= 0,
    decreases s.len(),
{
    if s.len() > 0 {
        assert(is_digit(s[s.len() - 1]));
        lemma_digits_value_nonneg(s.drop_last());
    }
}

/// The value of a digit sequence is at least that of each of its prefixes.
proof fn lemma_digits_value_prefix(s: Seq<char>, k: int)
    requires
        all_digits(s),
        0 <= k <= s.len(),
    ensures
        digits_value(s.take(k)) <= digits_value(s),
    decreases s.len() - k,
{
    if k < s.len() {
        lemma_digits_value_prefix(s, k + 1);
        let t = s.take(k + 1);
        assert(t.drop_last() =~= s.take(k));
        assert(is_digit(s[k]));
        assert(all_digits(s.take(k))) by {
            assert forall|j: int| 0 <= j < s.take(k).len() implies is_digit(#[trigger] s.take(k)[j]) by {
                assert(s.take(k)[j] == s[j]);
            }
        }
        lemma_digits_value_nonneg(s.take(k));
    } else {
        assert(s.take(k) =~= s);
    }
}

/// Parses a decimal `i32` as `text.parse::<i32>()` does.
pub fn parse_i32(text: &str) -> (r: Option<i32>)
    ensures
        r == parse_i32_text(text@),
{
    let n = text.unicode_len();
    let ghost s = text@;
    let mut start: usize = 0;
    let mut negative = false;
    if n > 0 {
        let c0 = text.get_char(0);
        if c0 == '-' {
            start = 1;
            negative = true;
        } else if c0 == '+' {
            start = 1;
        }
    }
    let ghost body = unsigned_part(s);
    assert(body =~= s.subrange(start as int, n as int));
    if start >= n {
        return None;
    }
    // magnitude read so far, with the limit of an i32 magnitude
    let mut acc: i64 = 0;
    let mut i: usize = start;
    while i < n
        invariant
            n == s.len(),
            text@ == s,
            start <= i <= n,
            body =~= s.subrange(start as int, n as int),
            body == unsigned_part(s),
            negative == is_negative_text(s),
            0 <= acc <= 2147483648,
            all_digits(body.take(i - start)),
            acc == digits_value(body.take(i - start)),
        decreases n - i,
    {
        let c = text.get_char(i);
        assert(c == body[i - start]);
        if c < '0' || c > '9' {
            assert(!is_digit(body[i - start]));
            return None;
        }
        let d: u32 = (c as u32) - ('0' as u32);
        let ghost t = body.take(i - start + 1);
        assert(t.drop_last() =~= body.take(i - start));
        assert(t.last() == c);
        assert(all_digits(t)) by {
            assert forall|j: int| 0 <= j < t.len() implies is_digit(#[trigger] t[j]) by {
                if j < t.len() - 1 {
                    assert(t[j] == body.take(i - start)[j]);
                }
            }
        }
        acc = acc * 10 + (d as i64);
        i = i + 1;
        if acc > 2147483648 {
            proof {
                if all_digits(body) {
                    lemma_digits_value_prefix(body, i - start);
                }
            }
            return None;
        }
    }
    assert(body.take(n - start) =~= body);
    if negative {
        Some((-acc) as i32)
    } else if acc <= 2147483647 {
        Some(acc as i32)
    } else {
        None
    }
}


proof fn lemma_digit_char(d: int)
    requires
        0 <= d < 10,
    ensures
        is_digit(digit_char(d)),
        digit_value(digit_char(d)) == d,
{
}

/// The decimal notation of a natural number is a non-empty run of digits
/// whose value is that number.
pub proof fn lemma_nat_digits(n: nat)
    ensures
        nat_digits(n).len() > 0,
        all_digits(nat_digits(n)),
        digits_value(nat_digits(n)) == n,
    decreases n,
{
    if n < 10 {
        lemma_digit_char(n as int);
        let s = nat_digits(n);
        assert(s.drop_last() =~= Seq::<char>::empty());
        assert(s.last() == digit_char(n as int));
        assert(digits_value(s.drop_last()) == 0);
        assert(digits_value(s) == digits_value(s.drop_last()) * 10 + digit_value(s.last()));
    } else {
        lemma_nat_digits(n / 10);
        lemma_digit_char((n % 10) as int);
        let s = nat_digits(n);
        assert(s.drop_last() =~= nat_digits(n / 10));
        assert(s.last() == digit_char((n % 10) as int));
        assert((n / 10) * 10 + n % 10 == n) by (nonlinear_arith);
        assert(digits_value(s) == digits_value(s.drop_last()) * 10 + digit_value(s.last()));
        assert(all_digits(s)) by {
            assert forall|k: int| 0 <= k < s.len() implies is_digit(#[trigger] s[k]) by {
                if k < s.len() - 1 {
                    assert(s[k] == nat_digits(n / 10)[k]);
                }
            }
        }
    }
}

/// What `to_string` writes of an `i32`, `parse` reads back.
pub proof fn law_int_text_parses_back(x: i32)
    ensures
        parse_i32_text(int_text(x as int)) == Some(x),
{
    let t = int_text(x as int);
    if x < 0 {
        let m = (-x) as nat;
        lemma_nat_digits(m);
        assert(t[0] == '-');
        assert(unsigned_part(t) =~= nat_digits(m));
    } else {
        lemma_nat_digits(x as nat);
        let d = nat_digits(x as nat);
        assert(is_digit(d[0]));
        assert(unsigned_part(t) =~= d);
    }
}


/// The ending that marks the sheet of an account: `_ACCOUNT`.
pub open spec fn account_suffix() -> Seq<char> {
    seq!['_', 'A', 'C', 'C', 'O', 'U', 'N', 'T']
}

/// Whether a text ends with `_ACCOUNT`.
pub open spec fn has_account_suffix(s: Seq<char>) -> bool {
    s.len() >= 8 && s.subrange(s.len() - 8, s.len() as int) == account_suffix()
}

/// Whether `&s[..s.len() - 8]` is defined: at least eight bytes, and the cut
/// falls on a character boundary.
pub open spec fn can_drop_eight_bytes(s: Seq<char>) -> bool {
    encode_utf8(s).len() >= 8 && is_char_boundary(encode_utf8(s), encode_utf8(s).len() - 8)
}

/// The text `&s[..s.len() - 8]`: all but the last eight bytes.
pub open spec fn drop_eight_bytes(s: Seq<char>) -> Seq<char> {
    decode_utf8(encode_utf8(s).subrange(0, encode_utf8(s).len() - 8))
}

/// `name` followed by `_ACCOUNT`: the title of the sheet that holds an account.
pub fn with_account_suffix(name: &str) -> (r: String)
    ensures
        r@ == name@ + account_suffix(),
{
    let mut r = String::from_str(name);
    r.append("_ACCOUNT");
    proof {
        reveal_strlit("_ACCOUNT");
        assert("_ACCOUNT"@ =~= account_suffix());
    }
    r
}

/// Whether `s` ends with `_ACCOUNT`, as `s.ends_with("_ACCOUNT")` tells.
pub fn ends_with_account_suffix(s: &str) -> (b: bool)
    ensures
        b == has_account_suffix(s@),
{
    let n = s.unicode_len();
    if n < 8 {
        return false;
    }
    let pattern = "_ACCOUNT";
    proof {
        reveal_strlit("_ACCOUNT");
        assert(pattern@ =~= account_suffix());
    }
    let ghost tail = s@.subrange(n - 8, n as int);
    let mut k: usize = 0;
    while k < 8
        invariant
            n == s@.len(),
            n >= 8,
            pattern@ == account_suffix(),
            tail == s@.subrange(n - 8, n as int),
            k <= 8,
            forall|j: int| 0 <= j < k ==> tail[j] == account_suffix()[j],
        decreases 8 - k,
    {
        if s.get_char(n - 8 + k) != pattern.get_char(k) {
            assert(tail[k as int] != account_suffix()[k as int]);
            return false;
        }
        k = k + 1;
    }
    assert(tail =~= account_suffix());
    true
}

/// The text `&s[..s.len() - 8]`, all but the last eight bytes of `s`.
pub fn drop_last_eight_bytes(s: &str) -> (r: String)
    requires
        can_drop_eight_bytes(s@),
        encode_utf8(s@).len() <= usize::MAX,
    ensures
        r@ == drop_eight_bytes(s@),
{
    assert(s.spec_bytes() == encode_utf8(s@));
    let mid = s.len() - 8;
    let (head, _tail) = s.split_at(mid);
    proof {
        encode_utf8_decode_utf8(head@);
    }
    String::from_str(head)
}

/// The UTF-8 encoding of a concatenation is the concatenation of the encodings.
pub proof fn lemma_encode_utf8_concat(a: Seq<char>, b: Seq<char>)
    ensures
        encode_utf8(a + b) == encode_utf8(a) + encode_utf8(b),
    decreases a.len(),
{
    if a.len() == 0 {
        assert(a + b =~= b);
        assert(encode_utf8(a) =~= Seq::<u8>::empty());
        assert(encode_utf8(a) + encode_utf8(b) =~= encode_utf8(b));
    } else {
        lemma_encode_utf8_concat(a.drop_first(), b);
        assert((a + b).drop_first() =~= a.drop_first() + b);
        assert((a + b)[0] == a[0]);
        assert(encode_utf8(a + b) =~= encode_scalar(a[0] as u32) + encode_utf8(a.drop_first() + b));
        assert(encode_utf8(a) =~= encode_scalar(a[0] as u32) + encode_utf8(a.drop_first()));
    }
}

/// The end of the encoding of `a` is a character boundary of the encoding of `a + b`.
proof fn lemma_boundary_after_prefix(a: Seq<char>, b: Seq<char>)
    ensures
        is_char_boundary(encode_utf8(a + b), encode_utf8(a).len() as int),
    decreases a.len(),
{
    broadcast use encode_utf8_valid_utf8;
    lemma_encode_utf8_concat(a, b);
    if a.len() == 0 {
        assert(encode_utf8(a).len() == 0);
    } else {
        let ab = a + b;
        lemma_boundary_after_prefix(a.drop_first(), b);
        lemma_encode_utf8_concat(a.drop_first(), b);
        encode_utf8_first_scalar(ab);
        encode_utf8_first_scalar(a);
        assert((a + b).drop_first() =~= a.drop_first() + b);
        assert(ab[0] == a[0]);
        let bytes = encode_utf8(ab);
        assert(bytes =~= encode_scalar(a[0] as u32) + encode_utf8(a.drop_first() + b));
        assert(pop_first_scalar(bytes) =~= encode_utf8(a.drop_first() + b));
        assert(encode_utf8(a) =~= encode_scalar(a[0] as u32) + encode_utf8(a.drop_first()));
        assert(valid_utf8(bytes));
    }
}

/// Dropping the last eight bytes of `name_ACCOUNT` leaves `name`.
pub proof fn lemma_drop_account_suffix(name: Seq<char>)
    ensures
        can_drop_eight_bytes(name + account_suffix()),
        drop_eight_bytes(name + account_suffix()) == name,
{
    let t = name + account_suffix();
    lemma_encode_utf8_concat(name, account_suffix());
    assert(is_ascii_chars(account_suffix()));
    is_ascii_chars_encode_utf8(account_suffix());
    lemma_boundary_after_prefix(name, account_suffix());
    let e = encode_utf8(t);
    assert(e.subrange(0, e.len() - 8) =~= encode_utf8(name));
    encode_utf8_decode_utf8(name);
}

/// A text that ends with `_ACCOUNT` is some name followed by `_ACCOUNT`.
pub proof fn lemma_split_account_suffix(s: Seq<char>)
    requires
        has_account_suffix(s),
    ensures
        s == s.subrange(0, s.len() - 8) + account_suffix(),
{
    assert(s =~= s.subrange(0, s.len() - 8) + s.subrange(s.len() - 8, s.len() as int));
}

} // verus!
