//! Text: ordering, decimal numerals, searching and shortening.
//!
//! A string is modelled by the sequence of its characters.

use vstd::prelude::*;
use vstd::string::StringExecFns;

verus! {

/// Whether `a` comes strictly before `b` in the order of strings: the first place where they
/// differ decides, and a proper prefix comes before what it is a prefix of.
pub open spec fn lex_less(a: Seq<char>, b: Seq<char>) -> bool
    decreases a.len(),
{
    if b.len() == 0 {
        false
    } else if a.len() == 0 {
        true
    } else if a[0] != b[0] {
        a[0] < b[0]
    } else {
        lex_less(a.drop_first(), b.drop_first())
    }
}

/// No string comes before itself.
pub proof fn lex_irreflexive(a: Seq<char>)
    ensures
        !lex_less(a, a),
    decreases a.len(),
{
    if a.len() > 0 {
        lex_irreflexive(a.drop_first());
    }
}

/// The order of strings is transitive.
pub proof fn lex_transitive(a: Seq<char>, b: Seq<char>, c: Seq<char>)
    requires
        lex_less(a, b),
        lex_less(b, c),
    ensures
        lex_less(a, c),
    decreases a.len(),
{
    if a.len() > 0 && a[0] == b[0] && b[0] == c[0] {
        lex_transitive(a.drop_first(), b.drop_first(), c.drop_first());
    }
}

/// Of two different strings, one comes before the other.
pub proof fn lex_total(a: Seq<char>, b: Seq<char>)
    ensures
        lex_less(a, b) || lex_less(b, a) || a == b,
    decreases a.len(),
{
    if a.len() > 0 && b.len() > 0 && a[0] == b[0] {
        lex_total(a.drop_first(), b.drop_first());
        if a.drop_first() == b.drop_first() {
            assert(a =~= seq![a[0]] + a.drop_first());
            assert(b =~= seq![b[0]] + b.drop_first());
        }
    } else if a.len() == 0 && b.len() == 0 {
        assert(a =~= b);
    }
}

/// Whether `a` comes strictly before `b`.
pub fn str_less(a: &str, b: &str) -> (r: bool)
    ensures
        r == lex_less(a@, b@),
{
    let mut left = a.chars();
    let mut right = b.chars();
    loop
        invariant
            lex_less(a@, b@) == lex_less(
                vstd::std_specs::iter::IteratorSpec::remaining(&left),
                vstd::std_specs::iter::IteratorSpec::remaining(&right),
            ),
            vstd::std_specs::iter::IteratorSpec::decrease(&left) is Some,
        decreases vstd::std_specs::iter::IteratorSpec::decrease(&left)->0,
    {
        match (left.next(), right.next()) {
            (_, None) => {
                return false;
            },
            (None, Some(_)) => {
                return true;
            },
            (Some(x), Some(y)) => {
                if x != y {
                    return x < y;
                }
            },
        }
    }
}

/// Whether `a` and `b` are the same string.
pub fn str_eq(a: &str, b: &str) -> (r: bool)
    ensures
        r == (a@ == b@),
{
    a.to_owned() == b.to_owned()
}

/// Whether a text holds no character.
pub fn is_empty(s: &str) -> (r: bool)
    ensures
        r == (s@.len() == 0),
{
    proof {
        reveal_strlit("");
    }
    assert(s@.len() == 0 ==> s@ =~= ""@);
    str_eq(s, "")
}

/// The characters of `s`.
pub fn chars_of(s: &str) -> (r: Vec<char>)
    ensures
        r@ == s@,
{
    let mut out: Vec<char> = Vec::new();
    let mut rest = s.chars();
    loop
        invariant
            s@ == out@ + vstd::std_specs::iter::IteratorSpec::remaining(&rest),
            vstd::std_specs::iter::IteratorSpec::decrease(&rest) is Some,
        decreases vstd::std_specs::iter::IteratorSpec::decrease(&rest)->0,
    {
        let ghost before = vstd::std_specs::iter::IteratorSpec::remaining(&rest);
        match rest.next() {
            None => {
                assert(out@ =~= s@);
                return out;
            },
            Some(c) => {
                let ghost kept = out@;
                out.push(c);
                assert(kept + before =~= out@ + before.drop_first());
            },
        }
    }
}

/// The numeral of one decimal digit.
pub open spec fn digit_char(d: nat) -> char {
    if d == 0 {
        '0'
    } else if d == 1 {
        '1'
    } else if d == 2 {
        '2'
    } else if d == 3 {
        '3'
    } else if d == 4 {
        '4'
    } else if d == 5 {
        '5'
    } else if d == 6 {
        '6'
    } else if d == 7 {
        '7'
    } else if d == 8 {
        '8'
    } else {
        '9'
    }
}

/// The decimal numeral of `n`, without leading zeros.
pub open spec fn decimal(n: nat) -> Seq<char>
    decreases n,
{
    if n < 10 {
        seq![digit_char(n)]
    } else {
        decimal(n / 10).push(digit_char(n % 10))
    }
}

fn digit_text(d: u64) -> (r: &'static str)
    requires
        d < 10,
    ensures
        r@ == seq![digit_char(d as nat)],
{
    proof {
        reveal_strlit("0");
        reveal_strlit("1");
        reveal_strlit("2");
        reveal_strlit("3");
        reveal_strlit("4");
        reveal_strlit("5");
        reveal_strlit("6");
        reveal_strlit("7");
        reveal_strlit("8");
        reveal_strlit("9");
    }
    let r: &'static str = if d == 0 {
        "0"
    } else if d == 1 {
        "1"
    } else if d == 2 {
        "2"
    } else if d == 3 {
        "3"
    } else if d == 4 {
        "4"
    } else if d == 5 {
        "5"
    } else if d == 6 {
        "6"
    } else if d == 7 {
        "7"
    } else if d == 8 {
        "8"
    } else {
        "9"
    };
    assert(r@ =~= seq![digit_char(d as nat)]);
    r
}

/// The decimal numeral of `n`.
pub fn decimal_text(n: u64) -> (r: String)
    ensures
        r@ == decimal(n as nat),
    decreases n,
{
    if n < 10 {
        digit_text(n).to_owned()
    } else {
        let mut r = decimal_text(n / 10);
        r.append(digit_text(n % 10));
        assert(r@ =~= decimal(n as nat));
        r
    }
}

/// Whether `c` is one of the ten decimal digits.
pub open spec fn is_digit(c: char) -> bool {
    '0' <= c <= '9'
}

/// The number that a sequence of decimal digits denotes.
pub open spec fn digits_value(s: Seq<char>) -> nat
    decreases s.len(),
{
    if s.len() == 0 {
        0
    } else {
        10 * digits_value(s.drop_last()) + (s.last() as nat - '0' as nat) as nat
    }
}

/// Whether every character of `s` is a decimal digit.
pub open spec fn all_digits(s: Seq<char>) -> bool {
    forall|i: int| 0 <= i < s.len() ==> is_digit(#[trigger] s[i])
}

/// The number that `s` denotes, where `s` is digits, at least one, whose value fits 64 bits.
pub open spec fn numeral_u64(s: Seq<char>) -> Option<u64> {
    if s.len() > 0 && all_digits(s) && digits_value(s) <= u64::MAX {
        Some(digits_value(s) as u64)
    } else {
        None
    }
}

/// Reads an unsigned 64-bit number: an optional plus sign, then a numeral.
pub open spec fn parsed_u64(s: Seq<char>) -> Option<u64> {
    if s.len() > 0 && s[0] == '+' {
        numeral_u64(s.drop_first())
    } else {
        numeral_u64(s)
    }
}

proof fn digits_value_grows(s: Seq<char>, k: int)
    requires
        0 <= k <= s.len(),
        all_digits(s),
    ensures
        digits_value(s.take(k)) <= digits_value(s),
    decreases s.len() - k,
{
    if k == s.len() {
        assert(s.take(k) =~= s);
    } else {
        digits_value_grows(s, k + 1);
        assert(s.take(k + 1).drop_last() =~= s.take(k));
    }
}

/// Reads an unsigned 64-bit number.
pub fn parse_u64(s: &str) -> (r: Option<u64>)
    ensures
        r == parsed_u64(s@),
{
    let chars = chars_of(s);
    let start: usize = if chars.len() > 0 && chars[0] == '+' {
        1
    } else {
        0
    };
    let ghost digits = chars@.skip(start as int);
    assert(parsed_u64(s@) == numeral_u64(digits)) by {
        if start == 1 {
            assert(digits =~= s@.drop_first());
        } else {
            assert(digits =~= s@);
        }
    }
    if start == chars.len() {
        return None;
    }
    let mut value: u64 = 0;
    let mut i: usize = start;
    while i < chars.len()
        invariant
            start <= i <= chars.len(),
            start < chars.len(),
            digits == chars@.skip(start as int),
            forall|j: int| 0 <= j < i - start ==> is_digit(#[trigger] digits[j]),
            value == digits_value(digits.take(i - start)),
            parsed_u64(s@) == numeral_u64(digits),
        decreases chars.len() - i,
    {
        let c = chars[i];
        assert(c == digits[i - start]);
        if !('0' <= c && c <= '9') {
            return None;
        }
        let d: u64 = (c as u32 - '0' as u32) as u64;
        assert(digits.take(i + 1 - start).drop_last() =~= digits.take(i - start));
        assert(digits_value(digits.take(i + 1 - start)) == 10 * value + d);
        proof {
            if all_digits(digits) {
                digits_value_grows(digits, i + 1 - start);
            }
        }
        if value > (u64::MAX - d) / 10 {
            return None;
        }
        value = 10 * value + d;
        i = i + 1;
    }
    assert(digits.take(i - start) =~= digits);
    Some(value)
}

/// Whether `needle` occurs in `hay`.
pub open spec fn occurs_in(needle: Seq<char>, hay: Seq<char>) -> bool {
    exists|i: int|
        0 <= i && i + needle.len() <= hay.len() && #[trigger] hay.subrange(i, i + needle.len())
            == needle
}

/// Whether `needle` occurs in `hay`.
pub fn contains(hay: &str, needle: &str) -> (r: bool)
    ensures
        r == occurs_in(needle@, hay@),
{
    let h = chars_of(hay);
    let n = chars_of(needle);
    if n.len() > h.len() {
        return false;
    }
    let last: usize = h.len() - n.len();
    let mut i: usize = 0;
    while i <= last
        invariant
            h@ == hay@,
            n@ == needle@,
            n.len() + last == h.len(),
            i <= last + 1,
            forall|k: int|
                0 <= k < i ==> #[trigger] hay@.subrange(k, k + needle@.len()) != needle@,
        decreases last + 1 - i,
    {
        let mut j: usize = 0;
        let mut same = true;
        while j < n.len() && same
            invariant
                h@ == hay@,
                n@ == needle@,
                n.len() + last == h.len(),
                i <= last,
                j <= n.len(),
                same ==> forall|k: int| 0 <= k < j ==> h@[i + k] == #[trigger] n@[k],
                !same ==> exists|k: int| 0 <= k < n@.len() && h@[i + k] != #[trigger] n@[k],
            decreases n.len() - j + if same { 1int } else { 0int },
        {
            if h[i + j] == n[j] {
                j = j + 1;
            } else {
                same = false;
            }
        }
        if same {
            assert(hay@.subrange(i as int, i + needle@.len()) =~= needle@);
            return true;
        }
        assert(hay@.subrange(i as int, i + needle@.len()) != needle@) by {
            let k = choose|k: int| 0 <= k < n@.len() && h@[i + k] != #[trigger] n@[k];
            assert(hay@.subrange(i as int, i + needle@.len())[k] == h@[i + k]);
        }
        if i == last {
            return false;
        }
        i = i + 1;
    }
    false
}

/// Whether `body` can be cut after `limit` bytes: it is no longer than that, or a character
/// ends there.
pub open spec fn can_shorten(body: Seq<char>, limit: nat) -> bool {
    vstd::utf8::encode_utf8(body).len() > limit ==> vstd::utf8::is_char_boundary(vstd::utf8::encode_utf8(body), limit as int)
}

/// `body`, or, where its UTF-8 form is longer than `limit` bytes, the text of the first `limit`
/// bytes followed by three dots.
pub open spec fn shortened(body: Seq<char>, limit: nat) -> Seq<char> {
    if vstd::utf8::encode_utf8(body).len() > limit {
        vstd::utf8::decode_utf8(vstd::utf8::encode_utf8(body).subrange(0, limit as int)) + "..."@
    } else {
        body
    }
}

/// Whether `body` can be cut after `limit` bytes.
pub fn shortenable(body: &str, limit: usize) -> (r: bool)
    ensures
        r == can_shorten(body@, limit as nat),
{
    body.as_bytes().len() <= limit || body.is_char_boundary(limit)
}

/// A one-line preview of `body`, at most `limit` bytes of it.
pub fn shorten(body: &str, limit: usize) -> (r: String)
    requires
        can_shorten(body@, limit as nat),
    ensures
        r@ == shortened(body@, limit as nat),
{
    if body.as_bytes().len() > limit {
        let (head, _) = body.split_at(limit);
        proof {
            vstd::utf8::encode_utf8_decode_utf8(head@);
        }
        let mut r = head.to_owned();
        r.append("...");
        r
    } else {
        body.to_owned()
    }
}

/// The lower-case form of a text, by the Unicode mapping that the standard library uses.
pub uninterp spec fn lowercase(s: Seq<char>) -> Seq<char>;

/// `str::to_lowercase` of the standard library. Trusted: its result depends on the text alone,
/// and, since each character has a lower-case form of one or more characters, it is empty exactly
/// if the text is.
#[verifier::external_body]
pub(crate) fn to_lowercase(s: &str) -> (r: String)
    ensures
        r@ == lowercase(s@),
        r@.len() == 0 <==> s@.len() == 0,
{
    s.to_lowercase()
}

/// A text as the standard library quotes it in debugging output.
pub uninterp spec fn quoted(s: Seq<char>) -> Seq<char>;

/// The `Debug` form of `str` in the standard library: the text between double quotes, with its
/// special characters escaped. Trusted: its result depends on the text alone.
#[verifier::external_body]
pub(crate) fn quote(s: &str) -> (r: String)
    ensures
        r@ == quoted(s@),
{
    format!("{:?}", s)
}

/// Every character of a numeral is a digit, and there is at least one.
pub proof fn decimal_is_digits(n: nat)
    ensures
        all_digits(decimal(n)),
        decimal(n).len() > 0,
    decreases n,
{
    if n >= 10 {
        decimal_is_digits(n / 10);
    }
}

/// A numeral denotes the number it was written for.
pub proof fn decimal_value(n: nat)
    ensures
        digits_value(decimal(n)) == n,
    decreases n,
{
    reveal_with_fuel(digits_value, 2);
    if n >= 10 {
        decimal_value(n / 10);
        assert(decimal(n).drop_last() =~= decimal(n / 10));
        assert(decimal(n).last() == digit_char(n % 10));
    } else {
        assert(decimal(n).drop_last() =~= Seq::empty());
        assert(decimal(n).last() == digit_char(n));
    }
}

/// Reading back a written number gives that number.
pub proof fn parse_of_decimal(n: u64)
    ensures
        parsed_u64(decimal(n as nat)) == Some(n),
{
    decimal_is_digits(n as nat);
    decimal_value(n as nat);
    assert(is_digit(decimal(n as nat)[0]));
}

/// Different numbers have different numerals.
pub proof fn decimal_injective(m: nat, n: nat)
    requires
        decimal(m) == decimal(n),
    ensures
        m == n,
{
    decimal_value(m);
    decimal_value(n);
}

/// The first place where two strings differ decides their order: the one with the character of
/// the smaller code point there, or the one that ends there, comes first.
pub proof fn first_difference_decides(a: Seq<char>, b: Seq<char>, k: int)
    requires
        0 <= k <= a.len(),
        k < b.len(),
        forall|i: int| 0 <= i < k ==> #[trigger] a[i] == b[i],
        k == a.len() || (a[k] as int) < (b[k] as int),
    ensures
        lex_less(a, b),
        !lex_less(b, a),
    decreases k,
{
    if k > 0 {
        assert(a[0] == b[0]);
        let (x, y) = (a.drop_first(), b.drop_first());
        assert forall|i: int| 0 <= i < k - 1 implies #[trigger] x[i] == y[i] by {
            assert(a[i + 1] == b[i + 1]);
        }
        first_difference_decides(x, y, k - 1);
    }
}

/// A numeral is made of the digits of its number: the last is the remainder by ten, and what
/// stands before it is the numeral of the quotient. It has no leading zero.
pub proof fn numeral_digits(n: nat)
    ensures
        decimal(n).len() > 0,
        decimal(n).last() as int == '0' as int + n % 10,
        n < 10 ==> decimal(n).len() == 1,
        n >= 10 ==> decimal(n).drop_last() == decimal(n / 10),
        n > 0 ==> decimal(n)[0] != '0',
    decreases n,
{
    if n >= 10 {
        numeral_digits(n / 10);
        assert(decimal(n).drop_last() =~= decimal(n / 10));
        assert(decimal(n)[0] == decimal(n / 10)[0]);
    }
}

/// A digit behind a numeral multiplies its number by ten and adds the digit, unless the number
/// becomes too large, and a digit by itself is its number.
pub proof fn numbers_are_read_by_digits(s: Seq<char>, c: char)
    requires
        '0' <= c <= '9',
    ensures
        parsed_u64(seq![c]) == Some((c as u64 - '0' as u64) as u64),
        parsed_u64(s) matches Some(n) ==> parsed_u64(s.push(c)) == if 10 * n + (c as int
            - '0' as int) <= u64::MAX {
            Some((10 * n + (c as int - '0' as int)) as u64)
        } else {
            None
        },
{
    let one = seq![c];
    assert(one.drop_last() =~= Seq::empty());
    assert(digits_value(Seq::empty()) == 0);
    assert(digits_value(one) == c as nat - '0' as nat);
    assert(all_digits(one));
    if parsed_u64(s) is Some {
        let d = if s[0] == '+' {
            s.drop_first()
        } else {
            s
        };
        let e = if s[0] == '+' {
            s.push(c).drop_first()
        } else {
            s.push(c)
        };
        assert(s.push(c)[0] == s[0]);
        assert(e =~= d.push(c));
        assert(e.drop_last() =~= d);
        assert(all_digits(e)) by {
            assert forall|i: int| 0 <= i < e.len() implies is_digit(#[trigger] e[i]) by {
                if i < d.len() {
                    assert(is_digit(d[i]));
                }
            }
        }
    }
}

/// Nothing but digits is read as a number, but for one plus sign in front of them; neither the
/// empty text nor a sign by itself is.
pub proof fn only_digits_are_read(s: Seq<char>, i: int)
    ensures
        parsed_u64(Seq::empty()) is None,
        parsed_u64(seq!['+']) is None,
        0 <= i < s.len() && !('0' <= s[i] <= '9') && (i > 0 || s[i] != '+') ==> parsed_u64(s)
            is None,
        s.len() > 0 && s[0] != '+' ==> parsed_u64(seq!['+'] + s) == parsed_u64(s),
{
    assert(seq!['+'].drop_first() =~= Seq::empty());
    assert((seq!['+'] + s).drop_first() =~= s);
    if 0 <= i < s.len() && !('0' <= s[i] <= '9') && (i > 0 || s[i] != '+') {
        if s[0] == '+' {
            assert(!is_digit(s.drop_first()[i - 1]));
        } else {
            assert(!is_digit(s[i]));
        }
    }
}

/// A text occurs in another exactly if the other is that text with something, or nothing, before
/// and behind it.
pub proof fn occurrence_is_a_part(needle: Seq<char>, hay: Seq<char>)
    ensures
        occurs_in(needle, hay) <==> exists|before: Seq<char>, behind: Seq<char>|
            hay == #[trigger] (before + needle + behind),
{
    if occurs_in(needle, hay) {
        let i = choose|i: int|
            0 <= i && i + needle.len() <= hay.len() && #[trigger] hay.subrange(
                i,
                i + needle.len(),
            ) == needle;
        let before = hay.take(i);
        let behind = hay.skip(i + needle.len());
        assert(hay =~= before + hay.subrange(i, i + needle.len()) + behind);
        assert(hay == before + needle + behind);
    }
    if exists|before: Seq<char>, behind: Seq<char>| hay == #[trigger] (before + needle + behind) {
        let (before, behind) = choose|before: Seq<char>, behind: Seq<char>|
            hay == #[trigger] (before + needle + behind);
        occurs_between(before, needle, behind);
    }
}

/// A text occurs in what it is a part of.
pub proof fn occurs_between(before: Seq<char>, needle: Seq<char>, behind: Seq<char>)
    ensures
        occurs_in(needle, before + needle + behind),
{
    let hay = before + needle + behind;
    let i = before.len() as int;
    assert(hay.subrange(i, i + needle.len()) =~= needle);
}

/// A body of no more bytes than the limit is shown whole. Of a longer one the beginning is shown
/// that has just as many bytes as the limit, and three dots behind it.
pub proof fn shortened_is_a_beginning(body: Seq<char>, limit: nat)
    requires
        can_shorten(body, limit),
    ensures
        vstd::utf8::encode_utf8(body).len() <= limit ==> shortened(body, limit) == body,
        vstd::utf8::encode_utf8(body).len() > limit ==> {
            let shown = shortened(body, limit);
            let k = shown.len() - 3;
            &&& 0 <= k <= body.len()
            &&& shown == body.take(k) + seq!['.', '.', '.']
            &&& vstd::utf8::encode_utf8(body.take(k)).len() == limit
        },
{
    if vstd::utf8::encode_utf8(body).len() > limit {
        let bytes = vstd::utf8::encode_utf8(body);
        let head = bytes.subrange(0, limit as int);
        let tail = bytes.subrange(limit as int, bytes.len() as int);
        vstd::utf8::encode_utf8_valid_utf8(body);
        vstd::utf8::encode_utf8_decode_utf8(body);
        vstd::utf8::valid_utf8_split(bytes, limit as int);
        vstd::utf8::decode_utf8_split(bytes, limit as int);
        vstd::utf8::decode_utf8_encode_utf8(head);
        let text = vstd::utf8::decode_utf8(head);
        reveal_strlit("...");
        assert("..."@ =~= seq!['.', '.', '.']);
        assert(body =~= text + vstd::utf8::decode_utf8(tail));
        assert(body.take(text.len() as int) =~= text);
    }
}

proof fn encode_add(a: Seq<char>, b: Seq<char>)
    ensures
        vstd::utf8::encode_utf8(a + b) == vstd::utf8::encode_utf8(a) + vstd::utf8::encode_utf8(b),
    decreases a.len(),
{
    if a.len() == 0 {
        assert(a + b =~= b);
        assert(vstd::utf8::encode_utf8(a) =~= Seq::empty());
        assert(vstd::utf8::encode_utf8(a) + vstd::utf8::encode_utf8(b)
            =~= vstd::utf8::encode_utf8(b));
    } else {
        encode_add(a.drop_first(), b);
        assert((a + b).drop_first() =~= a.drop_first() + b);
        assert((a + b)[0] == a[0]);
        assert(vstd::utf8::encode_utf8(a + b) =~= vstd::utf8::encode_utf8(a)
            + vstd::utf8::encode_utf8(b));
    }
}

/// A body can be cut exactly if it is no longer than the limit, or has a beginning of just as
/// many bytes as the limit.
pub proof fn cut_falls_between_characters(body: Seq<char>, limit: nat)
    ensures
        can_shorten(body, limit) <==> vstd::utf8::encode_utf8(body).len() <= limit || exists|k: int|
            0 <= k <= body.len() && #[trigger] vstd::utf8::encode_utf8(body.take(k)).len()
                == limit,
{
    let bytes = vstd::utf8::encode_utf8(body);
    if bytes.len() > limit {
        if can_shorten(body, limit) {
            shortened_is_a_beginning(body, limit);
        }
        if exists|k: int|
            0 <= k <= body.len() && #[trigger] vstd::utf8::encode_utf8(body.take(k)).len()
                == limit {
            let k = choose|k: int|
                0 <= k <= body.len() && #[trigger] vstd::utf8::encode_utf8(body.take(k)).len()
                    == limit;
            let tail = vstd::utf8::encode_utf8(body.skip(k));
            encode_add(body.take(k), body.skip(k));
            assert(body =~= body.take(k) + body.skip(k));
            assert(tail.len() > 0);
            assert(bytes[limit as int] == tail[0]);
            vstd::utf8::encode_utf8_valid_utf8(body);
            vstd::utf8::encode_utf8_valid_utf8(body.skip(k));
            vstd::utf8::is_char_boundary_iff_not_is_continuation_byte(tail, 0);
            vstd::utf8::is_char_boundary_iff_not_is_continuation_byte(bytes, limit as int);
        }
    }
}

/// What occurs in a text occurs in the text with more behind it.
pub proof fn occurs_longer(needle: Seq<char>, hay: Seq<char>, behind: Seq<char>)
    requires
        occurs_in(needle, hay),
    ensures
        occurs_in(needle, hay + behind),
{
    let i = choose|i: int|
        0 <= i && i + needle.len() <= hay.len() && #[trigger] hay.subrange(i, i + needle.len())
            == needle;
    assert((hay + behind).subrange(i, i + needle.len()) =~= needle);
}

} // verus!
