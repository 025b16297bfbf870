//! Character-level foundations: decimal integer text, whitespace trimming,
//! and rendering of numbers, shared by the value codec, the error messages
//! and the export engine.

use vstd::prelude::*;

verus! {

/// The characters the codec strips from both ends of a raw cell value.
pub open spec fn is_sql_space(c: char) -> bool {
    c == ' ' || c == '\t' || c == '\n' || c == '\r'
}

pub open spec fn is_dec_digit(c: char) -> bool {
    '0' <= c && c <= '9'
}

pub open spec fn dec_digit_val(c: char) -> int {
    c as int - '0' as int
}

pub open spec fn all_dec_digits(s: Seq<char>) -> bool {
    forall|i: int| 0 <= i < s.len() ==> is_dec_digit(#[trigger] s[i])
}

/// Value of a sequence of decimal digits, most significant first.
pub open spec fn dec_value(s: Seq<char>) -> int
    decreases s.len(),
{
    if s.len() == 0 {
        0
    } else {
        dec_value(s.drop_last()) * 10 + dec_digit_val(s.last())
    }
}

/// The digit part of an unsigned decimal literal: a leading `+` is allowed
/// and ignored, exactly as Rust's integer parsing accepts it.
pub open spec fn unsigned_digits(s: Seq<char>) -> Seq<char> {
    if s.len() > 0 && s[0] == '+' {
        s.skip(1)
    } else {
        s
    }
}

/// Whether `s` is the text of an unsigned decimal integer no larger than `max`.
pub open spec fn is_unsigned_dec_text(s: Seq<char>, max: int) -> bool {
    let d = unsigned_digits(s);
    d.len() > 0 && all_dec_digits(d) && dec_value(d) <= max
}

/// Whether `s` is the text of a signed decimal integer within `[min, max]`.
pub open spec fn is_signed_dec_text(s: Seq<char>, min: int, max: int) -> bool {
    if s.len() > 0 && s[0] == '-' {
        let d = s.skip(1);
        d.len() > 0 && all_dec_digits(d) && -dec_value(d) >= min
    } else {
        is_unsigned_dec_text(s, max)
    }
}

/// The value of a signed decimal literal accepted by `is_signed_dec_text`.
pub open spec fn signed_dec_value(s: Seq<char>) -> int {
    if s.len() > 0 && s[0] == '-' {
        -dec_value(s.skip(1))
    } else {
        dec_value(unsigned_digits(s))
    }
}

pub proof fn lemma_dec_value_bounds(s: Seq<char>)
    requires
        all_dec_digits(s),
    ensures
        0 <= dec_value(s),
    decreases s.len(),
{
    if s.len() > 0 {
        let t = s.drop_last();
        assert(forall|i: int| 0 <= i < t.len() ==> is_dec_digit(#[trigger] t[i])) by {
            assert(forall|i: int| 0 <= i < t.len() ==> t[i] == s[i]);
        }
        lemma_dec_value_bounds(t);
        assert(is_dec_digit(s.last()));
    }
}

pub open spec fn trim_front(s: Seq<char>) -> Seq<char>
    decreases s.len(),
{
    if s.len() > 0 && is_sql_space(s[0]) {
        trim_front(s.skip(1))
    } else {
        s
    }
}

pub open spec fn trim_back(s: Seq<char>) -> Seq<char>
    decreases s.len(),
{
    if s.len() > 0 && is_sql_space(s.last()) {
        trim_back(s.drop_last())
    } else {
        s
    }
}

/// `s` with surrounding whitespace removed.
pub open spec fn trimmed(s: Seq<char>) -> Seq<char> {
    trim_back(trim_front(s))
}

proof fn lemma_trim_front_is_skip(s: Seq<char>, k: int)
    requires
        0 <= k <= s.len(),
        forall|i: int| 0 <= i < k ==> is_sql_space(#[trigger] s[i]),
        k == s.len() || !is_sql_space(s[k]),
    ensures
        trim_front(s) =~= s.skip(k),
    decreases k,
{
    if k == 0 {
        if s.len() > 0 && is_sql_space(s[0]) {
            assert(false);
        }
        assert(trim_front(s) =~= s.skip(0));
    } else {
        assert(is_sql_space(s[0]));
        let t = s.skip(1);
        assert(forall|i: int| 0 <= i < k - 1 ==> is_sql_space(#[trigger] t[i]));
        lemma_trim_front_is_skip(t, k - 1);
        assert(t.skip(k - 1) =~= s.skip(k));
    }
}

proof fn lemma_trim_back_is_take(s: Seq<char>, k: int)
    requires
        0 <= k <= s.len(),
        forall|i: int| k <= i < s.len() ==> is_sql_space(#[trigger] s[i]),
        k == 0 || !is_sql_space(s[k - 1]),
    ensures
        trim_back(s) =~= s.take(k),
    decreases s.len() - k,
{
    if k == s.len() {
        if s.len() > 0 && is_sql_space(s.last()) {
            assert(false);
        }
        assert(trim_back(s) =~= s.take(k));
    } else {
        assert(is_sql_space(s.last()));
        let t = s.drop_last();
        assert(forall|i: int| k <= i < t.len() ==> is_sql_space(#[trigger] t[i]));
        lemma_trim_back_is_take(t, k);
        assert(t.take(k) =~= s.take(k));
    }
}

/// The decimal digit `d` as a character; meaningful for `0 <= d <= 9`.
pub open spec fn digit_char(d: int) -> char {
    if d == 0 {
        '0'
    } else if d == 1 {
        '1'
    } else if d == 2 {
        '2'
    } else if d == 3 {
        '3'
    } else if d == 4 {
        '4'
    } else if d == 5 {
        '5'
    } else if d == 6 {
        '6'
    } else if d == 7 {
        '7'
    } else if d == 8 {
        '8'
    } else {
        '9'
    }
}

/// The canonical decimal rendering of `n`: no sign, no leading zero
/// (except for zero itself).
pub open spec fn udec_text(n: nat) -> Seq<char>
    decreases n,
{
    if n < 10 {
        seq![digit_char(n as int)]
    } else {
        udec_text(n / 10) + seq![digit_char((n % 10) as int)]
    }
}

proof fn lemma_digit_char_val(d: int)
    requires
        0 <= d <= 9,
    ensures
        is_dec_digit(digit_char(d)),
        dec_digit_val(digit_char(d)) == d,
{
}

proof fn lemma_udec_text_digits(n: nat)
    ensures
        udec_text(n).len() > 0,
        all_dec_digits(udec_text(n)),
        dec_value(udec_text(n)) == n,
    decreases n,
{
    if n < 10 {
        lemma_digit_char_val(n as int);
        assert(udec_text(n) == seq![digit_char(n as int)]);
        assert(udec_text(n).drop_last() =~= Seq::<char>::empty());
        assert(udec_text(n).last() == digit_char(n as int));
        assert(dec_value(Seq::<char>::empty()) == 0);
        assert(dec_value(udec_text(n)) == n);
    } else {
        lemma_udec_text_digits(n / 10);
        lemma_digit_char_val((n % 10) as int);
        let head = udec_text(n / 10);
        let full = udec_text(n);
        assert(full == head + seq![digit_char((n % 10) as int)]);
        assert(full.drop_last() =~= head);
        assert(full.last() == digit_char((n % 10) as int));
        assert(dec_value(full) == dec_value(head) * 10 + (n % 10));
        assert((n / 10) * 10 + n % 10 == n) by {
            vstd::arithmetic::div_mod::lemma_fundamental_div_mod(n as int, 10);
        }
        assert(forall|i: int|
            0 <= i < full.len() ==> is_dec_digit(#[trigger] full[i])) by {
            assert(forall|i: int| 0 <= i < head.len() ==> full[i] == head[i]);
        }
    }
}

/// Law: a rendered decimal decodes back to the number it renders — the
/// codec's unsigned grammar accepts every rendered value and assigns it
/// exactly that value.
pub proof fn lemma_udec_decode_roundtrip(n: u64)
    ensures
        is_unsigned_dec_text(udec_text(n as nat), u64::MAX as int),
        dec_value(unsigned_digits(udec_text(n as nat))) == n,
{
    lemma_udec_text_digits(n as nat);
    let s = udec_text(n as nat);
    assert(is_dec_digit(s[0]));
    assert(s[0] != '+');
    assert(unsigned_digits(s) == s);
}

/// Relies on `String::push`: appends exactly the one character at the end.
#[verifier::external_body]
pub fn push_char(buf: &mut String, c: char)
    ensures
        final(buf)@ == old(buf)@ + seq![c],
{
    buf.push(c);
}

fn digit_to_char(d: u64) -> (r: char)
    requires
        d <= 9,
    ensures
        r == digit_char(d as int),
{
    if d == 0 {
        '0'
    } else if d == 1 {
        '1'
    } else if d == 2 {
        '2'
    } else if d == 3 {
        '3'
    } else if d == 4 {
        '4'
    } else if d == 5 {
        '5'
    } else if d == 6 {
        '6'
    } else if d == 7 {
        '7'
    } else if d == 8 {
        '8'
    } else {
        '9'
    }
}

/// Renders `n` in decimal.
pub fn udec_string(n: u64) -> (r: String)
    ensures
        r@ == udec_text(n as nat),
{
    let mut digits: Vec<char> = Vec::new();
    let mut m = n;
    while m >= 10
        invariant
            udec_text(n as nat) =~= udec_text(m as nat) + digits@.reverse(),
        decreases m,
    {
        let d = m % 10;
        digits.push(digit_to_char(d));
        proof {
            assert(digits@.reverse() =~= seq![digit_char(d as int)] + digits@.drop_last().reverse());
        }
        m = m / 10;
    }
    digits.push(digit_to_char(m));
    proof {
        assert(digits@.reverse() =~= seq![digit_char(m as int)] + digits@.drop_last().reverse());
        assert(udec_text(n as nat) =~= digits@.reverse());
    }
    let mut buf = String::new();
    let mut j: usize = 0;
    let len = digits.len();
    while j < len
        invariant
            0 <= j <= len,
            len == digits@.len(),
            buf@ =~= digits@.reverse().take(j as int),
        decreases len - j,
    {
        let c = digits[len - 1 - j];
        push_char(&mut buf, c);
        proof {
            assert(digits@.reverse()[j as int] == digits@[len - 1 - j]);
            assert(buf@ =~= digits@.reverse().take(j as int + 1));
        }
        j = j + 1;
    }
    proof {
        assert(buf@ =~= digits@.reverse());
    }
    buf
}

/// Executable counterpart of `is_sql_space`.
pub fn sql_space(c: char) -> (r: bool)
    ensures
        r == is_sql_space(c),
{
    c == ' ' || c == '\t' || c == '\n' || c == '\r'
}

/// Character-wise equality of two strings.
pub fn str_equal(a: &str, b: &str) -> (r: bool)
    ensures
        r == (a@ == b@),
{
    let la = a.unicode_len();
    let lb = b.unicode_len();
    if la != lb {
        proof {
            assert(a@ != b@) by {
                if a@ == b@ {
                    assert(a@.len() == b@.len());
                }
            }
        }
        return false;
    }
    let mut i: usize = 0;
    while i < la
        invariant
            0 <= i <= la,
            la == a@.len(),
            la == b@.len(),
            forall|j: int| 0 <= j < i ==> a@[j] == b@[j],
        decreases la - i,
    {
        if a.get_char(i) != b.get_char(i) {
            proof {
                assert(a@ != b@) by {
                    if a@ == b@ {
                        assert(a@[i as int] == b@[i as int]);
                    }
                }
            }
            return false;
        }
        i = i + 1;
    }
    proof {
        assert(a@ =~= b@);
    }
    true
}

/// Strips surrounding whitespace from a cell value.
pub fn trim_cell(s: &str) -> (r: &str)
    ensures
        r@ == trimmed(s@),
{
    let len = s.unicode_len();
    let mut lo: usize = 0;
    while lo < len && sql_space(s.get_char(lo))
        invariant
            0 <= lo <= len,
            len == s@.len(),
            forall|i: int| 0 <= i < lo ==> is_sql_space(#[trigger] s@[i]),
        decreases len - lo,
    {
        lo = lo + 1;
    }
    proof {
        lemma_trim_front_is_skip(s@, lo as int);
    }
    let mut hi: usize = len;
    while hi > lo && sql_space(s.get_char(hi - 1))
        invariant
            lo <= hi <= len,
            len == s@.len(),
            forall|i: int| hi <= i < len ==> is_sql_space(#[trigger] s@[i]),
        decreases hi,
    {
        hi = hi - 1;
    }
    let r = s.substring_char(lo, hi);
    proof {
        let front = s@.skip(lo as int);
        assert(forall|i: int| hi - lo <= i < front.len() ==> is_sql_space(#[trigger] front[i]));
        if hi > lo {
            assert(front[hi - lo - 1] == s@[hi as int - 1]);
        }
        lemma_trim_back_is_take(front, hi - lo);
        assert(front.take(hi - lo) =~= s@.subrange(lo as int, hi as int));
    }
    r
}

} // verus!
