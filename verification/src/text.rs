//! Decimal rendering of counters and timestamps, and the textual form of
//! minted incident identifiers.

use vstd::prelude::*;
use vstd::string::*;
use vstd::utf8::*;

verus! {

/// The character that stands for the digit `d`.
pub open spec fn digit_char(d: nat) -> char
    recommends
        d < 10,
{
    if d == 0 {
        '0'
    } else if d == 1 {
        '1'
    } else if d == 2 {
        '2'
    } else if d == 3 {
        '3'
    } else if d == 4 {
        '4'
    } else if d == 5 {
        '5'
    } else if d == 6 {
        '6'
    } else if d == 7 {
        '7'
    } else if d == 8 {
        '8'
    } else {
        '9'
    }
}

/// The shortest decimal numeral of `n`: no leading zero, `0` itself as one
/// digit.
pub open spec fn decimal(n: nat) -> Seq<char>
    decreases n,
{
    if n < 10 {
        seq![digit_char(n)]
    } else {
        decimal(n / 10).push(digit_char(n % 10))
    }
}

/// `count` zero digits.
pub open spec fn zeros(count: nat) -> Seq<char> {
    Seq::new(count, |i: int| '0')
}

/// The decimal numeral of `n`, filled with zeros on the left up to `width`
/// characters; a longer numeral is left as it is.
pub open spec fn zero_padded(n: nat, width: nat) -> Seq<char> {
    let digits = decimal(n);
    if digits.len() >= width {
        digits
    } else {
        zeros((width - digits.len()) as nat) + digits
    }
}

/// Ten to the power `k`.
pub open spec fn pow10(k: nat) -> nat
    decreases k,
{
    if k == 0 {
        1
    } else {
        10 * pow10((k - 1) as nat)
    }
}

/// No power of ten is zero.
pub proof fn lemma_pow10_positive(k: nat)
    ensures
        pow10(k) >= 1,
    decreases k,
{
    if k > 0 {
        lemma_pow10_positive((k - 1) as nat);
    }
}

/// A number below `10^k` has at most `k` digits, and one from `10^k` on has
/// more than `k`.
pub proof fn lemma_decimal_len(n: nat, k: nat)
    ensures
        k >= 1 && n < pow10(k) ==> decimal(n).len() <= k,
        n >= pow10(k) ==> decimal(n).len() > k,
        decimal(n).len() >= 1,
    decreases n,
{
    if k >= 1 {
        lemma_pow10_positive((k - 1) as nat);
    }
    if n >= 10 {
        if k >= 1 {
            lemma_decimal_len(n / 10, (k - 1) as nat);
        } else {
            lemma_decimal_len(n / 10, 0);
        }
    }
}

/// Every 64-bit number has at most twenty digits.
pub proof fn lemma_decimal_len_u64(n: u64)
    ensures
        1 <= decimal(n as nat).len() <= 20,
{
    assert(pow10(20) == 100_000_000_000_000_000_000nat) by {
        reveal_with_fuel(pow10, 21);
    }
    lemma_decimal_len(n as nat, 20);
}

/// Number of digits that a minted identifier shows at least.
pub const ID_DIGITS: usize = 6;

/// The identifier minted from counter value `n`: `inc-` and the counter in
/// at least six digits.
pub open spec fn incident_id_text(n: nat) -> Seq<char> {
    "inc-"@ + zero_padded(n, ID_DIGITS as nat)
}

/// The text of one decimal digit.
fn digit_str(d: u64) -> (s: &'static str)
    requires
        d < 10,
    ensures
        s@ == seq![digit_char(d as nat)],
{
    proof {
        reveal_strlit("0");
        reveal_strlit("1");
        reveal_strlit("2");
        reveal_strlit("3");
        reveal_strlit("4");
        reveal_strlit("5");
        reveal_strlit("6");
        reveal_strlit("7");
        reveal_strlit("8");
        reveal_strlit("9");
    }
    let s = if d == 0 {
        "0"
    } else if d == 1 {
        "1"
    } else if d == 2 {
        "2"
    } else if d == 3 {
        "3"
    } else if d == 4 {
        "4"
    } else if d == 5 {
        "5"
    } else if d == 6 {
        "6"
    } else if d == 7 {
        "7"
    } else if d == 8 {
        "8"
    } else {
        "9"
    };
    assert(s@ =~= seq![digit_char(d as nat)]);
    s
}

/// Appends the decimal numeral of `n` to `out`.
pub fn push_decimal(out: &mut String, n: u64)
    ensures
        final(out)@ == old(out)@ + decimal(n as nat),
    decreases n,
{
    if n >= 10 {
        push_decimal(out, n / 10);
    }
    out.append(digit_str(n % 10));
    assert(out@ =~= old(out)@ + decimal(n as nat));
}

/// The decimal numeral of `n` as a string.
pub fn decimal_string(n: u64) -> (s: String)
    ensures
        s@ == decimal(n as nat),
{
    let mut out = String::new();
    push_decimal(&mut out, n);
    assert(out@ =~= decimal(n as nat));
    out
}

/// Number of digits in the decimal numeral of `n`.
pub fn decimal_len(n: u64) -> (len: usize)
    ensures
        len == decimal(n as nat).len(),
        1 <= len <= 20,
{
    let mut len: usize = 1;
    let mut rest: u64 = n;
    proof {
        lemma_decimal_len_u64(n);
    }
    while rest >= 10
        invariant
            1 <= len,
            len + decimal(rest as nat).len() == decimal(n as nat).len() + 1,
            decimal(n as nat).len() <= 20,
        decreases rest,
    {
        rest = rest / 10;
        len = len + 1;
    }
    len
}

/// Appends the numeral of `n`, filled with zeros up to `width`, to `out`.
pub fn push_zero_padded(out: &mut String, n: u64, width: usize)
    ensures
        final(out)@ == old(out)@ + zero_padded(n as nat, width as nat),
{
    let len = decimal_len(n);
    let mut filled: usize = len;
    while filled < width
        invariant
            len <= filled,
            filled <= width || filled == len,
            out@ == old(out)@ + zeros((filled - len) as nat),
        decreases width - filled,
    {
        proof {
            reveal_strlit("0");
        }
        out.append("0");
        filled = filled + 1;
        assert(out@ =~= old(out)@ + zeros((filled - len) as nat));
    }
    push_decimal(out, n);
    assert(out@ =~= old(out)@ + zero_padded(n as nat, width as nat));
}

/// The identifier minted from counter value `n`.
pub fn incident_id_string(n: u64) -> (id: String)
    ensures
        id@ == incident_id_text(n as nat),
{
    let mut id = "inc-".to_owned();
    push_zero_padded(&mut id, n, ID_DIGITS);
    id
}

/// Whether two strings hold the same characters, decided on their bytes.
pub fn str_eq(a: &str, b: &str) -> (same: bool)
    ensures
        same == (a@ == b@),
{
    let x = a.as_bytes();
    let y = b.as_bytes();
    proof {
        // The byte encoding determines the characters.
        encode_utf8_decode_utf8(a@);
        encode_utf8_decode_utf8(b@);
    }
    if x.len() != y.len() {
        return false;
    }
    let mut i: usize = 0;
    while i < x.len()
        invariant
            i <= x.len(),
            x.len() == y.len(),
            x@ == a.spec_bytes(),
            y@ == b.spec_bytes(),
            forall|j: int| 0 <= j < i ==> x@[j] == y@[j],
        decreases x.len() - i,
    {
        if x[i] != y[i] {
            return false;
        }
        i = i + 1;
    }
    assert(x@ =~= y@);
    true
}

/// Whether `c` is one of the ten decimal digits.
pub open spec fn is_digit(c: char) -> bool {
    c == '0' || c == '1' || c == '2' || c == '3' || c == '4' || c == '5' || c == '6' || c == '7'
        || c == '8' || c == '9'
}

/// The digit that `c` stands for; zero for any other character.
pub open spec fn digit_value(c: char) -> nat {
    if c == '1' {
        1
    } else if c == '2' {
        2
    } else if c == '3' {
        3
    } else if c == '4' {
        4
    } else if c == '5' {
        5
    } else if c == '6' {
        6
    } else if c == '7' {
        7
    } else if c == '8' {
        8
    } else if c == '9' {
        9
    } else {
        0
    }
}

/// The number that a digit sequence denotes, leading zeros allowed.
pub open spec fn decimal_value(s: Seq<char>) -> nat
    decreases s.len(),
{
    if s.len() == 0 {
        0
    } else {
        10 * decimal_value(s.drop_last()) + digit_value(s.last())
    }
}

/// The counter value that a minted identifier shows after its prefix.
pub open spec fn incident_id_number(id: Seq<char>) -> nat {
    decimal_value(id.skip("inc-"@.len() as int))
}

/// A numeral holds digits only.
pub proof fn lemma_decimal_digits(n: nat)
    ensures
        forall|i: int| 0 <= i < decimal(n).len() ==> is_digit(#[trigger] decimal(n)[i]),
    decreases n,
{
    if n >= 10 {
        lemma_decimal_digits(n / 10);
    }
    assert(is_digit(digit_char(n % 10)));
    assert forall|i: int| 0 <= i < decimal(n).len() implies is_digit(#[trigger] decimal(n)[i]) by {
        if n >= 10 && i < decimal(n / 10).len() {
            assert(decimal(n)[i] == decimal(n / 10)[i]);
        } else {
            assert(decimal(n)[i] == digit_char(n % 10));
        }
    }
}

/// Reading a numeral gives back the number it was written from.
pub proof fn lemma_decimal_value(n: nat)
    ensures
        decimal_value(decimal(n)) == n,
    decreases n,
{
    let numeral = decimal(n);
    assert(digit_value(digit_char(n % 10)) == n % 10);
    assert(numeral.last() == digit_char(n % 10));
    if n < 10 {
        assert(numeral.drop_last() =~= Seq::<char>::empty());
        assert(decimal_value(numeral.drop_last()) == 0);
    } else {
        lemma_decimal_value(n / 10);
        assert(numeral.drop_last() =~= decimal(n / 10));
    }
    assert(decimal_value(numeral) == 10 * decimal_value(numeral.drop_last()) + digit_value(
        numeral.last(),
    ));
}

/// Zeros in front of a digit sequence do not change the number it denotes.
pub proof fn lemma_leading_zeros(count: nat, s: Seq<char>)
    ensures
        decimal_value(zeros(count) + s) == decimal_value(s),
    decreases s.len(), count,
{
    let whole = zeros(count) + s;
    if s.len() > 0 {
        lemma_leading_zeros(count, s.drop_last());
        assert(whole.drop_last() =~= zeros(count) + s.drop_last());
    } else if count > 0 {
        lemma_leading_zeros((count - 1) as nat, s);
        assert(whole.drop_last() =~= zeros((count - 1) as nat) + s);
    }
}

/// A padded numeral denotes the number it was written from, has at least
/// the asked width, exactly that width when the number fits in it, and
/// holds digits only.
pub proof fn lemma_zero_padded(n: nat, width: nat)
    ensures
        decimal_value(zero_padded(n, width)) == n,
        zero_padded(n, width).len() >= width,
        width >= 1 && n < pow10(width) ==> zero_padded(n, width).len() == width,
        forall|i: int|
            0 <= i < zero_padded(n, width).len() ==> is_digit(#[trigger] zero_padded(n, width)[i]),
{
    lemma_decimal_value(n);
    lemma_decimal_len(n, width);
    lemma_decimal_digits(n);
    if decimal(n).len() < width {
        lemma_leading_zeros((width - decimal(n).len()) as nat, decimal(n));
    }
}

/// A minted identifier is `inc-` followed by digits that denote its counter
/// value: at least six of them, exactly six below one million.
pub proof fn lemma_incident_id_text(n: nat)
    ensures
        incident_id_number(incident_id_text(n)) == n,
        incident_id_text(n).len() >= 10,
        n < 1_000_000 ==> incident_id_text(n).len() == 10,
        incident_id_text(n).subrange(0, 4) == "inc-"@,
        forall|i: int|
            4 <= i < incident_id_text(n).len() ==> is_digit(#[trigger] incident_id_text(n)[i]),
{
    reveal_strlit("inc-");
    lemma_zero_padded(n, ID_DIGITS as nat);
    assert(pow10(6) == 1_000_000) by {
        reveal_with_fuel(pow10, 7);
    }
    let padded = zero_padded(n, ID_DIGITS as nat);
    let text = incident_id_text(n);
    assert(text.skip(4) =~= padded);
    assert(text.subrange(0, 4) =~= "inc-"@);
    assert forall|i: int| 4 <= i < text.len() implies is_digit(#[trigger] text[i]) by {
        assert(text[i] == padded[i - 4]);
    }
}

/// Different counter values give different identifiers.
pub proof fn lemma_incident_ids_distinct(a: nat, b: nat)
    requires
        a != b,
    ensures
        incident_id_text(a) != incident_id_text(b),
{
    lemma_incident_id_text(a);
    lemma_incident_id_text(b);
}

/// Whether `s` comes before `t` in dictionary order, characters taken by
/// their code points: the order in which strings sort.
pub open spec fn sorts_before(s: Seq<char>, t: Seq<char>) -> bool {
    exists|i: int| differs_upward_at(s, t, i)
}

/// Whether `s` and `t` agree on their first `i` characters and `s` then
/// ends, or goes on with a smaller character than `t`.
pub open spec fn differs_upward_at(s: Seq<char>, t: Seq<char>, i: int) -> bool {
    &&& 0 <= i <= s.len()
    &&& i < t.len()
    &&& s.subrange(0, i) == t.subrange(0, i)
    &&& i < s.len() ==> (s[i] as int) < (t[i] as int)
}

/// A padded numeral is the padded numeral of the number without its last
/// digit, one character narrower, followed by that digit.
pub proof fn lemma_zero_padded_last_digit(n: nat, width: nat)
    requires
        width >= 1,
    ensures
        zero_padded(n, width + 1) == zero_padded(n / 10, width).push(digit_char(n % 10)),
{
    lemma_decimal_len(n / 10, 0);
    let shorter = decimal(n / 10);
    if n < 10 {
        assert(shorter =~= seq!['0']);
        assert(zero_padded(n, width + 1) =~= zero_padded(n / 10, width).push(digit_char(n % 10)));
    } else {
        assert(decimal(n) == shorter.push(digit_char(n % 10)));
        assert(zero_padded(n, width + 1) =~= zero_padded(n / 10, width).push(digit_char(n % 10)));
    }
}

/// Among numbers that fit into `width` digits, the smaller one has the
/// padded numeral that sorts first.
pub proof fn lemma_zero_padded_sorts(a: nat, b: nat, width: nat)
    requires
        width >= 1,
        a < b < pow10(width),
    ensures
        sorts_before(zero_padded(a, width), zero_padded(b, width)),
        zero_padded(a, width).len() == width,
        zero_padded(b, width).len() == width,
    decreases width,
{
    let s = zero_padded(a, width);
    let t = zero_padded(b, width);
    lemma_zero_padded(a, width);
    lemma_zero_padded(b, width);
    assert((digit_char(a % 10) as int) < (digit_char(b % 10) as int) <==> a % 10 < b % 10);
    if width == 1 {
        assert(pow10(1) == 10) by {
            reveal_with_fuel(pow10, 2);
        }
        assert(s =~= seq![digit_char(a)]);
        assert(t =~= seq![digit_char(b)]);
        assert(s.subrange(0, 0) =~= t.subrange(0, 0));
        assert(differs_upward_at(s, t, 0));
    } else {
        let narrower = (width - 1) as nat;
        lemma_zero_padded_last_digit(a, narrower);
        lemma_zero_padded_last_digit(b, narrower);
        let s0 = zero_padded(a / 10, narrower);
        let t0 = zero_padded(b / 10, narrower);
        lemma_zero_padded(a / 10, narrower);
        lemma_zero_padded(b / 10, narrower);
        assert(s0.len() == narrower && t0.len() == narrower);
        if a / 10 < b / 10 {
            lemma_zero_padded_sorts(a / 10, b / 10, narrower);
            let i = choose|i: int| differs_upward_at(s0, t0, i);
            assert(s.subrange(0, i) =~= s0.subrange(0, i));
            assert(t.subrange(0, i) =~= t0.subrange(0, i));
            assert(s[i] == s0[i] && t[i] == t0[i]);
            assert(differs_upward_at(s, t, i));
        } else {
            assert(a / 10 == b / 10);
            assert(s.subrange(0, narrower as int) =~= s0);
            assert(t.subrange(0, narrower as int) =~= t0);
            assert(differs_upward_at(s, t, narrower as int));
        }
    }
}

/// Below one million, minted identifiers sort in the order of their counter
/// values.
pub proof fn lemma_incident_ids_sort(a: nat, b: nat)
    requires
        a < b < 1_000_000,
    ensures
        sorts_before(incident_id_text(a), incident_id_text(b)),
{
    reveal_strlit("inc-");
    assert(pow10(6) == 1_000_000) by {
        reveal_with_fuel(pow10, 7);
    }
    lemma_zero_padded_sorts(a, b, ID_DIGITS as nat);
    let s0 = zero_padded(a, ID_DIGITS as nat);
    let t0 = zero_padded(b, ID_DIGITS as nat);
    let s = incident_id_text(a);
    let t = incident_id_text(b);
    let i = choose|i: int| differs_upward_at(s0, t0, i);
    assert(s.subrange(0, i + 4) =~= "inc-"@ + s0.subrange(0, i));
    assert(t.subrange(0, i + 4) =~= "inc-"@ + t0.subrange(0, i));
    assert(s[i + 4] == s0[i] && t[i + 4] == t0[i]);
    assert(differs_upward_at(s, t, i + 4));
}

} // verus!
