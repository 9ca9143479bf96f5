use vstd::arithmetic::div_mod::{lemma_breakdown, lemma_fundamental_div_mod, lemma_mod_bound, lemma_small_mod};
use vstd::prelude::*;

verus! {

/// Largest number of fractional digits a [`Decimal`] carries.
pub const MAX_SCALE: u32 = 18;

/// `10` raised to `n`.
pub open spec fn pow10(n: nat) -> int
    decreases n,
{
    if n == 0 {
        1
    } else {
        10 * pow10((n - 1) as nat)
    }
}

pub proof fn lemma_pow10_positive(n: nat)
    ensures
        pow10(n) >= 1,
    decreases n,
{
    if n > 0 {
        lemma_pow10_positive((n - 1) as nat);
    }
}

pub proof fn lemma_pow10_monotone(a: nat, b: nat)
    requires
        a <= b,
    ensures
        pow10(a) <= pow10(b),
    decreases b,
{
    if a < b {
        lemma_pow10_monotone(a, (b - 1) as nat);
        lemma_pow10_positive((b - 1) as nat);
    }
}

pub proof fn lemma_pow10_adds(a: nat, b: nat)
    ensures
        pow10(a + b) == pow10(a) * pow10(b),
    decreases b,
{
    if b > 0 {
        lemma_pow10_adds(a, (b - 1) as nat);
        assert(pow10(a + b) == 10 * pow10((a + b - 1) as nat));
        assert(pow10(a) * pow10(b) == pow10(a) * (10 * pow10((b - 1) as nat)));
        assert(pow10(a) * (10 * pow10((b - 1) as nat)) == 10 * (pow10(a) * pow10(
            (b - 1) as nat,
        ))) by (nonlinear_arith);
    }
}

pub proof fn lemma_pow10_limits()
    ensures
        pow10(18) == 1000000000000000000,
        pow10(19) == 10000000000000000000,
{
    reveal_with_fuel(pow10, 20);
}

pub open spec fn is_digit(c: char) -> bool {
    '0' <= c && c <= '9'
}

pub open spec fn digit_value(c: char) -> int {
    (c as int) - ('0' as int)
}

pub open spec fn all_digits(d: Seq<char>) -> bool {
    forall|i: int| 0 <= i < d.len() ==> #[trigger] is_digit(d[i])
}

/// The value of a run of decimal digits, most significant first.
pub open spec fn digits_value(d: Seq<char>) -> int
    decreases d.len(),
{
    if d.len() == 0 {
        0
    } else {
        10 * digits_value(d.drop_last()) + digit_value(d.last())
    }
}

/// Number of leading sign characters (`+` or `-`) of a numeral.
pub open spec fn sign_len(s: Seq<char>) -> int {
    if s.len() > 0 && (s[0] == '-' || s[0] == '+') {
        1
    } else {
        0
    }
}

pub open spec fn is_negative(s: Seq<char>) -> bool {
    s.len() > 0 && s[0] == '-'
}

/// `b` is digits, a `.` at `k`, then digits, with at least one digit in all.
pub open spec fn dot_at(b: Seq<char>, k: int) -> bool {
    &&& 0 <= k < b.len()
    &&& b[k] == '.'
    &&& b.len() > 1
    &&& all_digits(b.take(k))
    &&& all_digits(b.skip(k + 1))
}

pub open spec fn signed(neg: bool, m: int) -> int {
    if neg {
        -m
    } else {
        m
    }
}

/// The (mantissa, scale) pair that the text `s` denotes, with value
/// `mantissa / 10^scale`: an optional sign, then digits with at most one
/// decimal point, at least one digit and at most eighteen in all.
pub open spec fn numeral(s: Seq<char>) -> Option<(int, nat)> {
    let b = s.skip(sign_len(s));
    let neg = is_negative(s);
    if 0 < b.len() <= MAX_SCALE && all_digits(b) {
        Some((signed(neg, digits_value(b)), 0nat))
    } else if b.len() <= MAX_SCALE + 1 && exists|k: int| dot_at(b, k) {
        let k = choose|k: int| dot_at(b, k);
        let fl = (b.len() - k - 1) as nat;
        Some((signed(neg, digits_value(b.take(k)) * pow10(fl) + digits_value(b.skip(k + 1))), fl))
    } else {
        None
    }
}

/// The digit character of `d`, for `0 <= d < 10`.
pub open spec fn digit_char(d: int) -> char {
    if d == 0 {
        '0'
    } else if d == 1 {
        '1'
    } else if d == 2 {
        '2'
    } else if d == 3 {
        '3'
    } else if d == 4 {
        '4'
    } else if d == 5 {
        '5'
    } else if d == 6 {
        '6'
    } else if d == 7 {
        '7'
    } else if d == 8 {
        '8'
    } else {
        '9'
    }
}

/// The last `w` decimal digits of `n`, most significant first, with leading zeros.
pub open spec fn padded(n: nat, w: nat) -> Seq<char>
    decreases w,
{
    if w == 0 {
        Seq::empty()
    } else {
        padded(n / 10, (w - 1) as nat).push(digit_char((n % 10) as int))
    }
}

proof fn lemma_padded(n: nat, w: nat)
    ensures
        padded(n, w).len() == w,
        all_digits(padded(n, w)),
        digits_value(padded(n, w)) == (n as int) % pow10(w),
    decreases w,
{
    if w == 0 {
        lemma_mod_bound(n as int, 1);
    } else {
        let p = padded(n / 10, (w - 1) as nat);
        let c = digit_char((n % 10) as int);
        lemma_padded(n / 10, (w - 1) as nat);
        lemma_mod_bound(n as int, 10);
        assert(is_digit(c) && digit_value(c) == n % 10);
        assert(padded(n, w).drop_last() =~= p);
        lemma_pow10_positive((w - 1) as nat);
        lemma_breakdown(n as int, 10, pow10((w - 1) as nat));
        assert(all_digits(padded(n, w))) by {
            assert forall|i: int| 0 <= i < padded(n, w).len() implies #[trigger] is_digit(
                padded(n, w)[i],
            ) by {
                if i < p.len() {
                    assert(padded(n, w)[i] == p[i]);
                }
            }
        }
    }
}

/// Cross-multiplied comparison of `m1 / 10^s1` with `m2 / 10^s2`.
pub open spec fn scaled_left(a: (int, nat), b: (int, nat)) -> int {
    a.0 * pow10(b.1)
}

pub open spec fn scaled_right(a: (int, nat), b: (int, nat)) -> int {
    b.0 * pow10(a.1)
}

pub open spec fn value_lt(a: (int, nat), b: (int, nat)) -> bool {
    scaled_left(a, b) < scaled_right(a, b)
}

pub open spec fn value_eq(a: (int, nat), b: (int, nat)) -> bool {
    scaled_left(a, b) == scaled_right(a, b)
}

pub open spec fn value_gt(a: (int, nat), b: (int, nat)) -> bool {
    scaled_left(a, b) > scaled_right(a, b)
}

/// An exact decimal number `mantissa / 10^scale`.
#[derive(Clone, Copy, Debug)]
pub struct Decimal {
    mantissa: i64,
    scale: u32,
}

impl View for Decimal {
    type V = (int, nat);

    closed spec fn view(&self) -> (int, nat) {
        (self.mantissa as int, self.scale as nat)
    }
}

/// Order of two numbers, as returned by [`Decimal::compare`].
#[derive(Clone, Copy, Debug, PartialEq, Eq, Structural)]
pub enum Order {
    Less,
    Equal,
    Greater,
}

pub open spec fn order_of(a: (int, nat), b: (int, nat)) -> Order {
    if value_lt(a, b) {
        Order::Less
    } else if value_eq(a, b) {
        Order::Equal
    } else {
        Order::Greater
    }
}

fn pow10_exec(n: u32) -> (r: u64)
    requires
        n <= 19,
    ensures
        r as int == pow10(n as nat),
{
    let mut r: u64 = 1;
    let mut i: u32 = 0;
    while i < n
        invariant
            i <= n <= 19,
            r as int == pow10(i as nat),
        decreases n - i,
    {
        proof {
            lemma_pow10_monotone((i + 1) as nat, 19);
            lemma_pow10_limits();
        }
        r = r * 10;
        i = i + 1;
    }
    r
}

proof fn lemma_digits_value_bound(d: Seq<char>)
    requires
        all_digits(d),
    ensures
        0 <= digits_value(d) < pow10(d.len()),
    decreases d.len(),
{
    if d.len() > 0 {
        let p = d.drop_last();
        assert(all_digits(p)) by {
            assert forall|i: int| 0 <= i < p.len() implies #[trigger] is_digit(p[i]) by {
                assert(is_digit(d[i]));
            }
        }
        lemma_digits_value_bound(p);
        assert(is_digit(d[d.len() - 1]));
    }
}

/// Reads `s@[from..to]` as digits; `None` when one of them is not a digit.
fn read_digits(s: &str, from: usize, to: usize) -> (r: Option<u64>)
    requires
        from <= to <= s@.len(),
        to - from <= 19,
    ensures
        r is Some <==> all_digits(s@.subrange(from as int, to as int)),
        r matches Some(v) ==> v as int == digits_value(s@.subrange(from as int, to as int)),
{
    let mut v: u64 = 0;
    let mut i: usize = from;
    while i < to
        invariant
            from <= i <= to <= s@.len(),
            to - from <= 19,
            all_digits(s@.subrange(from as int, i as int)),
            v as int == digits_value(s@.subrange(from as int, i as int)),
            (v as int) < pow10((i - from) as nat),
        decreases to - i,
    {
        let c = s.get_char(i);
        if !('0' <= c && c <= '9') {
            assert(s@.subrange(from as int, to as int)[i - from] == c);
            assert(!is_digit(s@.subrange(from as int, to as int)[i - from]));
            return None;
        }
        let ghost prev = s@.subrange(from as int, i as int);
        let ghost next = s@.subrange(from as int, i + 1);
        assert(next.drop_last() =~= prev);
        assert(next.last() == c);
        proof {
            lemma_pow10_monotone((i + 1 - from) as nat, 19);
            lemma_pow10_limits();
        }
        v = v * 10 + ((c as u32) - ('0' as u32)) as u64;
        i = i + 1;
        assert(all_digits(next)) by {
            assert forall|j: int| 0 <= j < next.len() implies #[trigger] is_digit(next[j]) by {
                if j < prev.len() {
                    assert(next[j] == prev[j]);
                }
            }
        }
    }
    Some(v)
}

pub open spec fn sign_text(neg: bool) -> Seq<char> {
    if neg {
        seq!['-']
    } else {
        Seq::empty()
    }
}

pub open spec fn fraction_text(f: nat, sc: nat) -> Seq<char> {
    if sc > 0 {
        seq!['.'] + padded(f, sc)
    } else {
        Seq::empty()
    }
}

/// The whole part `q` of `u / 10^sc` has `w` digits, and they fit with the
/// fraction in eighteen.
proof fn lemma_whole_part_fits(u: nat, q: nat, f: nat, sc: nat, w: nat)
    requires
        sc < 18,
        u < pow10(18),
        u == pow10(sc) * q + f,
        1 <= w <= 18,
        (q >= pow10(w)) ==> w == 18,
        w > 1 ==> q >= pow10((w - 1) as nat),
    ensures
        q < pow10(w),
        w + sc <= 18,
{
    let rest = (18 - sc) as nat;
    lemma_pow10_adds(rest, sc);
    lemma_pow10_positive(rest);
    lemma_pow10_positive(sc);
    let pi = pow10(sc);
    assert(q < pow10(rest)) by (nonlinear_arith)
        requires
            u == pi * q + f,
            u < pow10(18),
            pow10(18) == pow10(rest) * pi,
            pi >= 1,
    ;
    lemma_pow10_monotone(rest, 18);
    if w > rest {
        lemma_pow10_monotone(rest, (w - 1) as nat);
    }
}

/// The text of sign, `w` whole digits and `sc` fractional digits reads back
/// as the number it was written from.
proof fn lemma_text_reads_back(neg: bool, q: nat, w: nat, f: nat, sc: nat, u: nat)
    requires
        1 <= w,
        w + sc <= 18,
        q < pow10(w),
        f < pow10(sc),
        u == pow10(sc) * q + f,
    ensures
        numeral(sign_text(neg) + padded(q, w) + fraction_text(f, sc)) == Some((signed(neg, u as int), sc)),
{
    let s = sign_text(neg) + padded(q, w) + fraction_text(f, sc);
    lemma_padded(q, w);
    lemma_padded(f, sc);
    lemma_small_mod(q, pow10(w) as nat);
    lemma_small_mod(f, pow10(sc) as nat);
    let pq = padded(q, w);
    let pf = padded(f, sc);
    assert(is_digit(pq[0]));
    if neg {
        assert(s[0] == '-');
    } else {
        assert(s[0] == pq[0]);
    }
    let b = s.skip(sign_len(s));
    if sc == 0 {
        assert(b =~= pq);
        assert(pow10(0) == 1);
        assert(u == q);
    } else {
        assert(b =~= pq + seq!['.'] + pf);
        let k = w as int;
        assert(b.take(k) =~= pq);
        assert(b.skip(k + 1) =~= pf);
        assert(b[k] == '.');
        assert(!all_digits(b)) by {
            assert(!is_digit(b[k]));
        }
        assert(dot_at(b, k));
        assert forall|k2: int| dot_at(b, k2) implies k2 == k by {
            if k2 < k {
                assert(b[k2] == pq[k2]);
                assert(is_digit(pq[k2]));
            } else if k2 > k {
                assert(b.take(k2)[k] == '.');
                assert(!is_digit(b.take(k2)[k]));
            }
        }
        assert((b.len() - k - 1) as nat == sc);
        assert(u == q * pow10(sc) + f) by (nonlinear_arith)
            requires
                u == pow10(sc) * q + f,
        ;
    }
}

fn digit_str(d: u64) -> (r: &'static str)
    requires
        d < 10,
    ensures
        r@ == seq![digit_char(d as int)],
{
    proof {
        reveal_strlit("0");
        reveal_strlit("1");
        reveal_strlit("2");
        reveal_strlit("3");
        reveal_strlit("4");
        reveal_strlit("5");
        reveal_strlit("6");
        reveal_strlit("7");
        reveal_strlit("8");
        reveal_strlit("9");
        assert("0"@ =~= seq!['0']);
        assert("1"@ =~= seq!['1']);
        assert("2"@ =~= seq!['2']);
        assert("3"@ =~= seq!['3']);
        assert("4"@ =~= seq!['4']);
        assert("5"@ =~= seq!['5']);
        assert("6"@ =~= seq!['6']);
        assert("7"@ =~= seq!['7']);
        assert("8"@ =~= seq!['8']);
        assert("9"@ =~= seq!['9']);
    }
    if d == 0 {
        "0"
    } else if d == 1 {
        "1"
    } else if d == 2 {
        "2"
    } else if d == 3 {
        "3"
    } else if d == 4 {
        "4"
    } else if d == 5 {
        "5"
    } else if d == 6 {
        "6"
    } else if d == 7 {
        "7"
    } else if d == 8 {
        "8"
    } else {
        "9"
    }
}

/// Appends the last `w` digits of `n`, with leading zeros.
fn push_padded(out: &mut String, n: u64, w: u32)
    ensures
        final(out)@ == old(out)@ + padded(n as nat, w as nat),
    decreases w,
{
    if w > 0 {
        push_padded(out, n / 10, w - 1);
        out.append(digit_str(n % 10));
        assert(final(out)@ =~= old(out)@ + padded(n as nat, w as nat));
    } else {
        assert(old(out)@ + padded(n as nat, w as nat) =~= old(out)@);
    }
}

impl Decimal {
    /// The number `mantissa / 10^scale`; `None` when `scale` is over eighteen.
    pub fn new(mantissa: i64, scale: u32) -> (r: Option<Decimal>)
        ensures
            scale <= MAX_SCALE ==> (r matches Some(d) && d@ == (mantissa as int, scale as nat)),
            scale > MAX_SCALE ==> r is None,
    {
        if scale <= MAX_SCALE {
            Some(Decimal { mantissa, scale })
        } else {
            None
        }
    }

    pub fn mantissa(&self) -> (r: i64)
        ensures
            r as int == self@.0,
    {
        self.mantissa
    }

    pub fn scale(&self) -> (r: u32)
        ensures
            r as nat == self@.1,
            r <= MAX_SCALE,
    {
        proof {
            use_type_invariant(self);
        }
        self.scale
    }

    #[verifier::type_invariant]
    spec fn inv(self) -> bool {
        self.scale <= MAX_SCALE
    }

    /// Parses a numeral: an optional sign, digits and at most one decimal point.
    pub fn parse(s: &str) -> (r: Option<Decimal>)
        ensures
            match numeral(s@) {
                Some(v) => (r matches Some(d) && d@ == v),
                None => r is None,
            },
    {
        let n = s.unicode_len();
        let mut start: usize = 0;
        let mut neg = false;
        if n > 0 {
            let c = s.get_char(0);
            if c == '-' {
                neg = true;
                start = 1;
            } else if c == '+' {
                start = 1;
            }
        }
        let ghost b = s@.skip(sign_len(s@));
        assert(b =~= s@.subrange(start as int, n as int));
        assert(neg == is_negative(s@));
        if n - start == 0 || n - start > 19 {
            return None;
        }
        let mut k: usize = start;
        while k < n && s.get_char(k) != '.'
            invariant
                start <= k <= n,
                n == s@.len(),
                forall|j: int| start <= j < k ==> s@[j] != '.',
            decreases n - k,
        {
            k = k + 1;
        }
        if k == n {
            assert(forall|k2: int| 0 <= k2 < b.len() ==> b[k2] == s@[start + k2]);
            assert(forall|k2: int| !dot_at(b, k2));
            if n - start > 18 {
                return None;
            }
            match read_digits(s, start, n) {
                Some(v) => {
                    proof {
                        lemma_digits_value_bound(b);
                        lemma_pow10_monotone(b.len(), 18);
                        lemma_pow10_limits();
                    }
                    let m: i64 = if neg {
                        -(v as i64)
                    } else {
                        v as i64
                    };
                    Some(Decimal { mantissa: m, scale: 0 })
                },
                None => None,
            }
        } else {
            let ghost kb = k - start;
            assert(b[kb] == '.');
            assert(!all_digits(b) ) by {
                assert(!is_digit(b[kb]));
            }
            if n - start == 1 {
                return None;
            }
            assert(b.take(kb) =~= s@.subrange(start as int, k as int));
            assert(b.skip(kb + 1) =~= s@.subrange(k + 1, n as int));
            let ip = read_digits(s, start, k);
            let fp = read_digits(s, k + 1, n);
            assert(forall|k2: int| dot_at(b, k2) ==> k2 == kb) by {
                assert forall|k2: int| dot_at(b, k2) implies k2 == kb by {
                    if k2 > kb {
                        assert(b.take(k2)[kb] == '.');
                        assert(!is_digit(b.take(k2)[kb]));
                    }
                    if k2 < kb {
                        assert(b[k2] == s@[start + k2]);
                    }
                }
            }
            match (ip, fp) {
                (Some(iv), Some(fv)) => {
                    let fl: u32 = (n - k - 1) as u32;
                    assert(dot_at(b, kb));
                    proof {
                        let il = kb as nat;
                        lemma_digits_value_bound(b.take(kb));
                        lemma_digits_value_bound(b.skip(kb + 1));
                        lemma_pow10_adds(il, fl as nat);
                        lemma_pow10_monotone(il + fl as nat, 18);
                        lemma_pow10_monotone(fl as nat, 18);
                        lemma_pow10_limits();
                        let pi = pow10(il);
                        let pf = pow10(fl as nat);
                        assert(iv * pf + fv < pi * pf) by (nonlinear_arith)
                            requires
                                iv < pi,
                                fv < pf,
                                0 <= iv,
                                pf >= 1,
                        ;
                    }
                    let p = pow10_exec(fl);
                    let u: u64 = iv * p + fv;
                    let m: i64 = if neg {
                        -(u as i64)
                    } else {
                        u as i64
                    };
                    Some(Decimal { mantissa: m, scale: fl })
                },
                _ => None,
            }
        }
    }

    /// The number written as a numeral: an optional `-`, the whole part, and
    /// for a positive scale a `.` and exactly `scale` fractional digits. When
    /// it has at most eighteen digits, reading it back gives the same number.
    pub fn to_text(&self) -> (r: String)
        ensures
            self@.1 < 18 && -pow10(18) < self@.0 < pow10(18) ==> numeral(r@) == Some(self@),
    {
        proof {
            use_type_invariant(self);
            lemma_pow10_limits();
        }
        let neg = self.mantissa < 0;
        let u: u64 = if neg {
            (0i128 - self.mantissa as i128) as u64
        } else {
            self.mantissa as u64
        };
        let scale = self.scale;
        let p = pow10_exec(scale);
        proof {
            lemma_pow10_positive(scale as nat);
        }
        let q = u / p;
        let f = u % p;
        let mut w: u32 = 1;
        let mut more = q >= 10;
        proof {
            reveal_with_fuel(pow10, 2);
        }
        while more && w < 18
            invariant
                1 <= w <= 18,
                more == (q as int >= pow10(w as nat)),
                w > 1 ==> q as int >= pow10((w - 1) as nat),
            decreases 18 - w,
        {
            w = w + 1;
            more = q >= pow10_exec(w);
        }
        let mut out = String::new();
        if neg {
            out.append("-");
        }
        proof {
            reveal_strlit("-");
            reveal_strlit(".");
            assert(out@ =~= sign_text(neg));
        }
        push_padded(&mut out, q, w);
        if scale > 0 {
            out.append(".");
            push_padded(&mut out, f, scale);
        }
        proof {
            let m = self.mantissa as int;
            let sc = scale as nat;
            let pi = p as int;
            assert(out@ =~= sign_text(neg) + padded(q as nat, w as nat) + fraction_text(f as nat, sc));
            if sc < 18 && -pow10(18) < m < pow10(18) {
                lemma_fundamental_div_mod(u as int, pi);
                lemma_mod_bound(u as int, pi);
                lemma_whole_part_fits(u as nat, q as nat, f as nat, sc, w as nat);
                assert(signed(neg, u as int) == m);
                lemma_text_reads_back(neg, q as nat, w as nat, f as nat, sc, u as nat);
            }
        }
        out
    }

    /// Compares the two numbers by value.
    pub fn compare(&self, other: &Decimal) -> (r: Order)
        ensures
            r == order_of(self@, other@),
    {
        proof {
            use_type_invariant(self);
            use_type_invariant(other);
            lemma_pow10_monotone(self.scale as nat, 18);
            lemma_pow10_monotone(other.scale as nat, 18);
            lemma_pow10_positive(self.scale as nat);
            lemma_pow10_positive(other.scale as nat);
            lemma_pow10_limits();
        }
        let pa = pow10_exec(other.scale) as i128;
        let pb = pow10_exec(self.scale) as i128;
        proof {
            let ma = self.mantissa as int;
            let mb = other.mantissa as int;
            assert(-10000000000000000000000000000000000000 < ma * pa
                < 10000000000000000000000000000000000000) by (nonlinear_arith)
                requires
                    -9223372036854775808 <= ma <= 9223372036854775807,
                    1 <= pa <= 1000000000000000000,
            ;
            assert(-10000000000000000000000000000000000000 < mb * pb
                < 10000000000000000000000000000000000000) by (nonlinear_arith)
                requires
                    -9223372036854775808 <= mb <= 9223372036854775807,
                    1 <= pb <= 1000000000000000000,
            ;
        }
        let l = self.mantissa as i128 * pa;
        let g = other.mantissa as i128 * pb;
        if l < g {
            Order::Less
        } else if l == g {
            Order::Equal
        } else {
            Order::Greater
        }
    }
}

} // verus!
