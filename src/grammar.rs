//! The two micro-grammars of the library: issue keys (`ABC-123`) and work
//! durations (`1.5h`), stated as spec functions over character sequences, with
//! the scanners that decide them.
use vstd::prelude::*;
use vstd::string::*;

verus! {

pub open spec fn is_upper(c: char) -> bool {
    'A' <= c && c <= 'Z'
}

pub open spec fn is_digit(c: char) -> bool {
    '0' <= c && c <= '9'
}

/// Length of the run of uppercase ASCII letters that starts at `i`.
pub open spec fn upper_run(s: Seq<char>, i: int) -> nat
    decreases s.len() - i,
{
    if 0 <= i < s.len() && is_upper(s[i]) {
        1 + upper_run(s, i + 1)
    } else {
        0
    }
}

/// Length of the run of ASCII digits that starts at `i`.
pub open spec fn digit_run(s: Seq<char>, i: int) -> nat
    decreases s.len() - i,
{
    if 0 <= i < s.len() && is_digit(s[i]) {
        1 + digit_run(s, i + 1)
    } else {
        0
    }
}

/// An issue key starts at `i`: two or more uppercase letters, a hyphen, and at
/// least one digit. The letters are taken greedily, so the hyphen must follow
/// the whole run of letters.
pub open spec fn key_at(s: Seq<char>, i: int) -> bool {
    let u = upper_run(s, i) as int;
    &&& 0 <= i
    &&& u >= 2
    &&& i + u + 1 < s.len()
    &&& s[i + u] == '-'
    &&& is_digit(s[i + u + 1])
}

/// Where the key that starts at `i` ends: after the whole run of digits.
pub open spec fn key_end(s: Seq<char>, i: int) -> int {
    let u = upper_run(s, i) as int;
    i + u + 1 + digit_run(s, i + u + 1) as int
}

/// `s` holds no key that starts before `i`.
pub open spec fn no_key_before(s: Seq<char>, i: int) -> bool {
    forall|j: int| 0 <= j < i ==> !#[trigger] key_at(s, j)
}

pub open spec fn has_key(s: Seq<char>) -> bool {
    exists|i: int| 0 <= i < s.len() && #[trigger] key_at(s, i)
}

/// The leftmost issue key in `s`, as the text it spans.
pub open spec fn first_key(s: Seq<char>) -> Option<Seq<char>> {
    if has_key(s) {
        let i = choose|i: int| 0 <= i < s.len() && key_at(s, i) && no_key_before(s, i);
        Some(s.subrange(i, key_end(s, i)))
    } else {
        None
    }
}

pub open spec fn digit_value(c: char) -> nat {
    ((c as u32) - ('0' as u32)) as nat
}

/// The value of a string of decimal digits, most significant first.
pub open spec fn digits_value(s: Seq<char>) -> nat
    decreases s.len(),
{
    if s.len() == 0 {
        0
    } else {
        digits_value(s.drop_last()) * 10 + digit_value(s.last())
    }
}

pub open spec fn pow10(k: nat) -> nat
    decreases k,
{
    if k == 0 {
        1
    } else {
        10 * pow10((k - 1) as nat)
    }
}

/// `n / d` rounded to the nearest integer, ties to the even neighbour.
pub open spec fn round_half_even(n: nat, d: nat) -> nat
    recommends
        d > 0,
{
    let q = n / d;
    let r = n % d;
    if 2 * r > d || (2 * r == d && q % 2 == 1) {
        q + 1
    } else {
        q
    }
}

/// Length of the integer part of the number that leads `s`.
pub open spec fn int_len(s: Seq<char>) -> int {
    digit_run(s, 0) as int
}

/// Length of its fractional part: the digits after a `.` that follows the
/// integer part; zero where no digit follows the `.`.
pub open spec fn frac_len(s: Seq<char>) -> int {
    let k = int_len(s);
    if k < s.len() && s[k] == '.' {
        digit_run(s, k + 1) as int
    } else {
        0
    }
}

/// Where the leading number ends.
pub open spec fn number_end(s: Seq<char>) -> int {
    if frac_len(s) > 0 {
        int_len(s) + 1 + frac_len(s)
    } else {
        int_len(s)
    }
}

/// The digits of the integer part.
pub open spec fn int_digits(s: Seq<char>) -> Seq<char> {
    s.subrange(0, int_len(s))
}

/// The digits of the fractional part.
pub open spec fn frac_digits(s: Seq<char>) -> Seq<char> {
    if frac_len(s) > 0 {
        s.subrange(int_len(s) + 1, int_len(s) + 1 + frac_len(s))
    } else {
        Seq::empty()
    }
}

/// Seconds in one unit: minute, hour, workday of 8 hours, workweek of 5 days.
pub open spec fn unit_seconds(c: char) -> Option<nat> {
    if c == 'm' || c == 'M' {
        Some(60)
    } else if c == 'h' || c == 'H' {
        Some(3600)
    } else if c == 'd' || c == 'D' {
        Some(28800)
    } else if c == 'w' || c == 'W' {
        Some(144000)
    } else {
        None
    }
}

/// The unit letter right after the number, minutes where there is none.
pub open spec fn duration_multiplier(s: Seq<char>) -> nat {
    let e = number_end(s);
    if 0 <= e < s.len() && unit_seconds(s[e]) is Some {
        unit_seconds(s[e])->Some_0
    } else {
        60
    }
}

/// The number of seconds that a duration text such as `1.5h` stands for; `None`
/// where the text does not start with a number. The number is
/// `int + frac / 10^frac_len`, taken exactly and rounded to the nearest second.
pub open spec fn duration_seconds(s: Seq<char>) -> Option<nat> {
    if int_len(s) == 0 {
        None
    } else {
        let q = pow10(frac_len(s) as nat);
        Some(
            round_half_even(
                (digits_value(int_digits(s)) * q + digits_value(frac_digits(s))) * duration_multiplier(
                    s,
                ),
                q,
            ),
        )
    }
}

/// The number of seconds fits in 64 bits.
pub open spec fn duration_in_range(s: Seq<char>) -> bool {
    duration_seconds(s)->Some_0 <= u64::MAX
}

pub open spec fn digit_char(d: nat) -> char {
    if d == 0 {
        '0'
    } else if d == 1 {
        '1'
    } else if d == 2 {
        '2'
    } else if d == 3 {
        '3'
    } else if d == 4 {
        '4'
    } else if d == 5 {
        '5'
    } else if d == 6 {
        '6'
    } else if d == 7 {
        '7'
    } else if d == 8 {
        '8'
    } else {
        '9'
    }
}

/// The decimal text of `n`: no sign, no leading zero.
pub open spec fn decimal_text(n: nat) -> Seq<char>
    decreases n,
{
    if n < 10 {
        seq![digit_char(n)]
    } else {
        decimal_text(n / 10).push(digit_char(n % 10))
    }
}

/// `s` begins with `p`.
pub open spec fn seq_starts_with(s: Seq<char>, p: Seq<char>) -> bool {
    p.len() <= s.len() && s.subrange(0, p.len() as int) == p
}

/// A whole string that is exactly one issue key.
pub open spec fn is_issue_key(s: Seq<char>) -> bool {
    key_at(s, 0) && key_end(s, 0) == s.len()
}

pub proof fn lemma_upper_run_bound(s: Seq<char>, i: int)
    requires
        0 <= i <= s.len(),
    ensures
        i + upper_run(s, i) <= s.len(),
        forall|j: int| i <= j < i + upper_run(s, i) ==> is_upper(#[trigger] s[j]),
    decreases s.len() - i,
{
    if i < s.len() && is_upper(s[i]) {
        lemma_upper_run_bound(s, i + 1);
    }
}

pub proof fn lemma_digit_run_bound(s: Seq<char>, i: int)
    requires
        0 <= i <= s.len(),
    ensures
        i + digit_run(s, i) <= s.len(),
        forall|j: int| i <= j < i + digit_run(s, i) ==> is_digit(#[trigger] s[j]),
    decreases s.len() - i,
{
    if i < s.len() && is_digit(s[i]) {
        lemma_digit_run_bound(s, i + 1);
    }
}

/// A run of digits depends only on the characters it covers and the one after
/// it.
pub proof fn lemma_digit_run_prefix(s: Seq<char>, t: Seq<char>, i: int)
    requires
        0 <= i <= s.len(),
        s.len() <= t.len(),
        forall|j: int| i <= j < s.len() ==> t[j] == s[j],
        s.len() < t.len() ==> !is_digit(t[s.len() as int]),
    ensures
        digit_run(t, i) == digit_run(s, i),
    decreases s.len() - i,
{
    if i < s.len() {
        lemma_digit_run_prefix(s, t, i + 1);
    }
}

/// A run of letters that ends inside `s.subrange(a, b)` is the same run there.
pub proof fn lemma_upper_run_sub(s: Seq<char>, a: int, b: int, i: int)
    requires
        0 <= a <= i <= b <= s.len(),
        i + upper_run(s, i) <= b,
    ensures
        upper_run(s.subrange(a, b), i - a) == upper_run(s, i),
    decreases b - i,
{
    if i < b && is_upper(s[i]) {
        lemma_upper_run_sub(s, a, b, i + 1);
    }
}

/// A run of digits that ends inside `s.subrange(a, b)` is the same run there.
pub proof fn lemma_digit_run_sub(s: Seq<char>, a: int, b: int, i: int)
    requires
        0 <= a <= i <= b <= s.len(),
        i + digit_run(s, i) <= b,
    ensures
        digit_run(s.subrange(a, b), i - a) == digit_run(s, i),
    decreases b - i,
{
    if i < b && is_digit(s[i]) {
        lemma_digit_run_sub(s, a, b, i + 1);
    }
}

/// The key found at `i` is, on its own, a whole issue key.
pub proof fn lemma_key_sub(s: Seq<char>, i: int)
    requires
        0 <= i < s.len(),
        key_at(s, i),
    ensures
        key_end(s, i) <= s.len(),
        is_issue_key(s.subrange(i, key_end(s, i))),
{
    let u = upper_run(s, i) as int;
    let e = key_end(s, i);
    lemma_upper_run_bound(s, i);
    lemma_digit_run_bound(s, i + u + 1);
    lemma_upper_run_sub(s, i, e, i);
    lemma_digit_run_sub(s, i, e, i + u + 1);
}

/// The leftmost key, where the scanner found it.
pub proof fn lemma_first_key_at(s: Seq<char>, i: int)
    requires
        0 <= i < s.len(),
        key_at(s, i),
        no_key_before(s, i),
    ensures
        first_key(s) == Some(s.subrange(i, key_end(s, i))),
{
    assert(has_key(s));
    let j = choose|j: int| 0 <= j < s.len() && key_at(s, j) && no_key_before(s, j);
    if j < i {
        assert(!key_at(s, j));
    } else if i < j {
        assert(!key_at(s, i));
    }
}

proof fn lemma_digit_run_all(d: Seq<char>, i: int)
    requires
        0 <= i <= d.len(),
        forall|j: int| 0 <= j < d.len() ==> is_digit(#[trigger] d[j]),
    ensures
        digit_run(d, i) == d.len() - i,
    decreases d.len() - i,
{
    if i < d.len() {
        lemma_digit_run_all(d, i + 1);
    }
}

/// A whole number, alone or followed by one unit letter, stands for that many
/// units; alone, for that many minutes.
pub proof fn lemma_whole_duration(d: Seq<char>, unit: Seq<char>)
    requires
        d.len() > 0,
        forall|j: int| 0 <= j < d.len() ==> is_digit(#[trigger] d[j]),
        unit.len() == 0 || (unit.len() == 1 && unit_seconds(unit[0]) is Some),
    ensures
        duration_seconds(d + unit) == Some(
            digits_value(d) * if unit.len() == 0 {
                60
            } else {
                unit_seconds(unit[0])->Some_0
            },
        ),
{
    let s = d + unit;
    lemma_digit_run_all(d, 0);
    lemma_digit_run_prefix(d, s, 0);
    assert(int_len(s) == d.len());
    assert(frac_len(s) == 0);
    assert(int_digits(s) =~= d);
    assert(frac_digits(s) =~= Seq::<char>::empty());
    let x = digits_value(d) * duration_multiplier(s);
    assert((digits_value(d) * 1 + 0) * duration_multiplier(s) == x);
    assert(x / 1 == x && x % 1 == 0) by (nonlinear_arith);
    assert(round_half_even(x, pow10(0)) == x);
}

/// Text that does not start with a digit is no duration.
pub proof fn lemma_no_leading_number(s: Seq<char>)
    requires
        s.len() == 0 || !is_digit(s[0]),
    ensures
        duration_seconds(s) is None,
{
}

proof fn lemma_upper_run_exact(s: Seq<char>, a: int, m: int)
    requires
        0 <= a,
        0 <= m,
        a + m < s.len(),
        forall|j: int| a <= j < a + m ==> is_upper(#[trigger] s[j]),
        !is_upper(s[a + m]),
    ensures
        upper_run(s, a) == m,
    decreases m,
{
    if m > 0 {
        lemma_upper_run_exact(s, a + 1, m - 1);
    }
}

/// Where a key starts at `a`, a leftmost key starts at `a` or before.
proof fn lemma_least_key(t: Seq<char>, a: int)
    requires
        0 <= a < t.len(),
        key_at(t, a),
    ensures
        exists|i: int| 0 <= i <= a && key_at(t, i) && no_key_before(t, i),
    decreases a,
{
    if !no_key_before(t, a) {
        let j = choose|j: int| 0 <= j < a && key_at(t, j);
        lemma_least_key(t, j);
    }
}

/// Text that holds two or more uppercase letters, a hyphen and a digit
/// somewhere holds a key: its leftmost key is a whole key, and where nothing
/// key-like starts before those letters, it is the key that they start, its
/// digits taken to their end.
pub proof fn lemma_embedded_issue_key(t: Seq<char>, a: int, m: int)
    requires
        0 <= a,
        m >= 2,
        a + m + 1 < t.len(),
        forall|j: int| a <= j < a + m ==> is_upper(#[trigger] t[j]),
        t[a + m] == '-',
        is_digit(t[a + m + 1]),
    ensures
        first_key(t) is Some,
        is_issue_key(first_key(t)->Some_0),
        no_key_before(t, a) ==> first_key(t) == Some(t.subrange(a, key_end(t, a))),
{
    lemma_upper_run_exact(t, a, m);
    assert(key_at(t, a));
    lemma_least_key(t, a);
    let i = choose|i: int| 0 <= i <= a && key_at(t, i) && no_key_before(t, i);
    lemma_first_key_at(t, i);
    lemma_key_sub(t, i);
    if no_key_before(t, a) {
        lemma_first_key_at(t, a);
    }
}

/// Scans the run of uppercase letters (or of digits) that starts at `i`.
fn scan_run(s: &str, n: usize, i: usize, upper: bool) -> (r: usize)
    requires
        n == s@.len(),
        i <= n,
    ensures
        upper ==> r == upper_run(s@, i as int),
        !upper ==> r == digit_run(s@, i as int),
{
    let mut j: usize = i;
    while j < n
        invariant
            n == s@.len(),
            i <= j <= n,
            upper ==> upper_run(s@, i as int) == (j - i) + upper_run(s@, j as int),
            !upper ==> digit_run(s@, i as int) == (j - i) + digit_run(s@, j as int),
        decreases n - j,
    {
        let c = s.get_char(j);
        let hit = if upper {
            'A' <= c && c <= 'Z'
        } else {
            '0' <= c && c <= '9'
        };
        if !hit {
            assert(upper ==> upper_run(s@, j as int) == 0);
            assert(!upper ==> digit_run(s@, j as int) == 0);
            return j - i;
        }
        j = j + 1;
    }
    assert(upper_run(s@, j as int) == 0 && digit_run(s@, j as int) == 0);
    j - i
}

/// Finds the leftmost issue key in `s`, as its start and end.
pub fn find_issue_key(s: &str) -> (r: Option<(usize, usize)>)
    ensures
        match r {
            Some((i, e)) => {
                &&& key_at(s@, i as int)
                &&& no_key_before(s@, i as int)
                &&& e == key_end(s@, i as int)
                &&& e <= s@.len()
            },
            None => !has_key(s@),
        },
{
    let n = s.unicode_len();
    let mut i: usize = 0;
    while i < n
        invariant
            n == s@.len(),
            i <= n,
            no_key_before(s@, i as int),
        decreases n - i,
    {
        let u = scan_run(s, n, i, true);
        proof {
            lemma_upper_run_bound(s@, i as int);
        }
        if u >= 2 && u < n - i - 1 {
            let h = s.get_char(i + u);
            let d = s.get_char(i + u + 1);
            if h == '-' && '0' <= d && d <= '9' {
                let dl = scan_run(s, n, i + u + 1, false);
                proof {
                    lemma_digit_run_bound(s@, (i + u + 1) as int);
                }
                return Some((i, i + u + 1 + dl));
            }
        }
        i = i + 1;
    }
    None
}

proof fn lemma_digits_value_prefix_le(t: Seq<char>, j: int, m: int)
    requires
        0 <= j <= m <= t.len(),
    ensures
        digits_value(t.subrange(0, j)) <= digits_value(t.subrange(0, m)),
    decreases m - j,
{
    if j < m {
        lemma_digits_value_prefix_le(t, j, m - 1);
        assert(t.subrange(0, m).drop_last() =~= t.subrange(0, m - 1));
    }
}

proof fn lemma_pow10_le(i: nat, j: nat)
    requires
        i <= j,
    ensures
        pow10(i) <= pow10(j),
    decreases j,
{
    if i < j {
        lemma_pow10_le(i, (j - 1) as nat);
    }
}

/// Seconds in one unit letter, as `unit_seconds` states.
fn unit_letter_seconds(c: char) -> (r: Option<u32>)
    ensures
        r is Some <==> unit_seconds(c) is Some,
        r is Some ==> r->Some_0 as nat == unit_seconds(c)->Some_0,
{
    if c == 'm' || c == 'M' {
        Some(60)
    } else if c == 'h' || c == 'H' {
        Some(3600)
    } else if c == 'd' || c == 'D' {
        Some(28800)
    } else if c == 'w' || c == 'W' {
        Some(144000)
    } else {
        None
    }
}


/// A digit string read as its first `j` digits shifted left, plus the rest.
pub proof fn lemma_digits_value_split(s: Seq<char>, j: int)
    requires
        0 <= j <= s.len(),
    ensures
        digits_value(s) == digits_value(s.subrange(0, j)) * pow10((s.len() - j) as nat)
            + digits_value(s.subrange(j, s.len() as int)),
    decreases s.len(),
{
    if j == s.len() {
        assert(s.subrange(0, j) =~= s);
        assert(s.subrange(j, s.len() as int) =~= Seq::<char>::empty());
        assert(digits_value(Seq::<char>::empty()) == 0);
        assert(pow10(0) == 1);
        assert(digits_value(s) * 1 + 0 == digits_value(s));
    } else {
        let dl = s.drop_last();
        lemma_digits_value_split(dl, j);
        assert(dl.subrange(0, j) =~= s.subrange(0, j));
        let tail = s.subrange(j, s.len() as int);
        assert(tail.drop_last() =~= dl.subrange(j, dl.len() as int));
        let p = digits_value(s.subrange(0, j));
        let t = digits_value(dl.subrange(j, dl.len() as int));
        let e = pow10((dl.len() - j) as nat);
        let d = digit_value(s.last());
        assert(tail.last() == s.last());
        assert(digits_value(s) == digits_value(dl) * 10 + d);
        assert(digits_value(tail) == t * 10 + d);
        assert(pow10((s.len() - j) as nat) == 10 * e);
        assert(digits_value(dl) == p * e + t);
        assert((p * e + t) * 10 + d == p * (10 * e) + (t * 10 + d)) by (nonlinear_arith);
        assert(digits_value(s) == p * pow10((s.len() - j) as nat) + digits_value(tail));
    }
}

/// One step of reading fraction digits from the right: with `u` and the
/// exactness of `m * t / p` known, those of `m * (c * p + t) / (10 * p)`
/// follow from `m * c + u` alone.
proof fn lemma_fraction_step(m: nat, c: nat, t: nat, p: nat, u: nat)
    requires
        p > 0,
        u == (m * t) / p,
    ensures
        (m * (c * p + t)) / (10 * p) == (m * c + u) / 10,
        ((m * (c * p + t)) % (10 * p) == 0) == ((m * c + u) % 10 == 0 && (m * t) % p == 0),
{
    let x = m * t;
    let r = x % p;
    let n = m * c + u;
    assert(x == u * p + r) by {
        vstd::arithmetic::div_mod::lemma_fundamental_div_mod(x as int, p as int);
    }
    let hi = n / 10;
    let lo = n % 10;
    assert(n == hi * 10 + lo) by {
        vstd::arithmetic::div_mod::lemma_fundamental_div_mod(n as int, 10);
    }
    assert(m * (c * p + t) == hi * (10 * p) + (lo * p + r)) by (nonlinear_arith)
        requires
            x == m * t,
            x == u * p + r,
            n == m * c + u,
            n == hi * 10 + lo,
    ;
    assert(0 <= lo * p + r < 10 * p) by (nonlinear_arith)
        requires
            lo < 10,
            r < p,
    ;
    vstd::arithmetic::div_mod::lemma_fundamental_div_mod_converse_div(
        (m * (c * p + t)) as int,
        (10 * p) as int,
        hi as int,
        (lo * p + r) as int,
    );
    vstd::arithmetic::div_mod::lemma_fundamental_div_mod_converse_mod(
        (m * (c * p + t)) as int,
        (10 * p) as int,
        hi as int,
        (lo * p + r) as int,
    );
    assert((lo * p + r == 0) == (lo == 0 && r == 0)) by (nonlinear_arith)
        requires
            p > 0,
    ;
}

/// Rounding `a + b / q`: from `g = 2b / q` and whether that division is
/// exact, without `b` itself.
proof fn lemma_round_split(a: nat, q: nat, b: nat)
    requires
        q > 0,
    ensures
        ({
            let g = (2 * b) / q;
            let exact = (2 * b) % q == 0;
            let base = a + g / 2;
            round_half_even(a * q + b, q) == if g % 2 == 1 && (!exact || base % 2 == 1) {
                base + 1
            } else {
                base
            }
        }),
        round_half_even(a * q + b, q) >= a,
{
    let qq = b / q;
    let r = b % q;
    assert(b == qq * q + r) by {
        vstd::arithmetic::div_mod::lemma_fundamental_div_mod(b as int, q as int);
    }
    assert(a * q + b == (a + qq) * q + r) by (nonlinear_arith)
        requires
            b == qq * q + r,
    ;
    vstd::arithmetic::div_mod::lemma_fundamental_div_mod_converse_div(
        (a * q + b) as int,
        q as int,
        (a + qq) as int,
        r as int,
    );
    vstd::arithmetic::div_mod::lemma_fundamental_div_mod_converse_mod(
        (a * q + b) as int,
        q as int,
        (a + qq) as int,
        r as int,
    );
    if 2 * r < q {
        assert(2 * b == (2 * qq) * q + 2 * r) by (nonlinear_arith)
            requires
                b == qq * q + r,
        ;
        vstd::arithmetic::div_mod::lemma_fundamental_div_mod_converse_div(
            (2 * b) as int,
            q as int,
            (2 * qq) as int,
            (2 * r) as int,
        );
        vstd::arithmetic::div_mod::lemma_fundamental_div_mod_converse_mod(
            (2 * b) as int,
            q as int,
            (2 * qq) as int,
            (2 * r) as int,
        );
    } else {
        assert(2 * b == (2 * qq + 1) * q + (2 * r - q)) by (nonlinear_arith)
            requires
                b == qq * q + r,
        ;
        vstd::arithmetic::div_mod::lemma_fundamental_div_mod_converse_div(
            (2 * b) as int,
            q as int,
            (2 * qq + 1) as int,
            (2 * r - q) as int,
        );
        vstd::arithmetic::div_mod::lemma_fundamental_div_mod_converse_mod(
            (2 * b) as int,
            q as int,
            (2 * qq + 1) as int,
            (2 * r - q) as int,
        );
    }
}

/// Reads the leading duration of `s` as a number of seconds.
pub fn scan_duration(s: &str) -> (r: Option<u128>)
    ensures
        r is Some <==> duration_seconds(s@) is Some && duration_in_range(s@),
        r is Some ==> r->Some_0 as nat == duration_seconds(s@)->Some_0,
{
    let n = s.unicode_len();
    let k = scan_run(s, n, 0, false);
    if k == 0 {
        return None;
    }
    proof {
        lemma_digit_run_bound(s@, 0);
    }
    let mut f: usize = 0;
    if k < n {
        let c = s.get_char(k);
        if c == '.' {
            f = scan_run(s, n, k + 1, false);
            proof {
                lemma_digit_run_bound(s@, k + 1);
            }
        }
    }
    assert(f == frac_len(s@));
    let e = if f > 0 {
        k + 1 + f
    } else {
        k
    };
    let mut mult: u64 = 60;
    if e < n {
        let u = s.get_char(e);
        match unit_letter_seconds(u) {
            Some(m) => {
                mult = m as u64;
            },
            None => {},
        }
    }
    assert(mult as nat == duration_multiplier(s@));
    assert(60 <= mult <= 144000);
    let ghost ti = int_digits(s@);
    let ghost tf = frac_digits(s@);
    let ghost q = pow10(f as nat);
    let ghost big_i = digits_value(ti);
    let ghost big_f = digits_value(tf);
    proof {
        lemma_pow10_le(0, f as nat);
        assert((big_i * q + big_f) * (mult as nat) == (big_i * (mult as nat)) * q + big_f * (
        mult as nat)) by (nonlinear_arith);
        lemma_round_split(big_i * (mult as nat), q, big_f * (mult as nat));
        assert(duration_seconds(s@)->Some_0 >= big_i * (mult as nat));
    }
    // the integer part
    let mut acc: u64 = 0;
    let mut j: usize = 0;
    while j < k
        invariant
            n == s@.len(),
            k <= n,
            ti == s@.subrange(0, k as int),
            forall|x: int| 0 <= x < k ==> is_digit(#[trigger] s@[x]),
            big_i == digits_value(ti),
            60 <= mult <= 144000,
            duration_seconds(s@) is Some,
            duration_seconds(s@)->Some_0 >= big_i * (mult as nat),
            j <= k,
            acc as nat == digits_value(ti.subrange(0, j as int)),
        decreases k - j,
    {
        let c = s.get_char(j);
        let d = ((c as u32) - ('0' as u32)) as u64;
        assert(ti.subrange(0, j + 1).drop_last() =~= ti.subrange(0, j as int));
        if acc > (u64::MAX - d) / 10 {
            proof {
                assert(acc * 10 + d > u64::MAX) by (nonlinear_arith)
                    requires
                        acc > (u64::MAX - d) / 10,
                        d <= 9,
                ;
                lemma_digits_value_prefix_le(ti, j + 1, k as int);
                assert(ti.subrange(0, k as int) =~= ti);
                assert(big_i * (mult as nat) >= big_i) by (nonlinear_arith)
                    requires
                        mult >= 1,
                ;
            }
            return None;
        }
        proof {
            assert(acc * 10 + d <= u64::MAX) by (nonlinear_arith)
                requires
                    acc <= (u64::MAX - d) / 10,
                    d <= 9,
            ;
        }
        acc = acc * 10 + d;
        j = j + 1;
    }
    assert(ti.subrange(0, k as int) =~= ti);
    // the fraction, read from its last digit: `u` is `m * x` rounded down, for
    // `x` the digits read so far as a fraction and `m` twice the unit, and
    // `exact` says whether nothing was rounded away
    let m: u64 = 2 * mult;
    let mut u: u64 = 0;
    let mut exact: bool = true;
    let mut i: usize = f;
    proof {
        assert(tf.subrange(f as int, f as int) =~= Seq::<char>::empty());
        assert(((m as nat) * 0nat) / 1nat == 0 && ((m as nat) * 0nat) % 1nat == 0) by (nonlinear_arith);
    }
    while i > 0
        invariant
            n == s@.len(),
            f > 0 ==> k + 1 + f <= n,
            tf.len() == f,
            forall|x: int| 0 <= x < f ==> tf[x] == s@[k + 1 + x] && is_digit(#[trigger] tf[x]),
            m == 2 * mult,
            mult <= 144000,
            acc as nat == big_i,
            tf == frac_digits(s@),
            i <= f,
            u < m,
            u as nat == ((m as nat) * digits_value(tf.subrange(i as int, f as int))) / pow10(
                (f - i) as nat,
            ),
            exact == (((m as nat) * digits_value(tf.subrange(i as int, f as int))) % pow10(
                (f - i) as nat,
            ) == 0),
        decreases i,
    {
        let c = s.get_char(k + i);
        assert(c == tf[i - 1]);
        let d = ((c as u32) - ('0' as u32)) as u64;
        let ghost t_old = digits_value(tf.subrange(i as int, f as int));
        let ghost p = pow10((f - i) as nat);
        proof {
            let part = tf.subrange(i - 1, f as int);
            lemma_digits_value_split(part, 1);
            assert(part.subrange(0, 1) =~= seq![c]);
            assert(seq![c].drop_last() =~= Seq::<char>::empty());
            assert(digits_value(seq![c]) == digits_value(Seq::<char>::empty()) * 10 + digit_value(c));
            assert(digits_value(seq![c]) == d);
            assert(part.subrange(1, part.len() as int) =~= tf.subrange(i as int, f as int));
            assert(digits_value(part) == d * p + t_old);
            lemma_pow10_le(0, (f - i) as nat);
            lemma_fraction_step(m as nat, d as nat, t_old, p, u as nat);
            assert(m * d + u < 10 * m) by (nonlinear_arith)
                requires
                    d <= 9,
                    u < m,
            ;
        }
        let next = m * d + u;
        u = next / 10;
        exact = exact && next % 10 == 0;
        i = i - 1;
    }
    proof {
        assert(tf.subrange(0, f as int) =~= tf);
        let b = big_f * (mult as nat);
        assert((m as nat) * big_f == 2 * b) by (nonlinear_arith)
            requires
                m == 2 * mult,
                b == big_f * (mult as nat),
        ;
        lemma_round_split(big_i * (mult as nat), q, b);
    }
    assert((acc as u128) * (mult as u128) <= u64::MAX as u128 * 144000) by (nonlinear_arith)
        requires
            acc <= u64::MAX,
            mult <= 144000,
    ;
    let base: u128 = (acc as u128) * (mult as u128) + (u / 2) as u128;
    let total = if u % 2 == 1 && (!exact || base % 2 == 1) {
        base + 1
    } else {
        base
    };
    if total > u64::MAX as u128 {
        None
    } else {
        Some(total)
    }
}

fn digit_str(d: u128) -> (r: &'static str)
    requires
        d < 10,
    ensures
        r@ == seq![digit_char(d as nat)],
{
    if d == 0 {
        proof {
            reveal_strlit("0");
        }
        "0"
    } else if d == 1 {
        proof {
            reveal_strlit("1");
        }
        "1"
    } else if d == 2 {
        proof {
            reveal_strlit("2");
        }
        "2"
    } else if d == 3 {
        proof {
            reveal_strlit("3");
        }
        "3"
    } else if d == 4 {
        proof {
            reveal_strlit("4");
        }
        "4"
    } else if d == 5 {
        proof {
            reveal_strlit("5");
        }
        "5"
    } else if d == 6 {
        proof {
            reveal_strlit("6");
        }
        "6"
    } else if d == 7 {
        proof {
            reveal_strlit("7");
        }
        "7"
    } else if d == 8 {
        proof {
            reveal_strlit("8");
        }
        "8"
    } else {
        proof {
            reveal_strlit("9");
        }
        "9"
    }
}

/// The decimal text of `n`.
pub fn decimal_string(n: u128) -> (r: String)
    ensures
        r@ == decimal_text(n as nat),
    decreases n,
{
    if n < 10 {
        digit_str(n).to_owned()
    } else {
        let mut s = decimal_string(n / 10);
        s.append(digit_str(n % 10));
        assert(s@ =~= decimal_text(n as nat));
        s
    }
}

/// Whether `s` begins with `prefix`.
pub fn has_prefix(s: &str, prefix: &str) -> (r: bool)
    ensures
        r == seq_starts_with(s@, prefix@),
{
    let n = s.unicode_len();
    let m = prefix.unicode_len();
    if m > n {
        return false;
    }
    let mut i: usize = 0;
    while i < m
        invariant
            n == s@.len(),
            m == prefix@.len(),
            m <= n,
            i <= m,
            forall|j: int| 0 <= j < i ==> s@[j] == prefix@[j],
        decreases m - i,
    {
        if s.get_char(i) != prefix.get_char(i) {
            return false;
        }
        i = i + 1;
    }
    assert(s@.subrange(0, m as int) =~= prefix@);
    true
}

/// A query value as the URL's query setter keeps it: each `#` is
/// percent-encoded, so that it cannot start a fragment.
pub open spec fn query_escape(s: Seq<char>) -> Seq<char>
    decreases s.len(),
{
    if s.len() == 0 {
        Seq::empty()
    } else {
        query_escape(s.drop_last()) + if s.last() == '#' {
            "%23"@
        } else {
            seq![s.last()]
        }
    }
}

/// Escapes a value for a query, as `query_escape` says.
pub fn escape_query_value(s: &str) -> (r: String)
    ensures
        r@ == query_escape(s@),
{
    let n = s.unicode_len();
    let mut out = String::new();
    let mut i: usize = 0;
    while i < n
        invariant
            n == s@.len(),
            i <= n,
            out@ == query_escape(s@.subrange(0, i as int)),
        decreases n - i,
    {
        let c = s.get_char(i);
        assert(s@.subrange(0, i + 1).drop_last() =~= s@.subrange(0, i as int));
        if c == '#' {
            out.append("%23");
        } else {
            let one = s.substring_char(i, i + 1);
            assert(one@ =~= seq![c]);
            out.append(one);
        }
        i = i + 1;
    }
    assert(s@.subrange(0, n as int) =~= s@);
    out
}

} // verus!
