//! Character-level helpers shared by the protocol modules.
//!
//! Strings are handled through their view, a `Seq<char>`. Executable code
//! first spreads a string into a `Vec<char>`, works on indices, and builds
//! the answer back with [`string_of`] or [`string_of_range`].

use vstd::prelude::*;
use vstd::string::StringExecFns;

verus! {

/// `String::push` appends exactly one character to the end of the string.
pub assume_specification[ String::push ](s: &mut String, c: char)
    ensures
        final(s)@ == old(s)@.push(c),
;

/// The characters of `s`, in order.
pub fn chars_of(s: &str) -> (out: Vec<char>)
    ensures
        out@ == s@,
{
    let mut out: Vec<char> = Vec::new();
    for c in it: s.chars()
        invariant
            out@ == it.seq().take(it.index()),
            it.seq() == s@,
    {
        out.push(c);
    }
    out
}

/// The string made of `v[from..to]`.
pub fn string_of_range(v: &Vec<char>, from: usize, to: usize) -> (out: String)
    requires
        from <= to <= v.len(),
    ensures
        out@ == v@.subrange(from as int, to as int),
{
    let mut out = String::new();
    let mut i: usize = from;
    while i < to
        invariant
            from <= i <= to <= v.len(),
            out@ == v@.subrange(from as int, i as int),
        decreases to - i,
    {
        out.push(v[i]);
        i += 1;
    }
    out
}

/// The string made of the characters of `v`, in order.
pub fn string_of(v: &Vec<char>) -> (out: String)
    ensures
        out@ == v@,
{
    string_of_range(v, 0, v.len())
}

/// A copy of `s` with the same characters.
pub fn copy_text(s: &str) -> (out: String)
    ensures
        out@ == s@,
{
    let mut out = String::new();
    out.append(s);
    out
}

/// `a` followed by `b`.
pub fn join(a: &str, b: &str) -> (out: String)
    ensures
        out@ == a@ + b@,
{
    let mut out = String::new();
    out.append(a);
    out.append(b);
    out
}

/// A copy of an optional string.
pub fn copy_optional_text(s: &Option<String>) -> (out: Option<String>)
    ensures
        out.deep_view() == s.deep_view(),
{
    match s {
        Some(t) => Some(copy_text(t.as_str())),
        None => None,
    }
}

/// Whether two strings hold the same characters.
pub fn same_text(a: &str, b: &str) -> (same: bool)
    ensures
        same == (a@ == b@),
{
    let x = chars_of(a);
    let y = chars_of(b);
    same_chars(&x, &y)
}

/// Whether two character vectors are equal.
pub fn same_chars(a: &Vec<char>, b: &Vec<char>) -> (same: bool)
    ensures
        same == (a@ == b@),
{
    if a.len() != b.len() {
        return false;
    }
    let mut i: usize = 0;
    while i < a.len()
        invariant
            i <= a.len(),
            a.len() == b.len(),
            a@.take(i as int) == b@.take(i as int),
        decreases a.len() - i,
    {
        if a[i] != b[i] {
            return false;
        }
        i += 1;
    }
    assert(a@.take(a.len() as int) == a@);
    assert(b@.take(b.len() as int) == b@);
    true
}

// ---------------------------------------------------------------------
// ASCII case folding
// ---------------------------------------------------------------------

/// `c` with an upper-case ASCII letter replaced by its lower-case form.
pub open spec fn ascii_lower(c: char) -> char {
    if 'A' <= c && c <= 'Z' {
        ((c as u32) + 32) as char
    } else {
        c
    }
}

/// Whether `a` and `b` are equal once ASCII letters are folded to lower case.
pub open spec fn eq_ignore_ascii_case(a: Seq<char>, b: Seq<char>) -> bool {
    a.map_values(|c: char| ascii_lower(c)) == b.map_values(|c: char| ascii_lower(c))
}

fn lower(c: char) -> (out: char)
    ensures
        out == ascii_lower(c),
{
    if 'A' <= c && c <= 'Z' {
        let code: u8 = (c as u8) + 32;
        code as char
    } else {
        c
    }
}

/// Compares two strings without regard to the case of ASCII letters.
pub fn same_text_ignore_ascii_case(a: &str, b: &str) -> (same: bool)
    ensures
        same == eq_ignore_ascii_case(a@, b@),
{
    let x = chars_of(a);
    let y = chars_of(b);
    let ghost fa = a@.map_values(|c: char| ascii_lower(c));
    let ghost fb = b@.map_values(|c: char| ascii_lower(c));
    if x.len() != y.len() {
        assert(fa.len() != fb.len());
        return false;
    }
    let mut i: usize = 0;
    while i < x.len()
        invariant
            i <= x.len(),
            x.len() == y.len(),
            x@ == a@,
            y@ == b@,
            fa == a@.map_values(|c: char| ascii_lower(c)),
            fb == b@.map_values(|c: char| ascii_lower(c)),
            forall|k: int| 0 <= k < i ==> fa[k] == fb[k],
        decreases x.len() - i,
    {
        if lower(x[i]) != lower(y[i]) {
            assert(fa[i as int] != fb[i as int]);
            return false;
        }
        i += 1;
    }
    assert(fa =~= fb);
    true
}

// ---------------------------------------------------------------------
// Searching and trimming
// ---------------------------------------------------------------------

/// The least index `i >= from` with `s[i] == c`, or `s.len()` when there is none.
pub open spec fn next_index(s: Seq<char>, c: char, from: int) -> int
    decreases s.len() - from,
{
    if from >= s.len() {
        s.len() as int
    } else if s[from] == c {
        from
    } else {
        next_index(s, c, from + 1)
    }
}

/// The index of the first `c` in `s`, or `s.len()` when `s` holds none.
pub open spec fn first_index(s: Seq<char>, c: char) -> int {
    next_index(s, c, 0)
}

/// What `next_index` returns is in range, points at `c` unless it is the
/// length, and nothing before it (from `from` on) is `c`.
pub proof fn lemma_next_index(s: Seq<char>, c: char, from: int)
    requires
        0 <= from <= s.len(),
    ensures
        from <= next_index(s, c, from) <= s.len(),
        next_index(s, c, from) < s.len() ==> s[next_index(s, c, from)] == c,
        forall|i: int| from <= i < next_index(s, c, from) ==> s[i] != c,
    decreases s.len() - from,
{
    if from < s.len() && s[from] != c {
        lemma_next_index(s, c, from + 1);
    }
}

/// An index that points at `c` with nothing equal to `c` before it is the
/// one `next_index` finds.
pub proof fn lemma_next_index_unique(s: Seq<char>, c: char, from: int, at: int)
    requires
        0 <= from <= at <= s.len(),
        at < s.len() ==> s[at] == c,
        forall|i: int| from <= i < at ==> s[i] != c,
    ensures
        next_index(s, c, from) == at,
    decreases at - from,
{
    if from < at {
        lemma_next_index_unique(s, c, from + 1, at);
    }
}

/// Finds the first `c` at or after `from`.
pub fn find_from(v: &Vec<char>, c: char, from: usize) -> (at: usize)
    requires
        from <= v.len(),
    ensures
        at == next_index(v@, c, from as int),
        from <= at <= v.len(),
{
    let mut i: usize = from;
    while i < v.len() && v[i] != c
        invariant
            from <= i <= v.len(),
            forall|k: int| from <= k < i ==> v@[k] != c,
        decreases v.len() - i,
    {
        i += 1;
    }
    proof {
        lemma_next_index_unique(v@, c, from as int, i as int);
    }
    i
}

/// How many characters equal to `c` stand at the start of `s`.
pub open spec fn leading_run(s: Seq<char>, c: char) -> int
    decreases s.len(),
{
    if s.len() > 0 && s[0] == c {
        1 + leading_run(s.skip(1), c)
    } else {
        0
    }
}

/// How many characters equal to `c` stand at the end of `s`.
pub open spec fn trailing_run(s: Seq<char>, c: char) -> int
    decreases s.len(),
{
    if s.len() > 0 && s.last() == c {
        1 + trailing_run(s.drop_last(), c)
    } else {
        0
    }
}

/// `s` without the run of `c` at its start.
pub open spec fn trim_start(s: Seq<char>, c: char) -> Seq<char> {
    s.skip(leading_run(s, c))
}

/// `s` without the run of `c` at its end.
pub open spec fn trim_end(s: Seq<char>, c: char) -> Seq<char> {
    s.take(s.len() - trailing_run(s, c))
}

/// `s` without the runs of `c` at both ends.
pub open spec fn trim_both(s: Seq<char>, c: char) -> Seq<char> {
    trim_end(trim_start(s, c), c)
}

proof fn lemma_leading_run_unique(s: Seq<char>, c: char, n: int)
    requires
        0 <= n <= s.len(),
        forall|i: int| 0 <= i < n ==> s[i] == c,
        n < s.len() ==> s[n] != c,
    ensures
        leading_run(s, c) == n,
    decreases s.len(),
{
    if n > 0 {
        let t = s.skip(1);
        lemma_leading_run_unique(t, c, n - 1);
    }
}

proof fn lemma_trailing_run_unique(s: Seq<char>, c: char, n: int)
    requires
        0 <= n <= s.len(),
        forall|i: int| s.len() - n <= i < s.len() ==> s[i] == c,
        n < s.len() ==> s[s.len() - n - 1] != c,
    ensures
        trailing_run(s, c) == n,
    decreases s.len(),
{
    if n > 0 {
        let t = s.drop_last();
        lemma_trailing_run_unique(t, c, n - 1);
    }
}

/// The index just past the run of `c` that starts at `from`.
pub fn skip_run(v: &Vec<char>, c: char, from: usize) -> (at: usize)
    requires
        from <= v.len(),
    ensures
        at == from + leading_run(v@.skip(from as int), c),
        from <= at <= v.len(),
{
    let mut i: usize = from;
    while i < v.len() && v[i] == c
        invariant
            from <= i <= v.len(),
            forall|k: int| from <= k < i ==> v@[k] == c,
        decreases v.len() - i,
    {
        i += 1;
    }
    proof {
        let t = v@.skip(from as int);
        lemma_leading_run_unique(t, c, i - from);
    }
    i
}

/// The index at which the run of `c` that ends at `to` starts.
pub fn skip_run_back(v: &Vec<char>, c: char, from: usize, to: usize) -> (at: usize)
    requires
        from <= to <= v.len(),
    ensures
        at == to - trailing_run(v@.subrange(from as int, to as int), c),
        from <= at <= to,
{
    let mut i: usize = to;
    while i > from && v[i - 1] == c
        invariant
            from <= i <= to <= v.len(),
            forall|k: int| i <= k < to ==> v@[k] == c,
        decreases i,
    {
        i -= 1;
    }
    proof {
        let t = v@.subrange(from as int, to as int);
        lemma_trailing_run_unique(t, c, to - i);
    }
    i
}

/// `s` with every `c` at either end removed.
pub fn trim_matches(s: &str, c: char) -> (out: String)
    ensures
        out@ == trim_both(s@, c),
{
    let v = chars_of(s);
    let from = skip_run(&v, c, 0);
    let to = skip_run_back(&v, c, from, v.len());
    assert(v@.skip(0) == v@);
    string_of_range(&v, from, to)
}

/// Whether `v[at..]` starts with `p`.
pub fn has_prefix_at(v: &Vec<char>, at: usize, p: &Vec<char>) -> (yes: bool)
    requires
        at <= v.len(),
    ensures
        yes == p@.is_prefix_of(v@.skip(at as int)),
{
    if p.len() > v.len() - at {
        return false;
    }
    let mut i: usize = 0;
    while i < p.len()
        invariant
            i <= p.len(),
            at + p.len() <= v.len(),
            forall|k: int| 0 <= k < i ==> p@[k] == v@[at + k],
        decreases p.len() - i,
    {
        if p[i] != v[at + i] {
            return false;
        }
        i += 1;
    }
    true
}

// ---------------------------------------------------------------------
// Decimal numbers
// ---------------------------------------------------------------------

/// The character for the digit `d` (below ten).
pub open spec fn digit_char(d: nat) -> char {
    (d + 48) as char
}

/// Whether `c` is one of `0` to `9`.
pub open spec fn is_digit(c: char) -> bool {
    '0' <= c && c <= '9'
}

/// The digit that `c` stands for.
pub open spec fn digit_value(c: char) -> nat {
    (c as u32 - 48) as nat
}

/// `n` in decimal, most significant digit first, without leading zeros.
pub open spec fn decimal(n: nat) -> Seq<char>
    decreases n,
{
    if n < 10 {
        seq![digit_char(n)]
    } else {
        decimal(n / 10).push(digit_char(n % 10))
    }
}

/// Whether every character of `s` is a decimal digit.
pub open spec fn all_digits(s: Seq<char>) -> bool {
    forall|i: int| 0 <= i < s.len() ==> is_digit(#[trigger] s[i])
}

/// The number that the digit string `s` denotes (zero for the empty string).
pub open spec fn decimal_value(s: Seq<char>) -> nat
    decreases s.len(),
{
    if s.len() == 0 {
        0
    } else {
        decimal_value(s.drop_last()) * 10 + digit_value(s.last())
    }
}

/// What reading `s` as an unsigned 64-bit decimal gives: an optional `+`,
/// then at least one digit, and a value that fits.
pub open spec fn parsed_u64(s: Seq<char>) -> Option<u64> {
    let digits = if s.len() > 0 && s[0] == '+' {
        s.skip(1)
    } else {
        s
    };
    if digits.len() > 0 && all_digits(digits) && decimal_value(digits) <= u64::MAX {
        Some(decimal_value(digits) as u64)
    } else {
        None
    }
}

/// Reading back the decimal form of a number gives the number.
pub proof fn lemma_decimal_round_trip(n: nat)
    ensures
        decimal(n).len() > 0,
        all_digits(decimal(n)),
        decimal_value(decimal(n)) == n,
        decimal(n)[0] != '+',
    decreases n,
{
    if n < 10 {
        let s = decimal(n);
        assert(decimal_value(s.drop_last()) == 0);
    } else {
        lemma_decimal_round_trip(n / 10);
        let s = decimal(n);
        assert(s.drop_last() =~= decimal(n / 10));
    }
}

/// A number written in decimal parses to itself.
pub proof fn lemma_parse_decimal(n: u64)
    ensures
        parsed_u64(decimal(n as nat)) == Some(n),
{
    lemma_decimal_round_trip(n as nat);
}

proof fn lemma_decimal_value_take(s: Seq<char>, i: int)
    requires
        0 <= i <= s.len(),
    ensures
        decimal_value(s.take(i)) <= decimal_value(s),
    decreases s.len() - i,
{
    if i < s.len() {
        let t = s.take(i + 1);
        assert(t.drop_last() =~= s.take(i));
        lemma_decimal_value_take(s, i + 1);
    } else {
        assert(s.take(i) =~= s);
    }
}

fn push_decimal(out: &mut Vec<char>, n: u128)
    ensures
        final(out)@ == old(out)@ + decimal(n as nat),
    decreases n,
{
    if n >= 10 {
        push_decimal(out, n / 10);
    }
    let d: u8 = (n % 10) as u8;
    out.push((d + 48) as char);
}

/// `n` written in decimal.
pub fn decimal_text(n: u128) -> (out: String)
    ensures
        out@ == decimal(n as nat),
{
    let mut digits: Vec<char> = Vec::new();
    push_decimal(&mut digits, n);
    string_of(&digits)
}

/// Reads `v[from..to]` as an unsigned 64-bit decimal number.
pub fn parse_u64_range(v: &Vec<char>, from: usize, to: usize) -> (out: Option<u64>)
    requires
        from <= to <= v.len(),
    ensures
        out == parsed_u64(v@.subrange(from as int, to as int)),
{
    let ghost s = v@.subrange(from as int, to as int);
    let start: usize = if from < to && v[from] == '+' {
        from + 1
    } else {
        from
    };
    let ghost digits = v@.subrange(start as int, to as int);
    proof {
        if start > from {
            assert(s.skip(1) =~= digits);
        }
    }
    if start == to {
        return None;
    }
    let mut value: u64 = 0;
    let mut i: usize = start;
    while i < to
        invariant
            from <= start <= i <= to <= v.len(),
            start < to,
            digits == v@.subrange(start as int, to as int),
            parsed_u64(v@.subrange(from as int, to as int)) == (if all_digits(digits)
                && decimal_value(digits) <= u64::MAX {
                Some(decimal_value(digits) as u64)
            } else {
                None
            }),
            all_digits(digits.take(i - start)),
            value == decimal_value(digits.take(i - start)),
        decreases to - i,
    {
        let c = v[i];
        let ghost next = digits.take(i - start + 1);
        proof {
            assert(digits[i - start] == c);
            assert(next.drop_last() =~= digits.take(i - start));
        }
        if !('0' <= c && c <= '9') {
            return None;
        }
        let d: u64 = (c as u64) - 48;
        let scaled = match value.checked_mul(10) {
            Some(x) => x,
            None => {
                proof {
                    if all_digits(digits) {
                        lemma_decimal_value_take(digits, i - start + 1);
                    }
                }
                return None;
            },
        };
        value = match scaled.checked_add(d) {
            Some(x) => x,
            None => {
                proof {
                    if all_digits(digits) {
                        lemma_decimal_value_take(digits, i - start + 1);
                    }
                }
                return None;
            },
        };
        i += 1;
    }
    assert(digits.take(to - start) =~= digits);
    Some(value)
}

/// Reads `s` as an unsigned 64-bit decimal number.
pub fn parse_u64(s: &str) -> (out: Option<u64>)
    ensures
        out == parsed_u64(s@),
{
    let v = chars_of(s);
    assert(v@.subrange(0, v.len() as int) == v@);
    parse_u64_range(&v, 0, v.len())
}

} // verus!
