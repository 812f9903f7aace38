//! Character-level text helpers: conversions between `String` and
//! `Vec<char>`, equality and prefix tests, splitting, and exact decimal
//! rendering and parsing of integers.

use vstd::prelude::*;
use vstd::string::StrSliceExecFns;

verus! {

// ---------------------------------------------------------------------------
// Decimal rendering
// ---------------------------------------------------------------------------

/// The character for one decimal digit.
pub open spec fn digit_char(d: nat) -> char {
    if d == 0 {
        '0'
    } else if d == 1 {
        '1'
    } else if d == 2 {
        '2'
    } else if d == 3 {
        '3'
    } else if d == 4 {
        '4'
    } else if d == 5 {
        '5'
    } else if d == 6 {
        '6'
    } else if d == 7 {
        '7'
    } else if d == 8 {
        '8'
    } else {
        '9'
    }
}

/// The decimal digits of `n`, most significant first, without a sign and
/// without leading zeros (except for `n == 0`, rendered as "0").
pub open spec fn dec_digits(n: nat) -> Seq<char>
    decreases n,
{
    if n < 10 {
        seq![digit_char(n)]
    } else {
        dec_digits(n / 10).push(digit_char(n % 10))
    }
}

/// The usual decimal rendering of an integer: a '-' sign for negative
/// values, then the digits.
pub open spec fn int_str(v: int) -> Seq<char> {
    if v < 0 {
        seq!['-'] + dec_digits((-v) as nat)
    } else {
        dec_digits(v as nat)
    }
}

/// The numeric value of a decimal digit character, or -1 for any other
/// character.
pub open spec fn digit_val(c: char) -> int {
    if c == '0' {
        0
    } else if c == '1' {
        1
    } else if c == '2' {
        2
    } else if c == '3' {
        3
    } else if c == '4' {
        4
    } else if c == '5' {
        5
    } else if c == '6' {
        6
    } else if c == '7' {
        7
    } else if c == '8' {
        8
    } else if c == '9' {
        9
    } else {
        -1
    }
}

/// `c` is a decimal digit.
pub open spec fn is_digit(c: char) -> bool {
    digit_val(c) >= 0
}

/// Every character of `s` is a decimal digit.
pub open spec fn all_digits(s: Seq<char>) -> bool {
    forall|i: int| 0 <= i < s.len() ==> is_digit(#[trigger] s[i])
}

/// The value of a digit string, read left to right; 0 for the empty string.
pub open spec fn digits_val(s: Seq<char>) -> int
    decreases s.len(),
{
    if s.len() == 0 {
        0
    } else {
        digits_val(s.drop_last()) * 10 + digit_val(s.last())
    }
}

/// `s` is a decimal integer literal as `str::parse` for a signed integer
/// accepts it: an optional single `+` or `-` sign, then one or more digits.
pub open spec fn is_int_literal(s: Seq<char>) -> bool {
    if s.len() == 0 {
        false
    } else if s[0] == '+' || s[0] == '-' {
        s.len() > 1 && all_digits(s.subrange(1, s.len() as int))
    } else {
        all_digits(s)
    }
}

/// The signed value of an integer literal.
pub open spec fn int_literal_val(s: Seq<char>) -> int {
    if s.len() > 0 && s[0] == '-' {
        -digits_val(s.subrange(1, s.len() as int))
    } else if s.len() > 0 && s[0] == '+' {
        digits_val(s.subrange(1, s.len() as int))
    } else {
        digits_val(s)
    }
}

/// A digit string never has a negative value.
pub proof fn lemma_digits_val_nonneg(s: Seq<char>)
    requires
        all_digits(s),
    ensures
        digits_val(s) >= 0,
    decreases s.len(),
{
    if s.len() > 0 {
        assert(all_digits(s.drop_last()));
        lemma_digits_val_nonneg(s.drop_last());
        let p = digits_val(s.drop_last());
        assert(p * 10 >= 0) by (nonlinear_arith)
            requires
                p >= 0,
        ;
    }
}

// ---------------------------------------------------------------------------
// String <-> Vec<char>
// ---------------------------------------------------------------------------

/// Relies on String::push: appends exactly the given character.
#[verifier::external_body]
pub fn push_char(s: &mut String, c: char)
    ensures
        final(s)@ == old(s)@.push(c),
{
    s.push(c);
}

/// The characters of `s`, in order.
pub fn chars_of(s: &str) -> (v: Vec<char>)
    ensures
        v@ == s@,
{
    let n: usize = s.unicode_len();
    let mut v: Vec<char> = Vec::new();
    let mut i: usize = 0;
    while i < n
        invariant
            i <= n,
            n == s@.len(),
            v@ == s@.subrange(0, i as int),
        decreases n - i,
    {
        let c = s.get_char(i);
        v.push(c);
        i = i + 1;
        proof {
            assert(v@ =~= s@.subrange(0, i as int));
        }
    }
    proof {
        assert(v@ =~= s@);
    }
    v
}

/// A `String` holding exactly the given characters.
pub fn string_from_chars(v: &Vec<char>) -> (s: String)
    ensures
        s@ == v@,
{
    let mut s = String::new();
    let mut i: usize = 0;
    while i < v.len()
        invariant
            i <= v.len(),
            s@ == v@.subrange(0, i as int),
        decreases v.len() - i,
    {
        push_char(&mut s, v[i]);
        i = i + 1;
        proof {
            assert(s@ =~= v@.subrange(0, i as int));
        }
    }
    proof {
        assert(s@ =~= v@);
    }
    s
}

// ---------------------------------------------------------------------------
// Equality, prefixes, slices
// ---------------------------------------------------------------------------

/// Exact character-sequence equality of two character vectors.
pub fn chars_eq(a: &Vec<char>, b: &Vec<char>) -> (r: bool)
    ensures
        r == (a@ == b@),
{
    if a.len() != b.len() {
        proof {
            assert(a@ != b@) by {
                if a@ == b@ {
                    assert(a@.len() == b@.len());
                }
            }
        }
        return false;
    }
    let mut i: usize = 0;
    while i < a.len()
        invariant
            i <= a.len(),
            a@.len() == b@.len(),
            forall|j: int| 0 <= j < i ==> a@[j] == b@[j],
        decreases a.len() - i,
    {
        if a[i] != b[i] {
            proof {
                assert(a@ != b@) by {
                    if a@ == b@ {
                        assert(a@[i as int] == b@[i as int]);
                    }
                }
            }
            return false;
        }
        i = i + 1;
    }
    proof {
        assert(a@ =~= b@);
    }
    true
}

/// Exact equality of two string slices, by their character sequences.
pub fn str_eq(a: &str, b: &str) -> (r: bool)
    ensures
        r == (a@ == b@),
{
    let va = chars_of(a);
    let vb = chars_of(b);
    chars_eq(&va, &vb)
}

/// `p` is an initial segment of `s`.
pub open spec fn is_prefix(p: Seq<char>, s: Seq<char>) -> bool {
    p.len() <= s.len() && s.subrange(0, p.len() as int) == p
}

/// Whether the characters `p` stand at the start of `s`.
pub fn chars_starts_with(s: &Vec<char>, p: &Vec<char>) -> (r: bool)
    ensures
        r == is_prefix(p@, s@),
{
    if p.len() > s.len() {
        return false;
    }
    let mut i: usize = 0;
    while i < p.len()
        invariant
            i <= p.len(),
            p.len() <= s.len(),
            forall|j: int| 0 <= j < i ==> s@[j] == p@[j],
        decreases p.len() - i,
    {
        if s[i] != p[i] {
            proof {
                assert(!is_prefix(p@, s@)) by {
                    if is_prefix(p@, s@) {
                        assert(s@.subrange(0, p@.len() as int)[i as int] == p@[i as int]);
                    }
                }
            }
            return false;
        }
        i = i + 1;
    }
    proof {
        assert(s@.subrange(0, p@.len() as int) =~= p@);
    }
    true
}

/// A copy of the characters of `s` between `from` and `to`.
pub fn subvec(s: &Vec<char>, from: usize, to: usize) -> (r: Vec<char>)
    requires
        from <= to <= s@.len(),
    ensures
        r@ == s@.subrange(from as int, to as int),
{
    let mut r: Vec<char> = Vec::new();
    let mut i: usize = from;
    while i < to
        invariant
            from <= i <= to <= s@.len(),
            r@ == s@.subrange(from as int, i as int),
        decreases to - i,
    {
        r.push(s[i]);
        i = i + 1;
        proof {
            assert(r@ =~= s@.subrange(from as int, i as int));
        }
    }
    r
}

// ---------------------------------------------------------------------------
// Searching and splitting
// ---------------------------------------------------------------------------

/// The least index `>= j` where `c` occurs in `s`, or `s.len()` if there is
/// none.
pub open spec fn find_from(s: Seq<char>, j: int, c: char) -> int
    decreases s.len() - j,
{
    if j < 0 || j >= s.len() {
        s.len() as int
    } else if s[j] == c {
        j
    } else {
        find_from(s, j + 1, c)
    }
}

/// If nothing in `[i, j)` is `c`, and `j` is the end or holds `c`, then `j`
/// is where the search from `i` lands.
pub proof fn lemma_find_from_scan(s: Seq<char>, i: int, j: int, c: char)
    requires
        0 <= i <= j <= s.len(),
        forall|t: int| i <= t < j ==> s[t] != c,
        j == s.len() || s[j] == c,
    ensures
        find_from(s, i, c) == j,
    decreases j - i,
{
    if i < j {
        lemma_find_from_scan(s, i + 1, j, c);
    }
}

/// The pieces of `s` between occurrences of `sep`, in order; empty pieces
/// are kept, as `str::split` keeps them.
pub open spec fn split_on(s: Seq<char>, sep: char) -> Seq<Seq<char>>
    decreases s.len(),
{
    let k = find_from(s, 0, sep);
    if 0 <= k < s.len() {
        seq![s.subrange(0, k)] + split_on(s.subrange(k + 1, s.len() as int), sep)
    } else {
        seq![s]
    }
}

/// The tokens of `s` split on the space character.
pub fn split_spaces(s: &Vec<char>) -> (parts: Vec<Vec<char>>)
    ensures
        parts.deep_view() == split_on(s@, ' '),
    decreases s@.len(),
{
    let n: usize = s.len();
    let mut j: usize = 0;
    while j < n && s[j] != ' '
        invariant
            j <= n,
            n == s@.len(),
            forall|t: int| 0 <= t < j ==> s@[t] != ' ',
        decreases n - j,
    {
        j = j + 1;
    }
    proof {
        lemma_find_from_scan(s@, 0, j as int, ' ');
    }
    if j == n {
        let head = subvec(s, 0, n);
        let mut parts: Vec<Vec<char>> = Vec::new();
        parts.push(head);
        proof {
            assert(s@.subrange(0, n as int) =~= s@);
            assert(head.deep_view() =~= head@);
            assert(parts.deep_view() =~~= split_on(s@, ' '));
        }
        parts
    } else {
        let head = subvec(s, 0, j);
        let tail = subvec(s, j + 1, n);
        let mut parts = split_spaces(&tail);
        parts.insert(0, head);
        proof {
            assert(head.deep_view() =~= head@);
            assert(parts.deep_view() =~~= split_on(s@, ' '));
        }
        parts
    }
}

// ---------------------------------------------------------------------------
// Executable digit helpers
// ---------------------------------------------------------------------------

/// The character for a digit below ten.
pub fn digit_char_exec(d: u64) -> (c: char)
    requires
        d < 10,
    ensures
        c == digit_char(d as nat),
{
    if d == 0 {
        '0'
    } else if d == 1 {
        '1'
    } else if d == 2 {
        '2'
    } else if d == 3 {
        '3'
    } else if d == 4 {
        '4'
    } else if d == 5 {
        '5'
    } else if d == 6 {
        '6'
    } else if d == 7 {
        '7'
    } else if d == 8 {
        '8'
    } else {
        '9'
    }
}

/// The value of a digit character, or -1 for any other character.
pub fn digit_val_exec(c: char) -> (d: i32)
    ensures
        d == digit_val(c),
{
    if c == '0' {
        0
    } else if c == '1' {
        1
    } else if c == '2' {
        2
    } else if c == '3' {
        3
    } else if c == '4' {
        4
    } else if c == '5' {
        5
    } else if c == '6' {
        6
    } else if c == '7' {
        7
    } else if c == '8' {
        8
    } else if c == '9' {
        9
    } else {
        -1
    }
}

/// The characters of `v`, in reverse order.
pub fn reverse_chars(v: &Vec<char>) -> (r: Vec<char>)
    ensures
        r@ == v@.reverse(),
{
    let mut r: Vec<char> = Vec::new();
    let mut i: usize = v.len();
    while i > 0
        invariant
            i <= v.len(),
            r@.len() == v@.len() - i,
            forall|j: int| 0 <= j < r@.len() ==> r@[j] == v@[v@.len() - 1 - j],
        decreases i,
    {
        i = i - 1;
        r.push(v[i]);
    }
    proof {
        assert(r@ =~= v@.reverse());
    }
    r
}

/// The decimal digits of `m`, most significant first.
pub fn u64_digits(m: u64) -> (v: Vec<char>)
    ensures
        v@ == dec_digits(m as nat),
{
    let mut rev: Vec<char> = Vec::new();
    let mut x: u64 = m;
    proof {
        assert(dec_digits(m as nat) =~= dec_digits(x as nat) + rev@.reverse());
    }
    while x >= 10
        invariant
            dec_digits(m as nat) == dec_digits(x as nat) + rev@.reverse(),
        decreases x,
    {
        let d: u64 = x % 10;
        rev.push(digit_char_exec(d));
        let ghost old_rev = rev@.drop_last();
        x = x / 10;
        proof {
            assert(rev@.reverse() =~= seq![digit_char(d as nat)] + old_rev.reverse());
            assert(dec_digits(m as nat) =~= dec_digits(x as nat) + rev@.reverse());
        }
    }
    let ghost old_rev = rev@;
    rev.push(digit_char_exec(x));
    proof {
        assert(rev@.reverse() =~= seq![digit_char(x as nat)] + old_rev.reverse());
        assert(dec_digits(m as nat) =~= rev@.reverse());
    }
    reverse_chars(&rev)
}

/// The decimal rendering of a signed 64-bit integer.
pub fn i64_to_string(v: i64) -> (s: String)
    ensures
        s@ == int_str(v as int),
{
    if v >= 0 {
        let digits = u64_digits(v as u64);
        string_from_chars(&digits)
    } else {
        let m: u64 = if v == i64::MIN {
            9223372036854775808
        } else {
            (-v) as u64
        };
        let digits = u64_digits(m);
        let mut out: Vec<char> = Vec::new();
        out.push('-');
        let mut i: usize = 0;
        while i < digits.len()
            invariant
                i <= digits.len(),
                out@ == seq!['-'] + digits@.subrange(0, i as int),
            decreases digits.len() - i,
        {
            out.push(digits[i]);
            i = i + 1;
            proof {
                assert(out@ =~= seq!['-'] + digits@.subrange(0, i as int));
            }
        }
        proof {
            assert(digits@.subrange(0, digits@.len() as int) =~= digits@);
            assert(out@ =~= int_str(v as int));
        }
        string_from_chars(&out)
    }
}

/// The decimal rendering of a signed 32-bit integer.
pub fn i32_to_string(v: i32) -> (s: String)
    ensures
        s@ == int_str(v as int),
{
    i64_to_string(v as i64)
}

/// Parses a signed 32-bit integer exactly as `str::parse::<i32>` does:
/// an optional sign, then one or more digits, rejecting anything else and
/// any value out of range.
pub fn parse_i32(s: &Vec<char>) -> (r: Option<i32>)
    ensures
        match r {
            Some(v) => is_int_literal(s@) && i32::MIN <= int_literal_val(s@) <= i32::MAX
                && v as int == int_literal_val(s@),
            None => !(is_int_literal(s@) && i32::MIN <= int_literal_val(s@) <= i32::MAX),
        },
{
    let n: usize = s.len();
    if n == 0 {
        return None;
    }
    let c0 = s[0];
    let neg: bool = c0 == '-';
    let start: usize = if c0 == '-' || c0 == '+' {
        1
    } else {
        0
    };
    if n == start {
        return None;
    }
    let ghost body = s@.subrange(start as int, n as int);
    let mut acc: u64 = 0;
    let mut i: usize = start;
    proof {
        assert(s@.subrange(start as int, start as int) =~= Seq::<char>::empty());
    }
    while i < n
        invariant
            start <= i <= n,
            start < n,
            n == s@.len(),
            start == 0 || start == 1,
            (start == 1) == (s@[0] == '-' || s@[0] == '+'),
            neg == (s@[0] == '-'),
            all_digits(s@.subrange(start as int, i as int)),
            ({
                let dv = digits_val(s@.subrange(start as int, i as int));
                (dv <= 0x8000_0000 && acc == dv) || (dv > 0x8000_0000 && acc == 0x8000_0001)
            }),
        decreases n - i,
    {
        let d: i32 = digit_val_exec(s[i]);
        if d < 0 {
            proof {
                assert(!is_digit(s@[i as int]));
                if start == 0 {
                    assert(!all_digits(s@)) by {
                        if all_digits(s@) {
                            assert(is_digit(s@[i as int]));
                        }
                    }
                } else {
                    assert(s@.subrange(1, n as int)[i - 1] == s@[i as int]);
                    assert(!all_digits(s@.subrange(1, n as int))) by {
                        if all_digits(s@.subrange(1, n as int)) {
                            assert(is_digit(s@.subrange(1, n as int)[i - 1]));
                        }
                    }
                }
            }
            return None;
        }
        let ghost pre = s@.subrange(start as int, i as int);
        let ghost dv = digits_val(pre);
        proof {
            lemma_digits_val_nonneg(pre);
        }
        acc = acc * 10 + (d as u64);
        proof {
            let post = s@.subrange(start as int, i + 1 as int);
            assert(post.drop_last() =~= pre);
            assert(post.last() == s@[i as int]);
            assert(digits_val(post) == dv * 10 + digit_val(s@[i as int]));
            if dv > 0x8000_0000 {
                assert(dv * 10 >= dv) by (nonlinear_arith)
                    requires
                        dv >= 0,
                ;
            }
        }
        if acc > 0x8000_0000 {
            acc = 0x8000_0001;
        }
        i = i + 1;
        proof {
            assert(all_digits(s@.subrange(start as int, i as int)));
        }
    }
    proof {
        if start == 0 {
            assert(s@.subrange(0, n as int) =~= s@);
        }
        lemma_digits_val_nonneg(s@.subrange(start as int, n as int));
    }
    if neg {
        if acc > 0x8000_0000 {
            None
        } else if acc == 0x8000_0000 {
            Some(i32::MIN)
        } else {
            Some(-(acc as i32))
        }
    } else {
        if acc > 0x7FFF_FFFF {
            None
        } else {
            Some(acc as i32)
        }
    }
}

} // verus!
