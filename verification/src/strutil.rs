//! Character-sequence utilities shared by the parsers and formatters:
//! locating separator characters, string equality, and decimal digits.

use vstd::prelude::*;

verus! {

/// True when character `c` occurs somewhere in `s`.
pub open spec fn has_char(s: Seq<char>, c: char) -> bool {
    exists|i: int| 0 <= i < s.len() && s[i] == c
}

/// Index of the last occurrence of `c` in `s`, or -1 when `c` does not occur.
pub open spec fn last_index_of(s: Seq<char>, c: char) -> int
    decreases s.len(),
{
    if s.len() == 0 {
        -1
    } else if s[s.len() - 1] == c {
        s.len() - 1
    } else {
        last_index_of(s.drop_last(), c)
    }
}

pub proof fn lemma_last_index_of_props(s: Seq<char>, c: char)
    ensures
        -1 <= last_index_of(s, c) < s.len(),
        has_char(s, c) <==> 0 <= last_index_of(s, c),
        has_char(s, c) ==> s[last_index_of(s, c)] == c,
        forall|i: int| last_index_of(s, c) < i < s.len() ==> s[i] != c,
    decreases s.len(),
{
    if s.len() == 0 {
        assert(!has_char(s, c));
    } else if s[s.len() - 1] == c {
        assert(has_char(s, c));
    } else {
        let d = s.drop_last();
        lemma_last_index_of_props(d, c);
        assert(last_index_of(s, c) == last_index_of(d, c));
        if has_char(s, c) {
            let w = choose|i: int| 0 <= i < s.len() && s[i] == c;
            assert(w < s.len() - 1);
            assert(d[w] == c);
            assert(has_char(d, c));
        }
        if has_char(d, c) {
            let w = choose|i: int| 0 <= i < d.len() && d[i] == c;
            assert(s[w] == c);
            assert(has_char(s, c));
        }
        assert forall|i: int| last_index_of(s, c) < i < s.len() implies s[i] != c by {
            if i < s.len() - 1 {
                assert(s[i] == d[i]);
            }
        }
    }
}

/// A position holding `c` with no later occurrence is the last occurrence.
pub proof fn lemma_last_index_of_unique(s: Seq<char>, c: char, i: int)
    requires
        0 <= i < s.len(),
        s[i] == c,
        forall|j: int| i < j < s.len() ==> s[j] != c,
    ensures
        last_index_of(s, c) == i,
    decreases s.len(),
{
    if i == s.len() - 1 {
    } else {
        assert(s[s.len() - 1] != c);
        assert forall|j: int| i < j < s.drop_last().len() implies s.drop_last()[j] != c by {
            assert(s.drop_last()[j] == s[j]);
        }
        lemma_last_index_of_unique(s.drop_last(), c, i);
    }
}

/// The part of `s` strictly before the last occurrence of `c`.
pub open spec fn before_last(s: Seq<char>, c: char) -> Seq<char> {
    s.subrange(0, last_index_of(s, c))
}

/// The part of `s` strictly after the last occurrence of `c`.
pub open spec fn after_last(s: Seq<char>, c: char) -> Seq<char> {
    s.subrange(last_index_of(s, c) + 1, s.len() as int)
}

/// Splitting `a + [c] + b` at the last occurrence of `c` recovers `a` and `b`
/// whenever `b` itself holds no `c`.
pub proof fn lemma_split_at_last_concat(a: Seq<char>, c: char, b: Seq<char>)
    requires
        !has_char(b, c),
    ensures
        has_char(a + seq![c] + b, c),
        before_last(a + seq![c] + b, c) == a,
        after_last(a + seq![c] + b, c) == b,
{
    let s = a + seq![c] + b;
    assert(s[a.len() as int] == c);
    assert forall|j: int| a.len() < j < s.len() implies s[j] != c by {
        assert(s[j] == b[j - a.len() - 1]);
    }
    lemma_last_index_of_unique(s, c, a.len() as int);
    assert(before_last(s, c) =~= a);
    assert(after_last(s, c) =~= b);
}

/// Finds the last occurrence of `c` in `s`, scanning from the right.
pub fn find_last(s: &str, c: char) -> (r: Option<usize>)
    ensures
        match r {
            Some(i) => i == last_index_of(s@, c) && i < s@.len(),
            None => !has_char(s@, c),
        },
{
    let n = s.unicode_len();
    let mut i = n;
    while i > 0
        invariant
            i <= n,
            n == s@.len(),
            forall|j: int| i <= j < s@.len() ==> s@[j] != c,
        decreases i,
    {
        i = i - 1;
        if s.get_char(i) == c {
            proof {
                lemma_last_index_of_unique(s@, c, i as int);
            }
            return Some(i);
        }
    }
    None
}

/// Character-by-character string equality.
pub fn str_eq(a: &str, b: &str) -> (r: bool)
    ensures
        r == (a@ == b@),
{
    let na = a.unicode_len();
    let nb = b.unicode_len();
    if na != nb {
        return false;
    }
    let mut i: usize = 0;
    while i < na
        invariant
            i <= na,
            na == a@.len(),
            na == b@.len(),
            forall|j: int| 0 <= j < i ==> a@[j] == b@[j],
        decreases na - i,
    {
        if a.get_char(i) != b.get_char(i) {
            return false;
        }
        i = i + 1;
    }
    proof {
        assert(a@ =~= b@);
    }
    true
}

/// The decimal digit character for `d`, which must lie in 0 to 9.
pub open spec fn digit_char(d: int) -> char {
    if d == 0 {
        '0'
    } else if d == 1 {
        '1'
    } else if d == 2 {
        '2'
    } else if d == 3 {
        '3'
    } else if d == 4 {
        '4'
    } else if d == 5 {
        '5'
    } else if d == 6 {
        '6'
    } else if d == 7 {
        '7'
    } else if d == 8 {
        '8'
    } else {
        '9'
    }
}

/// True when `c` is a decimal digit character.
pub open spec fn is_digit(c: char) -> bool {
    48 <= c as int <= 57
}

/// The numeric value of a digit character.
pub open spec fn digit_val(c: char) -> int {
    c as int - 48
}

/// True when every character of `s` is a decimal digit.
pub open spec fn all_digits(s: Seq<char>) -> bool {
    forall|i: int| 0 <= i < s.len() ==> is_digit(#[trigger] s[i])
}

/// The canonical decimal rendering of `n`, most significant digit first.
pub open spec fn dec_digits(n: nat) -> Seq<char>
    decreases n,
{
    if n < 10 {
        seq![digit_char(n as int)]
    } else {
        dec_digits(n / 10) + seq![digit_char((n % 10) as int)]
    }
}

/// The numeric value of a digit sequence, most significant digit first.
pub open spec fn digits_val(s: Seq<char>) -> int
    decreases s.len(),
{
    if s.len() == 0 {
        0
    } else {
        digits_val(s.drop_last()) * 10 + digit_val(s.last())
    }
}

pub proof fn lemma_digits_val_nonneg(s: Seq<char>)
    requires
        all_digits(s),
    ensures
        digits_val(s) >= 0,
    decreases s.len(),
{
    if s.len() > 0 {
        let d = s.drop_last();
        assert(all_digits(d)) by {
            assert(forall|i: int| 0 <= i < d.len() ==> d[i] == s[i]);
        }
        lemma_digits_val_nonneg(d);
    }
}

/// Rendering a number and reading the digits back gives the number again.
pub proof fn lemma_dec_digits_val(n: nat)
    ensures
        dec_digits(n).len() >= 1,
        all_digits(dec_digits(n)),
        digits_val(dec_digits(n)) == n,
    decreases n,
{
    if n < 10 {
        let s = dec_digits(n);
        assert(s.len() == 1);
        assert(s.last() == digit_char(n as int));
        assert(s.drop_last() =~= Seq::<char>::empty());
        assert(digits_val(s.drop_last()) == 0);
        assert(digits_val(s) == 0 * 10 + digit_val(s.last()));
        assert(digit_val(digit_char(n as int)) == n);
    } else {
        lemma_dec_digits_val(n / 10);
        let p = dec_digits(n / 10);
        let s = dec_digits(n);
        assert(s =~= p + seq![digit_char((n % 10) as int)]);
        assert(s.drop_last() =~= p);
        assert(s.last() == digit_char((n % 10) as int));
        assert(digits_val(s) == (n / 10) * 10 + n % 10);
        assert((n / 10) * 10 + n % 10 == n) by (nonlinear_arith);
        assert forall|i: int| 0 <= i < s.len() implies is_digit(s[i]) by {
            if i < p.len() {
                assert(s[i] == p[i]);
            }
        }
    }
}

/// A digit prefix never exceeds the value of the whole digit string.
pub proof fn lemma_digits_val_prefix_le(s: Seq<char>, i: int)
    requires
        all_digits(s),
        0 <= i <= s.len(),
    ensures
        digits_val(s.subrange(0, i)) <= digits_val(s),
    decreases s.len() - i,
{
    if i == s.len() {
        assert(s.subrange(0, i) =~= s);
    } else {
        lemma_digits_val_prefix_le(s, i + 1);
        let a = s.subrange(0, i);
        let b = s.subrange(0, i + 1);
        assert(b.drop_last() =~= a);
        assert(b.last() == s[i]);
        assert(all_digits(a)) by {
            assert(forall|j: int| 0 <= j < a.len() ==> a[j] == s[j]);
        }
        lemma_digits_val_nonneg(a);
        assert(digits_val(b) == digits_val(a) * 10 + digit_val(s[i]));
        assert(digits_val(a) * 10 >= digits_val(a)) by (nonlinear_arith)
            requires digits_val(a) >= 0;
    }
}

/// Parses a non-empty all-digit token as a `u64`; `None` on any other token
/// and on overflow.
pub fn parse_u64(s: &str) -> (r: Option<u64>)
    ensures
        (r is Some) == (s@.len() > 0 && all_digits(s@) && digits_val(s@) <= u64::MAX),
        r matches Some(v) ==> v == digits_val(s@),
{
    let n = s.unicode_len();
    if n == 0 {
        return None;
    }
    let mut i: usize = 0;
    let mut acc: u64 = 0;
    while i < n
        invariant
            0 < n == s@.len(),
            i <= n,
            all_digits(s@.subrange(0, i as int)),
            acc == digits_val(s@.subrange(0, i as int)),
        decreases n - i,
    {
        let c = s.get_char(i);
        let code = c as u32;
        proof {
            assert(s@.subrange(0, i as int + 1).drop_last() =~= s@.subrange(0, i as int));
            assert(s@.subrange(0, i as int + 1).last() == s@[i as int]);
        }
        if code < 48 || code > 57 {
            assert(!is_digit(s@[i as int]));
            return None;
        }
        let d = (code - 48) as u64;
        let wide: u128 = acc as u128 * 10 + d as u128;
        if wide > u64::MAX as u128 {
            proof {
                assert(digits_val(s@.subrange(0, i as int + 1)) > u64::MAX);
                if all_digits(s@) {
                    lemma_digits_val_prefix_le(s@, i as int + 1);
                }
            }
            return None;
        }
        acc = wide as u64;
        i = i + 1;
    }
    proof {
        assert(s@.subrange(0, n as int) =~= s@);
    }
    Some(acc)
}

/// Renders `n` in canonical decimal form.
pub fn u64_to_string(n: u64) -> (s: String)
    ensures
        s@ == dec_digits(n as nat),
    decreases n,
{
    if n < 10 {
        digit_str(n).to_owned()
    } else {
        let mut s = u64_to_string(n / 10);
        s.append(digit_str(n % 10));
        assert(s@ =~= dec_digits(n as nat));
        s
    }
}

/// The one-character string for digit `d`.
fn digit_str(d: u64) -> (s: &'static str)
    requires
        d < 10,
    ensures
        s@ =~= seq![digit_char(d as int)],
{
    proof {
        reveal_strlit("0");
        reveal_strlit("1");
        reveal_strlit("2");
        reveal_strlit("3");
        reveal_strlit("4");
        reveal_strlit("5");
        reveal_strlit("6");
        reveal_strlit("7");
        reveal_strlit("8");
        reveal_strlit("9");
    }
    if d == 0 {
        "0"
    } else if d == 1 {
        "1"
    } else if d == 2 {
        "2"
    } else if d == 3 {
        "3"
    } else if d == 4 {
        "4"
    } else if d == 5 {
        "5"
    } else if d == 6 {
        "6"
    } else if d == 7 {
        "7"
    } else if d == 8 {
        "8"
    } else {
        "9"
    }
}

/// Every character of a canonical decimal rendering is a digit, so none of
/// the separator characters used by the grammar can occur in it.
pub proof fn lemma_dec_digits_no_char(n: nat, c: char)
    requires
        !is_digit(c),
    ensures
        !has_char(dec_digits(n), c),
{
    lemma_dec_digits_val(n);
}

/// The canonical decimal text of a signed integer.
pub open spec fn int_str(x: int) -> Seq<char> {
    if x < 0 {
        seq!['-'] + dec_digits((-x) as nat)
    } else {
        dec_digits(x as nat)
    }
}

/// Renders a signed integer in canonical decimal form.
pub fn i64_to_string(x: i64) -> (s: String)
    ensures
        s@ == int_str(x as int),
{
    if x >= 0 {
        u64_to_string(x as u64)
    } else {
        let mag: u64 = ((-(x as i128)) as u64);
        let mut s = String::new();
        proof {
            reveal_strlit("-");
        }
        s.append("-");
        let d = u64_to_string(mag);
        s.append(d.as_str());
        proof {
            assert(s@ =~= int_str(x as int)) by {
                reveal_strlit("-");
            }
        }
        s
    }
}

/// Strict lexicographic order on character sequences, by character code,
/// with a proper prefix ordered before its extensions.
pub open spec fn seq_char_lt(a: Seq<char>, b: Seq<char>) -> bool
    decreases a.len(),
{
    if b.len() == 0 {
        false
    } else if a.len() == 0 {
        true
    } else if a[0] == b[0] {
        seq_char_lt(a.drop_first(), b.drop_first())
    } else {
        (a[0] as int) < (b[0] as int)
    }
}

/// For any two sequences exactly one of `<`, `>`, `==` holds.
pub proof fn lemma_seq_char_lt_trichotomy(a: Seq<char>, b: Seq<char>)
    ensures
        seq_char_lt(a, b) || seq_char_lt(b, a) || a == b,
        seq_char_lt(a, b) ==> !seq_char_lt(b, a) && a != b,
        seq_char_lt(b, a) ==> !seq_char_lt(a, b) && a != b,
        a == b ==> !seq_char_lt(a, b) && !seq_char_lt(b, a),
    decreases a.len(),
{
    if a.len() == 0 && b.len() == 0 {
        assert(a =~= b);
    } else if a.len() == 0 || b.len() == 0 {
    } else if a[0] == b[0] {
        lemma_seq_char_lt_trichotomy(a.drop_first(), b.drop_first());
        if a.drop_first() == b.drop_first() {
            assert(a =~= b) by {
                assert(forall|i: int|
                    1 <= i < a.len() ==> a[i] == a.drop_first()[i - 1] && b[i]
                        == b.drop_first()[i - 1]);
            }
        }
        if a == b {
            assert(a.drop_first() =~= b.drop_first());
        }
    } else {
        assert(a[0] as int != b[0] as int);
        assert(a != b);
    }
}

/// Transitivity of the lexicographic order.
pub proof fn lemma_seq_char_lt_trans(a: Seq<char>, b: Seq<char>, c: Seq<char>)
    requires
        seq_char_lt(a, b),
        seq_char_lt(b, c),
    ensures
        seq_char_lt(a, c),
    decreases a.len(),
{
    if c.len() == 0 || b.len() == 0 || a.len() == 0 {
    } else if a[0] == b[0] && b[0] == c[0] {
        lemma_seq_char_lt_trans(a.drop_first(), b.drop_first(), c.drop_first());
    }
}

/// When the first `i` characters agree, the order is decided by the rest.
pub proof fn lemma_seq_char_lt_skip(a: Seq<char>, b: Seq<char>, i: int)
    requires
        0 <= i <= a.len(),
        i <= b.len(),
        forall|j: int| 0 <= j < i ==> a[j] == b[j],
    ensures
        seq_char_lt(a, b) == seq_char_lt(a.skip(i), b.skip(i)),
    decreases i,
{
    if i == 0 {
        assert(a.skip(0) =~= a);
        assert(b.skip(0) =~= b);
    } else {
        assert(a.drop_first() =~= a.skip(1));
        assert(b.drop_first() =~= b.skip(1));
        assert(seq_char_lt(a, b) == seq_char_lt(a.skip(1), b.skip(1)));
        assert forall|j: int| 0 <= j < i - 1 implies a.skip(1)[j] == b.skip(1)[j] by {
            assert(a.skip(1)[j] == a[j + 1]);
            assert(b.skip(1)[j] == b[j + 1]);
        }
        lemma_seq_char_lt_skip(a.skip(1), b.skip(1), i - 1);
        assert(a.skip(1).skip(i - 1) =~= a.skip(i));
        assert(b.skip(1).skip(i - 1) =~= b.skip(i));
    }
}

/// True when every character of `s` is an ASCII character.
pub open spec fn all_ascii(s: Seq<char>) -> bool {
    forall|i: int| 0 <= i < s.len() ==> (#[trigger] s[i] as int) < 128
}

/// A character occurs in a concatenation exactly when it occurs in a part.
pub proof fn lemma_has_char_concat(a: Seq<char>, b: Seq<char>, c: char)
    ensures
        has_char(a + b, c) == (has_char(a, c) || has_char(b, c)),
{
    if has_char(a, c) {
        let w = choose|i: int| 0 <= i < a.len() && a[i] == c;
        assert((a + b)[w] == c);
    }
    if has_char(b, c) {
        let w = choose|i: int| 0 <= i < b.len() && b[i] == c;
        assert((a + b)[a.len() + w] == c);
    }
    if has_char(a + b, c) {
        let w = choose|i: int| 0 <= i < (a + b).len() && (a + b)[i] == c;
        if w < a.len() {
            assert(a[w] == c);
        } else {
            assert(b[w - a.len()] == c);
        }
    }
}

/// A concatenation is ASCII exactly when both parts are.
pub proof fn lemma_all_ascii_concat(a: Seq<char>, b: Seq<char>)
    ensures
        all_ascii(a + b) == (all_ascii(a) && all_ascii(b)),
{
    if all_ascii(a) && all_ascii(b) {
        assert forall|i: int| 0 <= i < (a + b).len() implies ((a + b)[i] as int) < 128 by {
            if i < a.len() {
                assert((a + b)[i] == a[i]);
            } else {
                assert((a + b)[i] == b[i - a.len()]);
            }
        }
    }
    if all_ascii(a + b) {
        assert forall|i: int| 0 <= i < a.len() implies (a[i] as int) < 128 by {
            assert((a + b)[i] == a[i]);
        }
        assert forall|i: int| 0 <= i < b.len() implies (b[i] as int) < 128 by {
            assert((a + b)[a.len() + i] == b[i]);
        }
    }
}

/// Every digit sequence is ASCII.
pub proof fn lemma_all_digits_ascii(s: Seq<char>)
    requires
        all_digits(s),
    ensures
        all_ascii(s),
        !has_char(s, '"'),
{
}

/// Index of the first occurrence of `c` in `s` at or after `from`, or -1.
pub open spec fn first_index_from(s: Seq<char>, c: char, from: int) -> int
    decreases s.len() - from,
{
    if !(0 <= from < s.len()) {
        -1
    } else if s[from] == c {
        from
    } else {
        first_index_from(s, c, from + 1)
    }
}

pub proof fn lemma_first_index_from_props(s: Seq<char>, c: char, from: int)
    requires
        0 <= from,
    ensures
        first_index_from(s, c, from) == -1 ==> forall|i: int| from <= i < s.len() ==> s[i] != c,
        first_index_from(s, c, from) != -1 ==> from <= first_index_from(s, c, from) < s.len()
            && s[first_index_from(s, c, from)] == c && forall|i: int|
            from <= i < first_index_from(s, c, from) ==> s[i] != c,
    decreases s.len() - from,
{
    if 0 <= from < s.len() && s[from] != c {
        lemma_first_index_from_props(s, c, from + 1);
    }
}

/// A position holding `c` with no earlier occurrence from `from` on is the
/// first occurrence.
pub proof fn lemma_first_index_from_unique(s: Seq<char>, c: char, from: int, i: int)
    requires
        0 <= from <= i < s.len(),
        s[i] == c,
        forall|j: int| from <= j < i ==> s[j] != c,
    ensures
        first_index_from(s, c, from) == i,
    decreases i - from,
{
    if from < i {
        lemma_first_index_from_unique(s, c, from + 1, i);
    }
}

/// Finds the first occurrence of `c` in `s` at or after `from`.
pub fn find_char_from(s: &str, from: usize, c: char) -> (r: Option<usize>)
    requires
        from <= s@.len(),
    ensures
        match r {
            Some(i) => i == first_index_from(s@, c, from as int) && from <= i < s@.len(),
            None => first_index_from(s@, c, from as int) == -1,
        },
{
    let n = s.unicode_len();
    let mut i = from;
    while i < n
        invariant
            from <= i <= n,
            n == s@.len(),
            forall|j: int| from <= j < i ==> s@[j] != c,
        decreases n - i,
    {
        if s.get_char(i) == c {
            proof {
                lemma_first_index_from_unique(s@, c, from as int, i as int);
            }
            return Some(i);
        }
        i = i + 1;
    }
    proof {
        lemma_first_index_from_props(s@, c, from as int);
        if first_index_from(s@, c, from as int) != -1 {
            assert(s@[first_index_from(s@, c, from as int)] == c);
        }
    }
    None
}

/// End of the digit run starting at `from`: the first position at or after
/// `from` that holds no digit, or the length of `s`.
pub open spec fn digit_run_end(s: Seq<char>, from: int) -> int
    decreases s.len() - from,
{
    if !(0 <= from < s.len()) {
        from
    } else if !is_digit(s[from]) {
        from
    } else {
        digit_run_end(s, from + 1)
    }
}

pub proof fn lemma_digit_run_end_props(s: Seq<char>, from: int)
    requires
        0 <= from <= s.len(),
    ensures
        from <= digit_run_end(s, from) <= s.len(),
        all_digits(s.subrange(from, digit_run_end(s, from))),
        digit_run_end(s, from) < s.len() ==> !is_digit(s[digit_run_end(s, from)]),
    decreases s.len() - from,
{
    let e = digit_run_end(s, from);
    if from < s.len() && is_digit(s[from]) {
        lemma_digit_run_end_props(s, from + 1);
        assert forall|i: int| 0 <= i < e - from implies is_digit(
            #[trigger] s.subrange(from, e)[i],
        ) by {
            if i > 0 {
                assert(s.subrange(from, e)[i] == s.subrange(from + 1, e)[i - 1]);
            }
        }
    }
}

/// A digit run of length `k` followed by a non-digit (or the end) ends at
/// exactly `from + k`.
pub proof fn lemma_digit_run_end_exact(s: Seq<char>, from: int, k: int)
    requires
        0 <= from,
        0 <= k,
        from + k <= s.len(),
        all_digits(s.subrange(from, from + k)),
        from + k == s.len() || !is_digit(s[from + k]),
    ensures
        digit_run_end(s, from) == from + k,
    decreases k,
{
    if k == 0 {
    } else {
        assert(is_digit(s[from])) by {
            assert(s.subrange(from, from + k)[0] == s[from]);
        }
        assert forall|i: int| 0 <= i < k - 1 implies is_digit(
            #[trigger] s.subrange(from + 1, from + k)[i],
        ) by {
            assert(s.subrange(from + 1, from + k)[i] == s.subrange(from, from + k)[i + 1]);
        }
        lemma_digit_run_end_exact(s, from + 1, k - 1);
    }
}

/// Finds the end of the digit run starting at `from`.
pub fn digit_run_end_exec(s: &str, from: usize) -> (r: usize)
    requires
        from <= s@.len(),
    ensures
        r as int == digit_run_end(s@, from as int),
        from <= r <= s@.len(),
{
    let n = s.unicode_len();
    let mut i = from;
    while i < n
        invariant
            from <= i <= n,
            n == s@.len(),
            digit_run_end(s@, from as int) == digit_run_end(s@, i as int),
        decreases n - i,
    {
        let c = s.get_char(i);
        let code = c as u32;
        if code < 48 || code > 57 {
            assert(!is_digit(s@[i as int]));
            return i;
        }
        i = i + 1;
    }
    i
}

/// True when `s` holds `lit` verbatim at position `pos`.
pub open spec fn match_lit(s: Seq<char>, pos: int, lit: Seq<char>) -> bool {
    0 <= pos && pos + lit.len() <= s.len() && s.subrange(pos, pos + lit.len()) == lit
}

/// Checks whether `s` holds `lit` verbatim at position `pos`.
pub fn match_at(s: &str, pos: usize, lit: &str) -> (r: bool)
    requires
        pos <= s@.len(),
    ensures
        r == match_lit(s@, pos as int, lit@),
{
    let n = s.unicode_len();
    let ll = lit.unicode_len();
    if ll > n - pos {
        return false;
    }
    str_eq(s.substring_char(pos, pos + ll), lit)
}

/// Three-way comparison of two strings in lexicographic character order.
pub fn str_compare(a: &str, b: &str) -> (r: core::cmp::Ordering)
    ensures
        (r == core::cmp::Ordering::Less) == seq_char_lt(a@, b@),
        (r == core::cmp::Ordering::Greater) == seq_char_lt(b@, a@),
        (r == core::cmp::Ordering::Equal) == (a@ == b@),
{
    proof {
        lemma_seq_char_lt_trichotomy(a@, b@);
    }
    let na = a.unicode_len();
    let nb = b.unicode_len();
    let n = if na < nb {
        na
    } else {
        nb
    };
    let mut i: usize = 0;
    while i < n
        invariant
            i <= n,
            na == a@.len(),
            nb == b@.len(),
            n == if na < nb {
                na
            } else {
                nb
            },
            forall|j: int| 0 <= j < i ==> a@[j] == b@[j],
        decreases n - i,
    {
        let ca = a.get_char(i);
        let cb = b.get_char(i);
        if ca != cb {
            proof {
                lemma_seq_char_lt_skip(a@, b@, i as int);
                lemma_seq_char_lt_skip(b@, a@, i as int);
                assert(a@.skip(i as int)[0] == a@[i as int]);
                assert(b@.skip(i as int)[0] == b@[i as int]);
            }
            if (ca as u32) < (cb as u32) {
                return core::cmp::Ordering::Less;
            } else {
                return core::cmp::Ordering::Greater;
            }
        }
        i = i + 1;
    }
    proof {
        lemma_seq_char_lt_skip(a@, b@, n as int);
        lemma_seq_char_lt_skip(b@, a@, n as int);
    }
    if na < nb {
        proof {
            assert(a@.skip(n as int).len() == 0);
            assert(b@.skip(n as int).len() > 0);
        }
        core::cmp::Ordering::Less
    } else if nb < na {
        core::cmp::Ordering::Greater
    } else {
        proof {
            assert(a@ =~= b@);
        }
        core::cmp::Ordering::Equal
    }
}

} // verus!
