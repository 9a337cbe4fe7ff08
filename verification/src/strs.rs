//! Character-level string operations: the order of keys, equality, prefixes,
//! splitting and the decimal parsing that configuration values need.
use vstd::prelude::*;
use vstd::string::*;

verus! {

/// `a` is below `b` at position `i`: they agree before `i`, and there `a` ends
/// while `b` goes on, or `a` holds the smaller character.
pub open spec fn lex_lt_at(a: Seq<char>, b: Seq<char>, i: int) -> bool {
    &&& 0 <= i <= a.len()
    &&& i <= b.len()
    &&& forall|j: int| 0 <= j < i ==> a[j] == b[j]
    &&& if i == a.len() {
        i < b.len()
    } else {
        i < b.len() && a[i] < b[i]
    }
}

/// The lexicographic order of character sequences by code point: the order in
/// which Rust compares strings, and so the order of the keys of a sorted map.
pub open spec fn lex_lt(a: Seq<char>, b: Seq<char>) -> bool {
    exists|i: int| #[trigger] lex_lt_at(a, b, i)
}

pub proof fn lemma_lex_irreflexive(a: Seq<char>)
    ensures
        !lex_lt(a, a),
{
}

pub proof fn lemma_lex_asymmetric(a: Seq<char>, b: Seq<char>)
    requires
        lex_lt(a, b),
    ensures
        !lex_lt(b, a),
        a != b,
{
    let i = choose|i: int| lex_lt_at(a, b, i);
    if lex_lt(b, a) {
        let j = choose|j: int| lex_lt_at(b, a, j);
        if i < j {
            assert(a[i] == b[i]);
        } else if j < i {
            assert(a[j] == b[j]);
        }
    }
}

pub proof fn lemma_lex_transitive(a: Seq<char>, b: Seq<char>, c: Seq<char>)
    requires
        lex_lt(a, b),
        lex_lt(b, c),
    ensures
        lex_lt(a, c),
{
    let i = choose|i: int| lex_lt_at(a, b, i);
    let j = choose|j: int| lex_lt_at(b, c, j);
    if i <= j {
        assert(lex_lt_at(a, c, i));
    } else {
        assert(lex_lt_at(a, c, j));
    }
}

proof fn lemma_lex_total_from(a: Seq<char>, b: Seq<char>, i: int)
    requires
        0 <= i <= a.len(),
        i <= b.len(),
        forall|j: int| 0 <= j < i ==> a[j] == b[j],
    ensures
        a == b || lex_lt(a, b) || lex_lt(b, a),
    decreases a.len() - i,
{
    if i == a.len() && i == b.len() {
        assert(a =~= b);
    } else if i == a.len() {
        assert(lex_lt_at(a, b, i));
    } else if i == b.len() {
        assert(lex_lt_at(b, a, i));
    } else if a[i] < b[i] {
        assert(lex_lt_at(a, b, i));
    } else if b[i] < a[i] {
        assert(lex_lt_at(b, a, i));
    } else {
        lemma_lex_total_from(a, b, i + 1);
    }
}

pub proof fn lemma_lex_total(a: Seq<char>, b: Seq<char>)
    ensures
        a == b || lex_lt(a, b) || lex_lt(b, a),
{
    lemma_lex_total_from(a, b, 0);
}

/// The three outcomes of comparing two keys.
#[derive(Clone, Copy, PartialEq, Eq, Debug)]
pub enum KeyOrder {
    Less,
    Equal,
    Greater,
}

/// Compares two strings in the order of their characters.
pub fn order_strs(a: &str, b: &str) -> (r: KeyOrder)
    ensures
        r == KeyOrder::Less <==> lex_lt(a@, b@),
        r == KeyOrder::Equal <==> a@ == b@,
        r == KeyOrder::Greater <==> lex_lt(b@, a@),
{
    let n = a.unicode_len();
    let m = b.unicode_len();
    let mut i: usize = 0;
    while i < n && i < m
        invariant
            n == a@.len(),
            m == b@.len(),
            0 <= i <= n,
            i <= m,
            forall|j: int| 0 <= j < i ==> a@[j] == b@[j],
        decreases n - i,
    {
        let ca = a.get_char(i);
        let cb = b.get_char(i);
        if ca != cb {
            if ca < cb {
                assert(lex_lt_at(a@, b@, i as int));
                proof {
                    lemma_lex_asymmetric(a@, b@);
                }
                return KeyOrder::Less;
            } else {
                assert(lex_lt_at(b@, a@, i as int));
                proof {
                    lemma_lex_asymmetric(b@, a@);
                }
                return KeyOrder::Greater;
            }
        }
        i = i + 1;
    }
    if n == m {
        assert(a@ =~= b@);
        proof {
            lemma_lex_irreflexive(a@);
        }
        KeyOrder::Equal
    } else if n < m {
        assert(lex_lt_at(a@, b@, n as int));
        proof {
            lemma_lex_asymmetric(a@, b@);
        }
        KeyOrder::Less
    } else {
        assert(lex_lt_at(b@, a@, m as int));
        proof {
            lemma_lex_asymmetric(b@, a@);
        }
        KeyOrder::Greater
    }
}

/// Whether two strings hold the same characters.
pub fn str_eq(a: &str, b: &str) -> (r: bool)
    ensures
        r == (a@ == b@),
{
    let n = a.unicode_len();
    let m = b.unicode_len();
    if n != m {
        return false;
    }
    let mut i: usize = 0;
    while i < n
        invariant
            n == a@.len(),
            m == b@.len(),
            n == m,
            0 <= i <= n,
            forall|j: int| 0 <= j < i ==> a@[j] == b@[j],
        decreases n - i,
    {
        if a.get_char(i) != b.get_char(i) {
            return false;
        }
        i = i + 1;
    }
    assert(a@ =~= b@);
    true
}

/// `p` is a prefix of `s`.
pub open spec fn has_prefix(s: Seq<char>, p: Seq<char>) -> bool {
    p.len() <= s.len() && s.subrange(0, p.len() as int) == p
}

/// Whether `s` begins with `p`.
pub fn starts_with(s: &str, p: &str) -> (r: bool)
    ensures
        r == has_prefix(s@, p@),
{
    let n = s.unicode_len();
    let m = p.unicode_len();
    if m > n {
        return false;
    }
    let mut i: usize = 0;
    while i < m
        invariant
            n == s@.len(),
            m == p@.len(),
            m <= n,
            0 <= i <= m,
            forall|j: int| 0 <= j < i ==> s@[j] == p@[j],
        decreases m - i,
    {
        if s.get_char(i) != p.get_char(i) {
            assert(s@.subrange(0, m as int)[i as int] != p@[i as int]);
            return false;
        }
        i = i + 1;
    }
    assert(s@.subrange(0, m as int) =~= p@);
    true
}

/// The position of the first `c` in `s`, if there is one.
pub open spec fn first_index_of(s: Seq<char>, c: char) -> Option<int> {
    if exists|i: int| 0 <= i < s.len() && s[i] == c {
        Some(choose|i: int| 0 <= i < s.len() && s[i] == c && forall|j: int| 0 <= j < i ==> s[j] != c)
    } else {
        None
    }
}

/// Finds the first occurrence of the character `c` in `s`.
pub fn find_char(s: &str, c: char) -> (r: Option<usize>)
    ensures
        match r {
            Some(i) => 0 <= i < s@.len() && s@[i as int] == c && forall|j: int|
                0 <= j < i ==> s@[j] != c,
            None => forall|j: int| 0 <= j < s@.len() ==> s@[j] != c,
        },
        r matches Some(i) ==> first_index_of(s@, c) == Some(i as int),
        r is None ==> first_index_of(s@, c) is None,
{
    let n = s.unicode_len();
    let mut i: usize = 0;
    while i < n
        invariant
            n == s@.len(),
            0 <= i <= n,
            forall|j: int| 0 <= j < i ==> s@[j] != c,
        decreases n - i,
    {
        if s.get_char(i) == c {
            proof {
                let k = choose|k: int|
                    0 <= k < s@.len() && s@[k] == c && forall|j: int| 0 <= j < k ==> s@[j] != c;
                assert(k == i) by {
                    if k < i {
                    } else if k > i {
                        assert(s@[i as int] == c);
                    }
                }
            }
            return Some(i);
        }
        i = i + 1;
    }
    None
}

/// A fresh string with the characters of `s`.
pub fn owned(s: &str) -> (r: String)
    ensures
        r@ == s@,
{
    String::from_str(s)
}

/// A fresh string holding `a` followed by `b`.
pub fn concat(a: &str, b: &str) -> (r: String)
    ensures
        r@ == a@ + b@,
{
    String::from_str(a).concat(b)
}

/// The characters of `s` from `from` (included) to `to` (excluded), as a string.
pub fn slice(s: &str, from: usize, to: usize) -> (r: String)
    requires
        from <= to <= s@.len(),
    ensures
        r@ == s@.subrange(from as int, to as int),
{
    String::from_str(s.substring_char(from, to))
}

/// The pieces of `s` between the occurrences of `sep`, in order: the split
/// that `str::split` makes with a character.
#[verifier::opaque]
pub open spec fn split_on(s: Seq<char>, sep: char) -> Seq<Seq<char>>
    decreases s.len(),
{
    match first_index_of(s, sep) {
        Some(i) => if 0 <= i < s.len() {
            seq![s.subrange(0, i)] + split_on(s.subrange(i + 1, s.len() as int), sep)
        } else {
            seq![s]
        },
        None => seq![s],
    }
}

/// The pieces `xs` written one after another with `sep` between each two.
pub open spec fn join_with(xs: Seq<Seq<char>>, sep: char) -> Seq<char>
    decreases xs.len(),
{
    if xs.len() == 0 {
        Seq::empty()
    } else if xs.len() == 1 {
        xs[0]
    } else {
        xs[0] + seq![sep] + join_with(xs.drop_first(), sep)
    }
}

/// No piece of `xs` holds `sep`.
pub open spec fn pieces_without(xs: Seq<Seq<char>>, sep: char) -> bool {
    forall|i: int, j: int| 0 <= i < xs.len() && 0 <= j < xs[i].len() ==> xs[i][j] != sep
}

/// Splitting pieces that do not hold the separator, joined by it, gives the
/// pieces back.
pub proof fn lemma_split_join(xs: Seq<Seq<char>>, sep: char)
    requires
        xs.len() >= 1,
        pieces_without(xs, sep),
    ensures
        split_on(join_with(xs, sep), sep) == xs,
    decreases xs.len(),
{
    reveal(split_on);
    let x0 = xs[0];
    if xs.len() == 1 {
        assert(forall|j: int| 0 <= j < x0.len() ==> x0[j] != sep);
        assert(first_index_of(x0, sep) is None);
        assert(xs =~= seq![x0]);
    } else {
        let rest = xs.drop_first();
        assert(pieces_without(rest, sep)) by {
            assert forall|i: int, j: int| 0 <= i < rest.len() && 0 <= j < rest[i].len() implies rest[i][j]
                != sep by {
                assert(rest[i] == xs[i + 1]);
            }
        }
        let r = join_with(rest, sep);
        let s = join_with(xs, sep);
        assert(s == x0 + seq![sep] + r);
        let n = x0.len() as int;
        assert(s[n] == sep);
        assert(forall|j: int| 0 <= j < n ==> s[j] == x0[j] && x0[j] != sep);
        let i = first_index_of(s, sep)->Some_0;
        assert(first_index_of(s, sep) is Some);
        if i < n {
            assert(s[i] == x0[i]);
        }
        assert(i == n);
        assert(s.subrange(0, n) =~= x0);
        assert(s.subrange(n + 1, s.len() as int) =~= r);
        lemma_split_join(rest, sep);
        assert(xs =~= seq![x0] + rest);
    }
}

/// Splits `s` at each `sep`, as `str::split` does with a character.
pub fn split_char(s: &str, sep: char) -> (r: Vec<String>)
    ensures
        r@.len() == split_on(s@, sep).len(),
        forall|k: int| 0 <= k < r@.len() ==> #[trigger] r@[k]@ == split_on(s@, sep)[k],
    decreases s@.len(),
{
    reveal(split_on);
    let n = s.unicode_len();
    match find_char(s, sep) {
        Some(i) => {
            let head = slice(s, 0, i);
            let rest_str = s.substring_char(i + 1, n);
            let rest = split_char(rest_str, sep);
            let mut out: Vec<String> = Vec::new();
            out.push(head);
            let mut k: usize = 0;
            while k < rest.len()
                invariant
                    out@.len() == k + 1,
                    out@[0]@ == s@.subrange(0, i as int),
                    0 <= k <= rest@.len(),
                    forall|q: int| 0 <= q < k ==> #[trigger] out@[q + 1]@ == rest@[q]@,
                decreases rest@.len() - k,
            {
                out.push(rest[k].clone());
                k = k + 1;
            }
            proof {
                let tail = split_on(s@.subrange(i + 1, n as int), sep);
                assert(split_on(s@, sep) == seq![s@.subrange(0, i as int)] + tail);
                assert forall|q: int| 0 <= q < out@.len() implies #[trigger] out@[q]@ == split_on(
                    s@,
                    sep,
                )[q] by {
                    if q > 0 {
                        assert(out@[(q - 1) + 1]@ == rest@[q - 1]@);
                    }
                }
            }
            out
        },
        None => {
            let mut out: Vec<String> = Vec::new();
            out.push(owned(s));
            out
        },
    }
}

/// The value of a sequence of decimal digits.
pub open spec fn digits_value(d: Seq<char>) -> int
    decreases d.len(),
{
    if d.len() == 0 {
        0
    } else {
        digits_value(d.drop_last()) * 10 + ((d.last() as u32) - ('0' as u32))
    }
}

pub open spec fn is_digit(c: char) -> bool {
    '0' <= c <= '9'
}

pub open spec fn all_digits(d: Seq<char>) -> bool {
    forall|i: int| 0 <= i < d.len() ==> is_digit(#[trigger] d[i])
}

/// What `i32::from_str` gives for `s`: an optional sign, then at least one
/// decimal digit and nothing else, with a value that fits in an `i32`.
pub open spec fn parse_i32_spec(s: Seq<char>) -> Option<int> {
    if s.len() == 0 {
        None
    } else {
        let neg = s[0] == '-';
        let d = if s[0] == '-' || s[0] == '+' {
            s.drop_first()
        } else {
            s
        };
        if d.len() == 0 || !all_digits(d) {
            None
        } else {
            let v = if neg {
                -digits_value(d)
            } else {
                digits_value(d)
            };
            if i32::MIN <= v <= i32::MAX {
                Some(v)
            } else {
                None
            }
        }
    }
}

proof fn lemma_digits_value_nonneg(d: Seq<char>)
    requires
        all_digits(d),
    ensures
        digits_value(d) >= 0,
    decreases d.len(),
{
    if d.len() > 0 {
        assert(is_digit(d[d.len() - 1]));
        assert(all_digits(d.drop_last())) by {
            assert forall|i: int| 0 <= i < d.drop_last().len() implies is_digit(
                #[trigger] d.drop_last()[i],
            ) by {
                assert(d.drop_last()[i] == d[i]);
            }
        }
        lemma_digits_value_nonneg(d.drop_last());
    }
}

/// The value of digits only grows as digits are appended.
proof fn lemma_digits_value_grows(d: Seq<char>, k: int)
    requires
        all_digits(d),
        0 <= k <= d.len(),
    ensures
        digits_value(d.subrange(0, k)) <= digits_value(d),
    decreases d.len() - k,
{
    if k < d.len() {
        lemma_digits_value_grows(d, k + 1);
        let p = d.subrange(0, k + 1);
        assert(p.drop_last() =~= d.subrange(0, k));
        assert(all_digits(d.subrange(0, k))) by {
            assert forall|i: int| 0 <= i < k implies is_digit(#[trigger] d.subrange(0, k)[i]) by {
                assert(d.subrange(0, k)[i] == d[i]);
            }
        }
        lemma_digits_value_nonneg(d.subrange(0, k));
        assert(is_digit(d[k]));
        assert(p.last() == d[k]);
    } else {
        assert(d.subrange(0, k) =~= d);
    }
}

/// The integer that the text `t` writes, if it is one that fits in an
/// `i128`: an optional `-`, then at least one decimal digit and nothing else.
pub open spec fn int_text_value(t: Seq<char>) -> Option<int> {
    let neg = t.len() > 0 && t[0] == '-';
    let d = if neg {
        t.drop_first()
    } else {
        t
    };
    if d.len() == 0 || !all_digits(d) {
        None
    } else {
        let v = if neg {
            -digits_value(d)
        } else {
            digits_value(d)
        };
        if i128::MIN <= v <= i128::MAX {
            Some(v)
        } else {
            None
        }
    }
}

/// The two readers of decimal integers agree: a text without `+` that
/// `i32::from_str` reads is read as the same integer where the numbers of
/// JSON are read.
pub proof fn lemma_int_readers_agree(t: Seq<char>)
    requires
        parse_i32_spec(t) is Some,
        t.len() > 0 && t[0] != '+',
    ensures
        int_text_value(t) == parse_i32_spec(t),
{
}

/// Reads the integer that the text `t` writes, if it fits in an `i128`.
pub fn int_of_text(t: &str) -> (r: Option<i128>)
    ensures
        match int_text_value(t@) {
            Some(v) => r == Some(v as i128),
            None => r is None,
        },
{
    let n = t.unicode_len();
    let neg = n > 0 && t.get_char(0) == '-';
    let start: usize = if neg {
        1
    } else {
        0
    };
    let ghost d = t@.subrange(start as int, n as int);
    proof {
        if neg {
            assert(d =~= t@.drop_first());
        } else {
            assert(d =~= t@);
        }
    }
    if start == n {
        assert(d.len() == 0);
        return None;
    }
    let bound: u128 = 0x8000_0000_0000_0000_0000_0000_0000_0000;
    let mut acc: u128 = 0;
    let mut i: usize = start;
    while i < n
        invariant
            n == t@.len(),
            start <= i <= n,
            start < n,
            d == t@.subrange(start as int, n as int),
            d == (if t@.len() > 0 && t@[0] == '-' { t@.drop_first() } else { t@ }),
            neg == (t@.len() > 0 && t@[0] == '-'),
            bound == 0x8000_0000_0000_0000_0000_0000_0000_0000u128,
            all_digits(t@.subrange(start as int, i as int)),
            acc == digits_value(t@.subrange(start as int, i as int)),
            0 <= acc <= bound,
        decreases n - i,
    {
        let c = t.get_char(i);
        let ghost prefix = t@.subrange(start as int, i as int);
        let ghost next = t@.subrange(start as int, i + 1);
        assert(next.drop_last() =~= prefix);
        assert(next.last() == c);
        if !('0' <= c && c <= '9') {
            assert(d[i - start] == c);
            assert(!is_digit(d[i - start]));
            assert(!all_digits(d));
            return None;
        }
        let digit = ((c as u32) - ('0' as u32)) as u128;
        assert(all_digits(next)) by {
            assert forall|q: int| 0 <= q < next.len() implies is_digit(#[trigger] next[q]) by {
                if q < next.len() - 1 {
                    assert(next[q] == prefix[q]);
                }
            }
        }
        if acc > (bound - digit) / 10 {
            proof {
                assert(acc * 10 + digit > bound) by (nonlinear_arith)
                    requires
                        acc > (bound - digit) / 10,
                        0 <= digit <= 9,
                        bound == 0x8000_0000_0000_0000_0000_0000_0000_0000u128,
                ;
                if all_digits(d) {
                    assert(next =~= d.subrange(0, (i + 1 - start) as int));
                    lemma_digits_value_grows(d, (i + 1 - start) as int);
                    assert(digits_value(next) == acc * 10 + digit);
                }
            }
            return None;
        }
        assert(acc * 10 + digit <= bound) by (nonlinear_arith)
            requires
                acc <= (bound - digit) / 10,
                0 <= digit <= 9,
                bound == 0x8000_0000_0000_0000_0000_0000_0000_0000u128,
        ;
        acc = acc * 10 + digit;
        i = i + 1;
    }
    assert(t@.subrange(start as int, i as int) =~= d);
    if neg {
        if acc == bound {
            Some(i128::MIN)
        } else {
            Some(-(acc as i128))
        }
    } else {
        if acc == bound {
            return None;
        }
        Some(acc as i128)
    }
}

/// Parses `s` as `i32::from_str` does.
pub fn parse_i32(s: &str) -> (r: Option<i32>)
    ensures
        match parse_i32_spec(s@) {
            Some(v) => r == Some(v as i32),
            None => r is None,
        },
{
    let n = s.unicode_len();
    if n == 0 {
        return None;
    }
    let first = s.get_char(0);
    let neg = first == '-';
    let start: usize = if first == '-' || first == '+' {
        1
    } else {
        0
    };
    let ghost d = s@.subrange(start as int, n as int);
    proof {
        if start == 1 {
            assert(d =~= s@.drop_first());
        } else {
            assert(d =~= s@);
        }
    }
    if start == n {
        assert(d.len() == 0);
        return None;
    }
    let mut acc: i64 = 0;
    let mut i: usize = start;
    while i < n
        invariant
            n == s@.len(),
            start <= i <= n,
            start < n,
            d == s@.subrange(start as int, n as int),
            d == (if s@[0] == '-' || s@[0] == '+' { s@.drop_first() } else { s@ }),
            neg == (s@[0] == '-'),
            all_digits(s@.subrange(start as int, i as int)),
            acc == digits_value(s@.subrange(start as int, i as int)),
            0 <= acc <= 2147483648,
        decreases n - i,
    {
        let c = s.get_char(i);
        let ghost prefix = s@.subrange(start as int, i as int);
        let ghost next = s@.subrange(start as int, i + 1);
        assert(next.drop_last() =~= prefix);
        assert(next.last() == c);
        if !('0' <= c && c <= '9') {
            assert(d[i - start] == c);
            assert(!is_digit(d[i - start]));
            assert(!all_digits(d));
            return None;
        }
        let digit = ((c as u32) - ('0' as u32)) as i64;
        let next_acc = acc * 10 + digit;
        assert(all_digits(next)) by {
            assert forall|q: int| 0 <= q < next.len() implies is_digit(#[trigger] next[q]) by {
                if q < next.len() - 1 {
                    assert(next[q] == prefix[q]);
                }
            }
        }
        if next_acc > 2147483648 {
            proof {
                if all_digits(d) {
                    assert(next =~= d.subrange(0, (i + 1 - start) as int));
                    lemma_digits_value_grows(d, (i + 1 - start) as int);
                    assert(digits_value(next) == next_acc);
                    assert(digits_value(d) > 2147483648);
                }
            }
            return None;
        }
        acc = next_acc;
        i = i + 1;
    }
    assert(s@.subrange(start as int, i as int) =~= d);
    if neg {
        let v: i64 = -acc;
        if v < -2147483648 {
            return None;
        }
        Some(v as i32)
    } else {
        if acc > 2147483647 {
            return None;
        }
        Some(acc as i32)
    }
}

} // verus!

verus! {

/// The value of the first entry of `t` whose key is `k`.
pub open spec fn assoc_lookup<V>(t: Seq<(Seq<char>, V)>, k: Seq<char>) -> Option<V>
    decreases t.len(),
{
    if t.len() == 0 {
        None
    } else if t[0].0 == k {
        Some(t[0].1)
    } else {
        assoc_lookup(t.drop_first(), k)
    }
}

/// A value found in a table is the value of one of its entries.
pub proof fn lemma_assoc_lookup_in<V>(t: Seq<(Seq<char>, V)>, k: Seq<char>)
    requires
        assoc_lookup(t, k) is Some,
    ensures
        exists|i: int| 0 <= i < t.len() && t[i].1 == assoc_lookup(t, k)->Some_0 && t[i].0 == k,
    decreases t.len(),
{
    if t[0].0 != k {
        lemma_assoc_lookup_in(t.drop_first(), k);
        let i = choose|i: int|
            0 <= i < t.drop_first().len() && t.drop_first()[i].1 == assoc_lookup(t, k)->Some_0
                && t.drop_first()[i].0 == k;
        assert(t[i + 1] == t.drop_first()[i]);
    } else {
        assert(t[0].1 == assoc_lookup(t, k)->Some_0);
    }
}

/// A key that no entry of a table holds is not found in it.
pub proof fn lemma_assoc_lookup_absent<V>(t: Seq<(Seq<char>, V)>, k: Seq<char>)
    requires
        forall|i: int| 0 <= i < t.len() ==> #[trigger] t[i].0 != k,
    ensures
        assoc_lookup(t, k) is None,
    decreases t.len(),
{
    if t.len() > 0 {
        let d = t.drop_first();
        assert(t[0].0 != k);
        assert forall|i: int| 0 <= i < d.len() implies #[trigger] d[i].0 != k by {
            assert(d[i] == t[i + 1]);
        }
        lemma_assoc_lookup_absent(d, k);
    }
}

/// The key of an entry that no earlier entry holds finds that entry's value.
pub proof fn lemma_assoc_lookup_at<V>(t: Seq<(Seq<char>, V)>, i: int)
    requires
        0 <= i < t.len(),
        forall|j: int| 0 <= j < i ==> #[trigger] t[j].0 != t[i].0,
    ensures
        assoc_lookup(t, t[i].0) == Some(t[i].1),
    decreases i,
{
    if i > 0 {
        let d = t.drop_first();
        assert(t[0].0 != t[i].0);
        assert(d[i - 1] == t[i]);
        assert forall|j: int| 0 <= j < i - 1 implies #[trigger] d[j].0 != d[i - 1].0 by {
            assert(d[j] == t[j + 1]);
        }
        lemma_assoc_lookup_at(d, i - 1);
    }
}

/// The keys of a table of string literals, by their characters.
pub open spec fn table_view<V>(t: Seq<(&'static str, V)>) -> Seq<(Seq<char>, V)> {
    t.map_values(|e: (&'static str, V)| (e.0@, e.1))
}

/// Looks `k` up in a table of string keys; the first entry with that key wins.
pub fn assoc_find<V: Copy>(t: &Vec<(&'static str, V)>, k: &str) -> (r: Option<V>)
    ensures
        r == assoc_lookup(table_view(t@), k@),
{
    let n = t.len();
    let ghost tv = table_view(t@);
    assert(tv.subrange(0, n as int) =~= tv);
    let mut i: usize = 0;
    while i < n
        invariant
            n == t@.len(),
            tv == table_view(t@),
            tv.len() == n,
            0 <= i <= n,
            assoc_lookup(tv, k@) == assoc_lookup(tv.subrange(i as int, n as int), k@),
        decreases n - i,
    {
        let e = t[i];
        let ghost rest = tv.subrange(i as int, n as int);
        assert(rest[0] == (e.0@, e.1));
        assert(rest.drop_first() =~= tv.subrange(i + 1, n as int));
        if str_eq(e.0, k) {
            return Some(e.1);
        }
        i = i + 1;
    }
    assert(tv.subrange(n as int, n as int).len() == 0);
    None
}

} // verus!
