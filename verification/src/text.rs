//! Character sequences: conversions between strings and character vectors,
//! equality and ordering of texts, and decimal numerals.

use vstd::prelude::*;

verus! {

/// Whether `c` is one of the ten ASCII decimal digits.
pub open spec fn is_digit(c: char) -> bool {
    '0' <= c && c <= '9'
}

/// Whether `c` is an ASCII letter.
pub open spec fn is_letter(c: char) -> bool {
    ('a' <= c && c <= 'z') || ('A' <= c && c <= 'Z')
}

/// The number that the digit `c` stands for.
pub open spec fn digit_value(c: char) -> nat
    recommends
        is_digit(c),
{
    (c as nat - '0' as nat) as nat
}

/// The digit that stands for `d`.
pub open spec fn digit_of(d: nat) -> char
    recommends
        d < 10,
{
    if d == 0 {
        '0'
    } else if d == 1 {
        '1'
    } else if d == 2 {
        '2'
    } else if d == 3 {
        '3'
    } else if d == 4 {
        '4'
    } else if d == 5 {
        '5'
    } else if d == 6 {
        '6'
    } else if d == 7 {
        '7'
    } else if d == 8 {
        '8'
    } else {
        '9'
    }
}

/// Every character of `s` is a decimal digit.
pub open spec fn all_digits(s: Seq<char>) -> bool {
    forall|i: int| 0 <= i < s.len() ==> is_digit(#[trigger] s[i])
}

pub fn is_ascii_digit(c: char) -> (r: bool)
    ensures
        r == is_digit(c),
{
    '0' <= c && c <= '9'
}

pub fn is_ascii_letter(c: char) -> (r: bool)
    ensures
        r == is_letter(c),
{
    ('a' <= c && c <= 'z') || ('A' <= c && c <= 'Z')
}

/// The value of a digit, as a machine integer.
pub fn digit_to_u8(c: char) -> (d: u8)
    requires
        is_digit(c),
    ensures
        d as nat == digit_value(c),
        d < 10,
{
    if c == '0' {
        0
    } else if c == '1' {
        1
    } else if c == '2' {
        2
    } else if c == '3' {
        3
    } else if c == '4' {
        4
    } else if c == '5' {
        5
    } else if c == '6' {
        6
    } else if c == '7' {
        7
    } else if c == '8' {
        8
    } else {
        9
    }
}

/// The digit for a value below ten.
pub fn digit_from_u8(d: u8) -> (c: char)
    requires
        d < 10,
    ensures
        c == digit_of(d as nat),
        is_digit(c),
        digit_value(c) == d,
{
    if d == 0 {
        '0'
    } else if d == 1 {
        '1'
    } else if d == 2 {
        '2'
    } else if d == 3 {
        '3'
    } else if d == 4 {
        '4'
    } else if d == 5 {
        '5'
    } else if d == 6 {
        '6'
    } else if d == 7 {
        '7'
    } else if d == 8 {
        '8'
    } else {
        '9'
    }
}

/// The characters of a string, in order.
pub fn chars_of(s: &str) -> (v: Vec<char>)
    ensures
        v@ == s@,
{
    broadcast use vstd::string::group_string_axioms;

    let mut v: Vec<char> = Vec::new();
    for c in it: s.chars()
        invariant
            it.seq() == s@,
            v@ == it.seq().take(it.index()),
    {
        v.push(c);
    }
    v
}

/// `String::push` appends one character at the end of the string.
pub assume_specification[ String::push ](s: &mut String, c: char)
    ensures
        final(s)@ == old(s)@.push(c),
;

/// The string made of the characters `v`.
pub fn string_of(v: &Vec<char>) -> (s: String)
    ensures
        s@ == v@,
{
    let mut s = String::new();
    let mut i: usize = 0;
    while i < v.len()
        invariant
            i <= v.len(),
            s@ == v@.take(i as int),
        decreases v.len() - i,
    {
        s.push(v[i]);
        i += 1;
    }
    s
}

/// A copy of a string.
pub fn copy_str(s: &str) -> (r: String)
    ensures
        r@ == s@,
{
    let v = chars_of(s);
    string_of(&v)
}

/// The characters of `v` from position `from` up to, not including, `to`.
pub fn slice_chars(v: &Vec<char>, from: usize, to: usize) -> (r: Vec<char>)
    requires
        from <= to <= v.len(),
    ensures
        r@ == v@.subrange(from as int, to as int),
{
    let mut r: Vec<char> = Vec::new();
    let mut i: usize = from;
    while i < to
        invariant
            from <= i <= to <= v.len(),
            r@ == v@.subrange(from as int, i as int),
        decreases to - i,
    {
        r.push(v[i]);
        i += 1;
    }
    r
}

/// Appends the characters of `tail` to `head`.
pub fn append_chars(head: &mut Vec<char>, tail: &Vec<char>)
    ensures
        final(head)@ == old(head)@ + tail@,
{
    let mut i: usize = 0;
    while i < tail.len()
        invariant
            i <= tail.len(),
            head@ == old(head)@ + tail@.take(i as int),
        decreases tail.len() - i,
    {
        head.push(tail[i]);
        i += 1;
    }
}

/// Whether two character vectors hold the same text.
pub fn same_chars(a: &Vec<char>, b: &Vec<char>) -> (r: bool)
    ensures
        r == (a@ == b@),
{
    if a.len() != b.len() {
        return false;
    }
    let mut i: usize = 0;
    while i < a.len()
        invariant
            i <= a.len(),
            a.len() == b.len(),
            a@.take(i as int) == b@.take(i as int),
        decreases a.len() - i,
    {
        if a[i] != b[i] {
            return false;
        }
        assert(a@.take(i + 1) == a@.take(i as int).push(a@[i as int]));
        assert(b@.take(i + 1) == b@.take(i as int).push(b@[i as int]));
        i += 1;
    }
    assert(a@ == a@.take(a.len() as int));
    assert(b@ == b@.take(b.len() as int));
    true
}

/// Whether two strings hold the same text.
pub fn same_text(a: &str, b: &str) -> (r: bool)
    ensures
        r == (a@ == b@),
{
    let x = chars_of(a);
    let y = chars_of(b);
    same_chars(&x, &y)
}

/// Whether `s` ends with `suffix`.
pub open spec fn ends_with(s: Seq<char>, suffix: Seq<char>) -> bool {
    suffix.len() <= s.len() && s.subrange(s.len() - suffix.len(), s.len() as int) == suffix
}

pub fn has_suffix(s: &Vec<char>, suffix: &Vec<char>) -> (r: bool)
    ensures
        r == ends_with(s@, suffix@),
{
    if suffix.len() > s.len() {
        return false;
    }
    let tail = slice_chars(s, s.len() - suffix.len(), s.len());
    same_chars(&tail, suffix)
}

/// Whether `needle` occurs in `hay` as a run of adjacent characters.
pub open spec fn contains_text(hay: Seq<char>, needle: Seq<char>) -> bool {
    exists|i: int| occurs_at(hay, needle, i)
}

/// Whether `needle` stands in `hay` at position `i`.
pub open spec fn occurs_at(hay: Seq<char>, needle: Seq<char>, i: int) -> bool {
    0 <= i && i + needle.len() <= hay.len() && hay.subrange(i, i + needle.len()) == needle
}

pub fn find_text(hay: &Vec<char>, needle: &Vec<char>) -> (r: bool)
    ensures
        r == contains_text(hay@, needle@),
{
    if needle.len() > hay.len() {
        return false;
    }
    let last: usize = hay.len() - needle.len();
    let mut i: usize = 0;
    loop
        invariant
            i <= last,
            last == hay.len() - needle.len(),
            needle.len() <= hay.len(),
            forall|k: int| 0 <= k < i ==> !occurs_at(hay@, needle@, k),
        decreases last - i,
    {
        let part = slice_chars(hay, i, i + needle.len());
        if same_chars(&part, needle) {
            assert(occurs_at(hay@, needle@, i as int));
            return true;
        }
        if i == last {
            return false;
        }
        i += 1;
    }
}

/// Lexicographic order of texts by character code: the order in which an
/// ordered collection of strings keeps its members.
pub open spec fn text_less(a: Seq<char>, b: Seq<char>) -> bool
    decreases a.len(),
{
    if b.len() == 0 {
        false
    } else if a.len() == 0 {
        true
    } else if a[0] != b[0] {
        a[0] < b[0]
    } else {
        text_less(a.drop_first(), b.drop_first())
    }
}

pub proof fn lemma_text_less_irreflexive(a: Seq<char>)
    ensures
        !text_less(a, a),
    decreases a.len(),
{
    if a.len() > 0 {
        lemma_text_less_irreflexive(a.drop_first());
    }
}

pub proof fn lemma_text_less_transitive(a: Seq<char>, b: Seq<char>, c: Seq<char>)
    requires
        text_less(a, b),
        text_less(b, c),
    ensures
        text_less(a, c),
    decreases a.len(),
{
    if a.len() > 0 && a[0] == b[0] && b[0] == c[0] {
        lemma_text_less_transitive(a.drop_first(), b.drop_first(), c.drop_first());
    }
}

pub proof fn lemma_text_less_total(a: Seq<char>, b: Seq<char>)
    ensures
        a == b || text_less(a, b) || text_less(b, a),
    decreases a.len(),
{
    if a.len() > 0 && b.len() > 0 && a[0] == b[0] {
        lemma_text_less_total(a.drop_first(), b.drop_first());
        if a.drop_first() == b.drop_first() {
            assert(a =~= seq![a[0]] + a.drop_first());
            assert(b =~= seq![b[0]] + b.drop_first());
        }
    } else if a.len() == 0 && b.len() == 0 {
        assert(a =~= b);
    }
}

pub proof fn lemma_text_less_asymmetric(a: Seq<char>, b: Seq<char>)
    requires
        text_less(a, b),
    ensures
        !text_less(b, a),
        a != b,
{
    lemma_text_less_irreflexive(a);
    if text_less(b, a) {
        lemma_text_less_transitive(a, b, a);
    }
}

/// Whether `a` comes before `b` in the order `text_less`.
pub fn chars_less(a: &Vec<char>, b: &Vec<char>) -> (r: bool)
    ensures
        r == text_less(a@, b@),
{
    let mut i: usize = 0;
    proof {
        assert(a@.skip(0) == a@);
        assert(b@.skip(0) == b@);
    }
    while i < a.len() && i < b.len()
        invariant
            i <= a.len(),
            i <= b.len(),
            text_less(a@, b@) == text_less(a@.skip(i as int), b@.skip(i as int)),
        decreases a.len() - i,
    {
        proof {
            assert(a@.skip(i as int).drop_first() == a@.skip(i + 1));
            assert(b@.skip(i as int).drop_first() == b@.skip(i + 1));
        }
        if a[i] != b[i] {
            return a[i] < b[i];
        }
        i += 1;
    }
    proof {
        if i == b.len() {
            assert(b@.skip(i as int).len() == 0);
        } else {
            assert(a@.skip(i as int).len() == 0);
        }
    }
    i < b.len()
}

/// Ten to the power `n`.
pub open spec fn pow10(n: nat) -> nat
    decreases n,
{
    if n == 0 {
        1
    } else {
        10 * pow10((n - 1) as nat)
    }
}

/// The number that a run of decimal digits stands for; leading zeros count
/// for nothing and the empty run stands for zero.
pub open spec fn decimal_value(s: Seq<char>) -> nat
    decreases s.len(),
{
    if s.len() == 0 {
        0
    } else {
        10 * decimal_value(s.drop_last()) + digit_value(s.last())
    }
}

/// The decimal numeral of `n`, without leading zeros.
pub open spec fn decimal_digits(n: nat) -> Seq<char>
    decreases n,
{
    if n < 10 {
        seq![digit_of(n)]
    } else {
        decimal_digits(n / 10).push(digit_of(n % 10))
    }
}

pub proof fn lemma_digit_of(d: nat)
    requires
        d < 10,
    ensures
        is_digit(digit_of(d)),
        digit_value(digit_of(d)) == d,
{
}

pub proof fn lemma_decimal_value_push(s: Seq<char>, c: char)
    ensures
        decimal_value(s.push(c)) == 10 * decimal_value(s) + digit_value(c),
{
    assert(s.push(c).drop_last() == s);
}

/// The numeral of a number consists of digits, is not empty, starts with a
/// zero only when the number is zero, and stands for that number.
pub proof fn lemma_decimal_digits(n: nat)
    ensures
        decimal_digits(n).len() >= 1,
        all_digits(decimal_digits(n)),
        decimal_value(decimal_digits(n)) == n,
        decimal_digits(n)[0] == '0' <==> n == 0,
        n >= 10 ==> decimal_digits(n).len() >= 2,
    decreases n,
{
    if n < 10 {
        lemma_digit_of(n);
        let s = seq![digit_of(n)];
        assert(s.drop_last() =~= Seq::<char>::empty());
        assert(decimal_value(s.drop_last()) == 0);
    } else {
        lemma_decimal_digits(n / 10);
        lemma_digit_of(n % 10);
        lemma_decimal_value_push(decimal_digits(n / 10), digit_of(n % 10));
    }
}

/// The decimal numeral of `n`.
pub fn decimal_of(n: u64) -> (v: Vec<char>)
    ensures
        v@ == decimal_digits(n as nat),
    decreases n,
{
    if n < 10 {
        let mut v: Vec<char> = Vec::new();
        v.push(digit_from_u8(n as u8));
        v
    } else {
        let mut v = decimal_of(n / 10);
        v.push(digit_from_u8((n % 10) as u8));
        v
    }
}

pub proof fn lemma_pow10_positive(n: nat)
    ensures
        pow10(n) >= 1,
    decreases n,
{
    if n > 0 {
        lemma_pow10_positive((n - 1) as nat);
    }
}

pub proof fn lemma_pow10_monotone(a: nat, b: nat)
    requires
        a <= b,
    ensures
        pow10(a) <= pow10(b),
    decreases b,
{
    if a < b {
        lemma_pow10_monotone(a, (b - 1) as nat);
    }
}

/// The value of a numeral, read from its first digit.
pub proof fn lemma_decimal_value_first(s: Seq<char>)
    requires
        s.len() > 0,
    ensures
        decimal_value(s) == digit_value(s[0]) * pow10((s.len() - 1) as nat) + decimal_value(
            s.drop_first(),
        ),
    decreases s.len(),
{
    let d = digit_value(s[0]);
    if s.len() == 1 {
        assert(s.drop_last() =~= Seq::<char>::empty());
        assert(s.drop_first() =~= Seq::<char>::empty());
        assert(decimal_value(s.drop_last()) == 0);
        assert(decimal_value(s.drop_first()) == 0);
        assert(pow10(0) == 1);
        assert(s.last() == s[0]);
        assert(decimal_value(s) == d);
        assert(d * 1 == d) by (nonlinear_arith);
    } else {
        let init = s.drop_last();
        let rest = s.drop_first();
        lemma_decimal_value_first(init);
        assert(init.drop_first() =~= rest.drop_last());
        assert(init[0] == s[0]);
        assert(rest.last() == s.last());
        let p = pow10((s.len() - 2) as nat);
        let q = pow10((s.len() - 1) as nat);
        assert(q == 10 * p);
        assert(init.len() - 1 == s.len() - 2);
        assert(decimal_value(init) == d * p + decimal_value(init.drop_first()));
        assert(decimal_value(rest) == 10 * decimal_value(rest.drop_last()) + digit_value(
            rest.last(),
        ));
        assert(decimal_value(s) == 10 * decimal_value(init) + digit_value(s.last()));
        assert(10 * (d * p) == d * (10 * p)) by (nonlinear_arith);
        assert(d * q == d * (10 * p));
    }
}

/// A numeral of `n` digits stands for a number below ten to the `n`.
pub proof fn lemma_decimal_value_bound(s: Seq<char>)
    requires
        all_digits(s),
    ensures
        decimal_value(s) < pow10(s.len()),
    decreases s.len(),
{
    if s.len() > 0 {
        lemma_decimal_value_bound(s.drop_last());
    }
}

/// A numeral that starts with a digit other than zero stands for a number
/// of at least ten to the number of digits that follow.
pub proof fn lemma_decimal_value_lower(s: Seq<char>)
    requires
        all_digits(s),
        s.len() > 0,
        s[0] != '0',
    ensures
        decimal_value(s) >= pow10((s.len() - 1) as nat),
{
    lemma_decimal_value_first(s);
    let d = digit_value(s[0]);
    let p = pow10((s.len() - 1) as nat);
    assert(d >= 1);
    assert(d * p >= p) by (nonlinear_arith)
        requires
            d >= 1,
    ;
}

/// A leading zero changes nothing in the value of a numeral.
pub proof fn lemma_decimal_value_leading_zero(s: Seq<char>)
    requires
        s.len() > 0,
        s[0] == '0',
    ensures
        decimal_value(s) == decimal_value(s.drop_first()),
{
    lemma_decimal_value_first(s);
    let p = pow10((s.len() - 1) as nat);
    assert(0 * p == 0) by (nonlinear_arith);
}

/// Of two numerals of one length that agree up to position `k` and differ
/// there, the one with the smaller digit stands for the smaller number.
pub proof fn lemma_decimal_value_differs(a: Seq<char>, b: Seq<char>, k: int)
    requires
        all_digits(a),
        all_digits(b),
        a.len() == b.len(),
        0 <= k < a.len(),
        a.take(k) == b.take(k),
        a[k] < b[k],
    ensures
        decimal_value(a) < decimal_value(b),
    decreases k,
{
    lemma_decimal_value_first(a);
    lemma_decimal_value_first(b);
    let p = pow10((a.len() - 1) as nat);
    if k == 0 {
        lemma_decimal_value_bound(a.drop_first());
        let da = digit_value(a[0]);
        let db = digit_value(b[0]);
        assert(da + 1 <= db);
        assert((da + 1) * p <= db * p) by (nonlinear_arith)
            requires
                da + 1 <= db,
        ;
        assert((da + 1) * p == da * p + p) by (nonlinear_arith);
    } else {
        assert(a[0] == a.take(k)[0]);
        assert(b[0] == b.take(k)[0]);
        assert(a.drop_first().take(k - 1) =~= a.take(k).drop_first());
        assert(b.drop_first().take(k - 1) =~= b.take(k).drop_first());
        lemma_decimal_value_differs(a.drop_first(), b.drop_first(), k - 1);
    }
}

/// The position of the first `c` in `s`, or the length of `s` if there is
/// none.
pub open spec fn find_first(s: Seq<char>, c: char) -> int
    decreases s.len(),
{
    if s.len() == 0 || s[0] == c {
        0
    } else {
        1 + find_first(s.drop_first(), c)
    }
}

/// The position of the last `c` in `s`, or -1 if there is none.
pub open spec fn find_last(s: Seq<char>, c: char) -> int
    decreases s.len(),
{
    if s.len() == 0 {
        -1
    } else if s.last() == c {
        s.len() - 1
    } else {
        find_last(s.drop_last(), c)
    }
}

/// The position of the first `c` in `s`.
pub fn index_of_first(s: &Vec<char>, c: char) -> (i: usize)
    ensures
        i == find_first(s@, c),
        i <= s.len(),
{
    let mut i: usize = 0;
    proof {
        assert(s@.skip(0) == s@);
    }
    while i < s.len() && s[i] != c
        invariant
            i <= s.len(),
            find_first(s@, c) == i + find_first(s@.skip(i as int), c),
        decreases s.len() - i,
    {
        proof {
            assert(s@.skip(i as int).drop_first() == s@.skip(i + 1));
        }
        i += 1;
    }
    i
}

/// The position of the last `c` in `s`, if there is one.
pub fn index_of_last(s: &Vec<char>, c: char) -> (r: Option<usize>)
    ensures
        match r {
            Some(i) => i == find_last(s@, c) && i < s.len(),
            None => find_last(s@, c) == -1,
        },
{
    let mut i: usize = s.len();
    proof {
        assert(s@.take(s.len() as int) == s@);
    }
    while i > 0
        invariant
            i <= s.len(),
            find_last(s@, c) == find_last(s@.take(i as int), c),
        decreases i,
    {
        proof {
            assert(s@.take(i as int).drop_last() == s@.take(i - 1));
            assert(s@.take(i as int).last() == s@[i - 1]);
        }
        if s[i - 1] == c {
            return Some(i - 1);
        }
        i -= 1;
    }
    None
}

} // verus!
