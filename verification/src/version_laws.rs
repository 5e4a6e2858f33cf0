//! What holds of the order of versions and of reading and printing them.

use crate::order::{
    after_both, after_text, digit_run, lemma_after_both_shorter, lemma_digit_run, lemma_text_run,
    lexical_order, numeric_order, rank, rank_char, rank_text, reverse, text_run, version_char,
    version_order, version_text, Order,
};
use crate::text::{
    all_digits, decimal_digits, decimal_value, digit_value, find_first, find_last, is_digit,
    lemma_decimal_digits, lemma_decimal_value_first, lemma_decimal_value_leading_zero,
    lemma_pow10_positive, pow10,
};
use crate::version::{
    after_epoch, epoch_part, first_bad, format_version, package_order, parse_epoch,
    parse_version, revision_text, scan_digits, valid_version, EpochError, ParseVersionError,
    VersionView,
};
use vstd::prelude::*;

verus! {

/// A greater epoch makes the greater version, whatever the rest holds.
pub proof fn law_epoch_dominance(a: VersionView, b: VersionView)
    requires
        a.epoch > b.epoch,
    ensures
        package_order(a, b) == Order::Greater,
        package_order(b, a) == Order::Less,
{
}

/// Zeros at the head of a run of digits change nothing in its order.
pub proof fn law_numeric_leading_zero(a: Seq<char>, b: Seq<char>)
    ensures
        numeric_order(seq!['0'] + a, b) == numeric_order(a, b),
        numeric_order(b, seq!['0'] + a) == numeric_order(b, a),
{
    let z = seq!['0'] + a;
    lemma_decimal_value_leading_zero(z);
    assert(z.drop_first() =~= a);
}

/// Two runs of digits are equal in order exactly when they stand for the
/// same number.
pub proof fn law_numeric_equivalence(a: Seq<char>, b: Seq<char>)
    ensures
        numeric_order(a, b) == Order::Equal <==> decimal_value(a) == decimal_value(b),
        numeric_order(a, b) == Order::Less <==> decimal_value(a) < decimal_value(b),
{
}

/// A run compared by rank is equal to itself.
pub proof fn law_lexical_reflexive(a: Seq<char>)
    ensures
        lexical_order(a, a) == Order::Equal,
    decreases a.len(),
{
    if a.len() > 0 {
        law_lexical_reflexive(a.drop_first());
    }
}

/// Exchanging the sides of a comparison by rank reverses its outcome.
pub proof fn law_lexical_antisymmetric(a: Seq<char>, b: Seq<char>)
    ensures
        lexical_order(b, a) == reverse(lexical_order(a, b)),
    decreases a.len(),
{
    if a.len() > 0 && b.len() > 0 && a[0] == b[0] {
        law_lexical_antisymmetric(a.drop_first(), b.drop_first());
    }
}

/// A version text is equal to itself in order.
pub proof fn law_version_reflexive(a: Seq<char>)
    ensures
        version_order(a, a) == Order::Equal,
    decreases a.len(),
{
    if a.len() > 0 {
        law_lexical_reflexive(a.take(text_run(a) as int));
        lemma_after_both_shorter(a);
        law_version_reflexive(after_both(a));
    }
}

/// Exchanging the sides of a comparison of version texts reverses its
/// outcome.
pub proof fn law_version_antisymmetric(a: Seq<char>, b: Seq<char>)
    ensures
        version_order(b, a) == reverse(version_order(a, b)),
    decreases a.len() + b.len(),
{
    if a.len() > 0 || b.len() > 0 {
        law_lexical_antisymmetric(a.take(text_run(a) as int), b.take(text_run(b) as int));
        lemma_after_both_shorter(a);
        lemma_after_both_shorter(b);
        law_version_antisymmetric(after_both(a), after_both(b));
    }
}

/// A version is equal to itself in order, and exchanging the sides of a
/// comparison of versions reverses its outcome.
pub proof fn law_package_order(a: VersionView, b: VersionView)
    ensures
        package_order(a, a) == Order::Equal,
        package_order(b, a) == reverse(package_order(a, b)),
{
    law_version_reflexive(a.upstream);
    law_version_reflexive(revision_text(a));
    law_version_antisymmetric(a.upstream, b.upstream);
    law_version_antisymmetric(revision_text(a), revision_text(b));
}

/// Whether the outcomes `first` of comparing one thing with a second and
/// `second` of comparing the second with a third fit the outcome `both`
/// of comparing the one with the third, as they do in an order: where
/// neither of the two is `Greater`, `both` is not, and `both` is `Equal`
/// only where the two are.
pub open spec fn chained(first: Order, second: Order, both: Order) -> bool {
    first != Order::Greater && second != Order::Greater ==> both == if first == Order::Equal
        && second == Order::Equal {
        Order::Equal
    } else {
        Order::Less
    }
}

/// The rank of a character of a run is not that of the end of a text,
/// and no two such characters share a rank.
proof fn lemma_rank_distinct(x: char, y: char)
    requires
        rank_char(x),
        rank_char(y),
    ensures
        rank(x) != 0,
        x != y ==> rank(x) != rank(y),
{
}

/// What is left of a run without its first character is a run.
proof fn lemma_rank_text_rest(s: Seq<char>)
    requires
        rank_text(s),
        s.len() > 0,
    ensures
        rank_text(s.drop_first()),
        rank_char(s[0]),
{
    let t = s.drop_first();
    assert forall|i: int| 0 <= i < t.len() implies rank_char(#[trigger] t[i]) by {
        assert(t[i] == s[i + 1]);
    }
}

/// Two runs that are equal in order are the same run.
pub proof fn law_lexical_equal(a: Seq<char>, b: Seq<char>)
    requires
        rank_text(a),
        rank_text(b),
        lexical_order(a, b) == Order::Equal,
    ensures
        a == b,
    decreases a.len(),
{
    if a.len() > 0 {
        lemma_rank_text_rest(a);
    }
    if b.len() > 0 {
        lemma_rank_text_rest(b);
    }
    if a.len() > 0 && b.len() > 0 {
        lemma_rank_distinct(a[0], b[0]);
        law_lexical_equal(a.drop_first(), b.drop_first());
        assert(a =~= seq![a[0]] + a.drop_first());
        assert(b =~= seq![b[0]] + b.drop_first());
    } else if a.len() > 0 {
        lemma_rank_distinct(a[0], a[0]);
    } else if b.len() > 0 {
        lemma_rank_distinct(b[0], b[0]);
    } else {
        assert(a =~= b);
    }
}

/// The order of runs by rank is transitive.
pub proof fn law_lexical_transitive(a: Seq<char>, b: Seq<char>, c: Seq<char>)
    requires
        rank_text(a),
        rank_text(b),
        rank_text(c),
    ensures
        chained(lexical_order(a, b), lexical_order(b, c), lexical_order(a, c)),
    decreases a.len(),
{
    if a.len() > 0 {
        lemma_rank_text_rest(a);
        lemma_rank_distinct(a[0], a[0]);
    }
    if b.len() > 0 {
        lemma_rank_text_rest(b);
        lemma_rank_distinct(b[0], b[0]);
    }
    if c.len() > 0 {
        lemma_rank_text_rest(c);
        lemma_rank_distinct(c[0], c[0]);
    }
    if a.len() > 0 && b.len() > 0 {
        lemma_rank_distinct(a[0], b[0]);
    }
    if b.len() > 0 && c.len() > 0 {
        lemma_rank_distinct(b[0], c[0]);
    }
    if a.len() > 0 && c.len() > 0 {
        lemma_rank_distinct(a[0], c[0]);
    }
    if a.len() > 0 && b.len() > 0 && c.len() > 0 && a[0] == b[0] && b[0] == c[0] {
        law_lexical_transitive(a.drop_first(), b.drop_first(), c.drop_first());
    }
}

/// What is left of a version text after the runs at its head is a version
/// text, and the run of other characters at its head is a run that is
/// compared by rank.
proof fn lemma_version_text_parts(s: Seq<char>)
    requires
        version_text(s),
    ensures
        rank_text(s.take(text_run(s) as int)),
        version_text(after_both(s)),
{
    lemma_text_run(s);
    lemma_digit_run(after_text(s));
    let head = s.take(text_run(s) as int);
    assert forall|i: int| 0 <= i < head.len() implies rank_char(#[trigger] head[i]) by {
        assert(head[i] == s[i]);
        assert(version_char(s[i]));
    }
    let rest = after_both(s);
    let n = text_run(s) + digit_run(after_text(s));
    assert forall|i: int| 0 <= i < rest.len() implies version_char(#[trigger] rest[i]) by {
        assert(rest[i] == s[i + n]);
    }
}

/// The order of version texts is transitive: of three texts of which the
/// first does not come after the second, nor the second after the third,
/// the first does not come after the third, and the two are equal in
/// order only where all three are.
pub proof fn law_version_transitive(a: Seq<char>, b: Seq<char>, c: Seq<char>)
    requires
        version_text(a),
        version_text(b),
        version_text(c),
    ensures
        chained(version_order(a, b), version_order(b, c), version_order(a, c)),
    decreases a.len() + b.len() + c.len(),
{
    if a.len() + b.len() + c.len() > 0 {
        let a0 = a.take(text_run(a) as int);
        let b0 = b.take(text_run(b) as int);
        let c0 = c.take(text_run(c) as int);
        lemma_version_text_parts(a);
        lemma_version_text_parts(b);
        lemma_version_text_parts(c);
        law_lexical_transitive(a0, b0, c0);
        law_lexical_reflexive(a0);
        if lexical_order(a0, b0) == Order::Equal {
            law_lexical_equal(a0, b0);
        }
        if lexical_order(b0, c0) == Order::Equal {
            law_lexical_equal(b0, c0);
        }
        lemma_after_both_shorter(a);
        lemma_after_both_shorter(b);
        lemma_after_both_shorter(c);
        law_version_transitive(after_both(a), after_both(b), after_both(c));
        if a.len() == 0 {
            assert(a0 =~= a);
            assert(after_text(a) =~= a);
            assert(after_both(a) =~= a);
        }
        if b.len() == 0 {
            assert(b0 =~= b);
            assert(after_text(b) =~= b);
            assert(after_both(b) =~= b);
        }
        if c.len() == 0 {
            assert(c0 =~= c);
            assert(after_text(c) =~= c);
            assert(after_both(c) =~= c);
        }
    }
}

/// The order of versions is transitive.
pub proof fn law_package_transitive(a: VersionView, b: VersionView, c: VersionView)
    requires
        valid_version(a),
        valid_version(b),
        valid_version(c),
    ensures
        chained(package_order(a, b), package_order(b, c), package_order(a, c)),
{
    law_version_transitive(a.upstream, b.upstream, c.upstream);
    law_version_transitive(revision_text(a), revision_text(b), revision_text(c));
}

/// Where `c` does not occur in `s`, the search for the first `c` ends at
/// the length of `s`.
pub proof fn lemma_find_first_absent(s: Seq<char>, c: char)
    requires
        forall|i: int| 0 <= i < s.len() ==> s[i] != c,
    ensures
        find_first(s, c) == s.len(),
    decreases s.len(),
{
    if s.len() > 0 {
        let t = s.drop_first();
        assert forall|i: int| 0 <= i < t.len() implies t[i] != c by {
            assert(t[i] == s[i + 1]);
        }
        lemma_find_first_absent(t, c);
    }
}

/// Where `c` stands at `k` and nowhere before, the search for the first
/// `c` ends at `k`.
pub proof fn lemma_find_first_at(s: Seq<char>, c: char, k: int)
    requires
        0 <= k < s.len(),
        s[k] == c,
        forall|i: int| 0 <= i < k ==> s[i] != c,
    ensures
        find_first(s, c) == k,
    decreases k,
{
    if k > 0 {
        let t = s.drop_first();
        assert forall|i: int| 0 <= i < k - 1 implies t[i] != c by {
            assert(t[i] == s[i + 1]);
        }
        lemma_find_first_at(t, c, k - 1);
    }
}

/// Where `c` does not occur in `s`, the search for the last `c` finds
/// none.
pub proof fn lemma_find_last_absent(s: Seq<char>, c: char)
    requires
        forall|i: int| 0 <= i < s.len() ==> s[i] != c,
    ensures
        find_last(s, c) == -1,
    decreases s.len(),
{
    if s.len() > 0 {
        lemma_find_last_absent(s.drop_last(), c);
    }
}

/// Where `c` stands at `k` and nowhere after, the search for the last `c`
/// ends at `k`.
pub proof fn lemma_find_last_at(s: Seq<char>, c: char, k: int)
    requires
        0 <= k < s.len(),
        s[k] == c,
        forall|i: int| k < i < s.len() ==> s[i] != c,
    ensures
        find_last(s, c) == k,
    decreases s.len(),
{
    if k < s.len() - 1 {
        lemma_find_last_at(s.drop_last(), c, k);
    }
}

/// A text of allowed characters has no first character that is not
/// allowed.
pub proof fn lemma_first_bad_valid(s: Seq<char>)
    requires
        version_text(s),
    ensures
        first_bad(s) == s.len(),
    decreases s.len(),
{
    if s.len() > 0 {
        let t = s.drop_first();
        assert forall|i: int| 0 <= i < t.len() implies version_char(#[trigger] t[i]) by {
            assert(t[i] == s[i + 1]);
        }
        lemma_first_bad_valid(t);
    }
}

/// Digits read onto a number give the number that the whole numeral
/// stands for, as long as it does not pass the greatest epoch.
pub proof fn lemma_scan_digits(d: Seq<char>, acc: nat)
    requires
        all_digits(d),
        acc * pow10(d.len()) + decimal_value(d) <= u32::MAX,
    ensures
        scan_digits(d, acc) == Ok::<u32, EpochError>(
            (acc * pow10(d.len()) + decimal_value(d)) as u32,
        ),
    decreases d.len(),
{
    if d.len() == 0 {
        assert(pow10(0) == 1);
        assert(acc * 1 == acc) by (nonlinear_arith);
    } else {
        let rest = d.drop_first();
        let v = digit_value(d[0]);
        let p = pow10((d.len() - 1) as nat);
        let next = 10 * acc + v;
        lemma_decimal_value_first(d);
        lemma_pow10_positive((d.len() - 1) as nat);
        assert(pow10(d.len()) == 10 * p);
        assert(next * p == acc * (10 * p) + v * p) by (nonlinear_arith)
            requires
                next == 10 * acc + v,
        ;
        assert(next * p + decimal_value(rest) == acc * pow10(d.len()) + decimal_value(d));
        assert(next <= next * p) by (nonlinear_arith)
            requires
                p >= 1,
                next >= 0,
        ;
        assert forall|i: int| 0 <= i < rest.len() implies is_digit(#[trigger] rest[i]) by {
            assert(rest[i] == d[i + 1]);
        }
        lemma_scan_digits(rest, next);
    }
}

/// The numeral of an epoch is read back as that epoch.
pub proof fn law_epoch_round_trip(n: u32)
    ensures
        parse_epoch(decimal_digits(n as nat)) == Ok::<u32, EpochError>(n),
{
    let d = decimal_digits(n as nat);
    lemma_decimal_digits(n as nat);
    assert(is_digit(d[0]));
    assert(0 * pow10(d.len()) == 0) by (nonlinear_arith);
    lemma_scan_digits(d, 0);
}

/// Printing a valid version and reading the text back gives the same
/// version.
pub proof fn law_round_trip(v: VersionView)
    requires
        valid_version(v),
    ensures
        parse_version(format_version(v)) == Ok::<VersionView, ParseVersionError>(v),
{
    let tail = match v.revision {
        Some(r) => seq!['-'] + r,
        None => Seq::<char>::empty(),
    };
    let body = v.upstream + tail;
    let s = format_version(v);
    assert forall|i: int| 0 <= i < body.len() implies body[i] != ':' by {
        if i < v.upstream.len() {
            assert(version_char(v.upstream[i]));
        } else if i > v.upstream.len() {
            assert(version_char(v.revision->0[i - v.upstream.len() - 1]));
        }
    }
    if v.epoch == 0 {
        assert(s =~= body);
        lemma_find_first_absent(s, ':');
        assert(after_epoch(s) == body);
        assert(epoch_part(s) is None);
    } else {
        let d = decimal_digits(v.epoch as nat);
        lemma_decimal_digits(v.epoch as nat);
        assert(s =~= d + seq![':'] + body);
        assert forall|i: int| 0 <= i < d.len() implies s[i] != ':' by {
            assert(is_digit(d[i]));
        }
        lemma_find_first_at(s, ':', d.len() as int);
        assert(s.take(d.len() as int) =~= d);
        assert(s.skip(d.len() as int + 1) =~= body);
        law_epoch_round_trip(v.epoch);
        assert(epoch_part(s) == Some(d));
        assert(after_epoch(s) == body);
    }
    lemma_first_bad_valid(v.upstream);
    match v.revision {
        Some(r) => {
            let k = v.upstream.len() as int;
            assert forall|i: int| k < i < body.len() implies body[i] != '-' by {
                assert(version_char(r[i - k - 1]));
            }
            lemma_find_last_at(body, '-', k);
            assert(body.take(k) =~= v.upstream);
            assert(body.skip(k + 1) =~= r);
            lemma_first_bad_valid(r);
        },
        None => {
            assert(body =~= v.upstream);
            assert forall|i: int| 0 <= i < body.len() implies body[i] != '-' by {
                assert(version_char(v.upstream[i]));
            }
            lemma_find_last_absent(body, '-');
        },
    }
}

/// A version that is read from a text is valid.
pub proof fn law_parse_valid(s: Seq<char>)
    ensures
        parse_version(s) matches Ok(v) ==> valid_version(v),
{
    let rest = after_epoch(s);
    let dash = find_last(rest, '-');
    if dash >= 0 {
        lemma_first_bad_sound(rest.take(dash));
        lemma_first_bad_sound(rest.skip(dash + 1));
    } else {
        lemma_first_bad_sound(rest);
    }
}

/// Where no character of a text is found that is not allowed, the text
/// holds allowed characters only.
pub proof fn lemma_first_bad_sound(s: Seq<char>)
    ensures
        0 <= first_bad(s) <= s.len(),
        first_bad(s) == s.len() ==> version_text(s),
        first_bad(s) < s.len() ==> !version_char(s[first_bad(s)]),
    decreases s.len(),
{
    if s.len() > 0 && version_char(s[0]) {
        let t = s.drop_first();
        lemma_first_bad_sound(t);
        if first_bad(s) == s.len() {
            assert forall|i: int| 0 <= i < s.len() implies version_char(#[trigger] s[i]) by {
                if i > 0 {
                    assert(s[i] == t[i - 1]);
                }
            }
        } else {
            assert(s[first_bad(s)] == t[first_bad(t)]);
        }
    }
}

/// A run to which a tilde and anything more is joined comes before the
/// run itself.
pub proof fn lemma_lexical_tilde(s: Seq<char>, t: Seq<char>)
    ensures
        lexical_order(s + (seq!['~'] + t), s) == Order::Less,
    decreases s.len(),
{
    let a = s + (seq!['~'] + t);
    if s.len() == 0 {
        assert(a[0] == '~');
    } else {
        assert(a[0] == s[0]);
        assert(a.drop_first() =~= s.drop_first() + (seq!['~'] + t));
        lemma_lexical_tilde(s.drop_first(), t);
    }
}

/// The run of characters other than digits at the head of two joined
/// texts ends within the first text, or else goes on into the second.
pub proof fn lemma_text_run_joined(s: Seq<char>, u: Seq<char>)
    ensures
        text_run(s + u) == if text_run(s) < s.len() {
            text_run(s)
        } else {
            s.len() + text_run(u)
        },
        text_run(s) <= s.len(),
    decreases s.len(),
{
    if s.len() == 0 {
        assert(s + u =~= u);
    } else {
        assert((s + u)[0] == s[0]);
        assert((s + u).drop_first() =~= s.drop_first() + u);
        lemma_text_run_joined(s.drop_first(), u);
    }
}

/// The run of digits at the head of two joined texts ends within the
/// first text, or else goes on into the second.
pub proof fn lemma_digit_run_joined(s: Seq<char>, u: Seq<char>)
    ensures
        digit_run(s + u) == if digit_run(s) < s.len() {
            digit_run(s)
        } else {
            s.len() + digit_run(u)
        },
        digit_run(s) <= s.len(),
    decreases s.len(),
{
    if s.len() == 0 {
        assert(s + u =~= u);
    } else {
        assert((s + u)[0] == s[0]);
        assert((s + u).drop_first() =~= s.drop_first() + u);
        lemma_digit_run_joined(s.drop_first(), u);
    }
}

/// A version text to which a tilde and anything more is joined comes
/// before the text itself.
pub proof fn law_tilde_sorts_first(s: Seq<char>, t: Seq<char>)
    ensures
        version_order(s + seq!['~'] + t, s) == Order::Less,
        version_order(s, s + seq!['~'] + t) == Order::Greater,
    decreases s.len(),
{
    let u = seq!['~'] + t;
    let a = s + u;
    assert(s + seq!['~'] + t =~= a);
    let i = text_run(s);
    lemma_text_run_joined(s, u);
    lemma_text_run(s);
    assert(u[0] == '~');
    if i == s.len() {
        let j = text_run(u);
        lemma_text_run(u);
        assert(j >= 1);
        assert(a.take((s.len() + j) as int) =~= s + (seq!['~'] + t.take(j - 1)));
        assert(s.take(i as int) =~= s);
        lemma_lexical_tilde(s, t.take(j - 1));
    } else {
        assert(a.take(i as int) =~= s.take(i as int));
        law_lexical_reflexive(s.take(i as int));
        let s1 = s.skip(i as int);
        assert(after_text(a) =~= s1 + u);
        assert(after_text(s) == s1);
        let k = digit_run(s1);
        lemma_digit_run_joined(s1, u);
        lemma_digit_run(s1);
        assert(digit_run(u) == 0);
        assert(digit_run(s1 + u) == k);
        assert((s1 + u).take(k as int) =~= s1.take(k as int));
        let s2 = s1.skip(k as int);
        assert(after_both(a) =~= s2 + u);
        assert(after_both(s) == s2);
        assert(s1[0] == s[i as int]);
        assert(k >= 1);
        law_tilde_sorts_first(s2, t);
        assert(s2 + seq!['~'] + t =~= s2 + u);
    }
    law_version_antisymmetric(a, s);
}

/// Of two versions with one epoch, the one whose upstream part is that
/// of the other with a tilde and anything more joined to it is the
/// smaller.
pub proof fn law_tilde_version(a: VersionView, b: VersionView, t: Seq<char>)
    requires
        a.epoch == b.epoch,
        a.upstream == b.upstream + seq!['~'] + t,
    ensures
        package_order(a, b) == Order::Less,
{
    law_tilde_sorts_first(b.upstream, t);
}

} // verus!
