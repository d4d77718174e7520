//! Dollar amounts, held as whole cents, written the way the overlay shows
//! them: `$1,234.56`.
use vstd::prelude::*;
use crate::decimal::{
    all_digits, decimal, digit_char, digit_value, digits_value, is_digit, lemma_decimal_digits,
};
use crate::text::push_char;
use num_format::{Locale, ToFormattedString};

verus! {

/// `n` (`0 <= n < 1000`) written with exactly three digits.
pub open spec fn three_digits(n: nat) -> Seq<char> {
    seq![digit_char((n / 100) as int), digit_char(((n / 10) % 10) as int), digit_char((n % 10) as int)]
}

/// `n` written in decimal with a `,` between each group of three digits,
/// counted from the right.
pub open spec fn grouped(n: nat) -> Seq<char>
    decreases n,
{
    if n < 1000 {
        decimal(n)
    } else {
        grouped(n / 1000) + seq![','] + three_digits(n % 1000)
    }
}

/// `n` as the English locale writes an integer: `-` before negative
/// numbers, `,` between groups of three digits.
pub open spec fn en_integer(n: int) -> Seq<char> {
    if n < 0 {
        seq!['-'] + grouped((-n) as nat)
    } else {
        grouped(n as nat)
    }
}

/// `num_format`'s `to_formatted_string(&Locale::en)` on an `i64`.
/// Claimed: the result is `en_integer(n)`. `Locale::en` has standard grouping
/// (groups of three), separator `,` and minus sign `-`, and negative values
/// are written as the minus sign followed by the magnitude.
#[verifier::external_body]
fn en_formatted(n: i64) -> (s: String)
    ensures
        s@ == en_integer(n as int),
{
    n.to_formatted_string(&Locale::en)
}

/// The whole dollars of an amount in cents, rounded toward zero as Rust's
/// integer division does.
pub open spec fn whole_dollars(total_cents: int) -> int {
    if total_cents < 0 {
        -((-total_cents) / 100)
    } else {
        total_cents / 100
    }
}

/// The cents part of an amount, always non-negative.
pub open spec fn cents_part(total_cents: int) -> int {
    if total_cents < 0 {
        (-total_cents) % 100
    } else {
        total_cents % 100
    }
}

/// The text of an amount in cents: `$`, the whole dollars in the English
/// locale, `.`, and the cents with two digits. The sign lives on the whole
/// dollars only, so an amount between minus one dollar and zero shows no sign.
pub open spec fn dollars_text(total_cents: int) -> Seq<char> {
    let c = cents_part(total_cents);
    seq!['$'] + en_integer(whole_dollars(total_cents)) + seq![
        '.',
        digit_char(c / 10),
        digit_char(c % 10),
    ]
}

/// Writes an amount given in whole cents as `$<dollars>.<cents>`.
pub fn format_dollars(total_cents: i64) -> (s: String)
    requires
        total_cents > i64::MIN,
    ensures
        s@ == dollars_text(total_cents as int),
{
    let magnitude: i64 = if total_cents < 0 {
        -total_cents
    } else {
        total_cents
    };
    let dollars_magnitude = magnitude / 100;
    let dollars: i64 = if total_cents < 0 {
        -dollars_magnitude
    } else {
        dollars_magnitude
    };
    let cents = magnitude % 100;
    let mut s = String::new();
    push_char(&mut s, '$');
    let grouped_dollars = en_formatted(dollars);
    s.append(grouped_dollars.as_str());
    push_char(&mut s, '.');
    push_char(&mut s, ((cents / 10) as u8 + 48u8) as char);
    push_char(&mut s, ((cents % 10) as u8 + 48u8) as char);
    assert(s@ =~= dollars_text(total_cents as int));
    s
}

/// `s` with its commas taken out.
pub open spec fn without_commas(s: Seq<char>) -> Seq<char>
    decreases s.len(),
{
    if s.len() == 0 {
        s
    } else if s.last() == ',' {
        without_commas(s.drop_last())
    } else {
        without_commas(s.drop_last()).push(s.last())
    }
}

/// `s` is a number written in groups of three digits: only digits and
/// commas, a digit first, and a comma exactly at every fourth place counted
/// from the end, so that every group after the first has three digits.
pub open spec fn is_grouped_number(s: Seq<char>) -> bool {
    &&& s.len() > 0
    &&& is_digit(s[0])
    &&& forall|i: int|
        0 <= i < s.len() ==> ((#[trigger] s[i] == ',') <==> (i > 0 && (s.len() - i) % 4 == 0))
            && (s[i] == ',' || is_digit(s[i]))
}

proof fn lemma_digits_value_push(s: Seq<char>, c: char)
    requires
        is_digit(c),
    ensures
        digits_value(s.push(c)) == digits_value(s) * 10 + digit_value(c),
{
    assert(s.push(c).drop_last() =~= s);
}

proof fn lemma_without_commas_concat(a: Seq<char>, b: Seq<char>)
    ensures
        without_commas(a + b) == without_commas(a) + without_commas(b),
    decreases b.len(),
{
    if b.len() == 0 {
        assert(a + b =~= a);
        assert(without_commas(a) + without_commas(b) =~= without_commas(a));
    } else {
        lemma_without_commas_concat(a, b.drop_last());
        assert((a + b).drop_last() =~= a + b.drop_last());
        assert((a + b).last() == b.last());
        if b.last() != ',' {
            assert(without_commas(a) + without_commas(b) =~= (without_commas(a) + without_commas(
                b.drop_last(),
            )).push(b.last()));
        }
    }
}

proof fn lemma_without_commas_of_digits(s: Seq<char>)
    requires
        all_digits(s),
    ensures
        without_commas(s) == s,
    decreases s.len(),
{
    if s.len() > 0 {
        assert(is_digit(s[s.len() - 1]));
        assert(all_digits(s.drop_last())) by {
            assert forall|i: int| 0 <= i < s.drop_last().len() implies is_digit(
                #[trigger] s.drop_last()[i],
            ) by {
                assert(s.drop_last()[i] == s[i]);
            }
        }
        lemma_without_commas_of_digits(s.drop_last());
        assert(s.drop_last().push(s.last()) =~= s);
    }
}

proof fn lemma_small_decimal(n: nat)
    requires
        n < 1000,
    ensures
        1 <= decimal(n).len() <= 3,
        all_digits(decimal(n)),
        digits_value(decimal(n)) == n,
{
    lemma_decimal_digits(n);
    if n >= 100 {
        assert(n / 10 / 10 == n / 100);
        assert(decimal(n / 100).len() == 1);
        assert(decimal(n / 10).len() == decimal(n / 100).len() + 1);
        assert(decimal(n).len() == decimal(n / 10).len() + 1);
    } else if n >= 10 {
        assert(decimal(n / 10).len() == 1);
        assert(decimal(n).len() == decimal(n / 10).len() + 1);
    } else {
        assert(decimal(n).len() == 1);
    }
}

/// `grouped(n)` is `n` written in groups of three digits: the commas mark
/// exactly the groups, and the digits, read without them, give `n` back.
pub proof fn lemma_grouped_reads_back(n: nat)
    ensures
        is_grouped_number(grouped(n)),
        all_digits(without_commas(grouped(n))),
        digits_value(without_commas(grouped(n))) == n,
    decreases n,
{
    if n < 1000 {
        lemma_small_decimal(n);
        lemma_without_commas_of_digits(decimal(n));
        let d = decimal(n);
        assert(is_digit(d[0]));
        assert forall|i: int| 0 <= i < d.len() implies ((#[trigger] d[i] == ',') <==> (i > 0 && (
        d.len() - i) % 4 == 0)) && (d[i] == ',' || is_digit(d[i])) by {
            assert(is_digit(d[i]));
        }
    } else {
        let q = n / 1000;
        let r = n % 1000;
        lemma_grouped_reads_back(q);
        let g = grouped(q);
        let t = three_digits(r);
        let a = digit_char((r / 100) as int);
        let b = digit_char(((r / 10) % 10) as int);
        let c = digit_char((r % 10) as int);
        assert(t =~= seq![a, b, c]);
        assert(all_digits(t));
        lemma_without_commas_of_digits(t);
        let full = grouped(n);
        assert(full == g + seq![','] + t);
        lemma_without_commas_concat(g + seq![','], t);
        lemma_without_commas_concat(g, seq![',']);
        assert(without_commas(seq![',']) =~= Seq::<char>::empty()) by {
            assert(seq![','].drop_last() =~= Seq::<char>::empty());
            assert(seq![','].last() == ',');
            assert(without_commas(Seq::<char>::empty()) =~= Seq::<char>::empty());
        }
        let wg = without_commas(g);
        assert(without_commas(full) =~= wg + t);
        assert(wg + t =~= wg.push(a).push(b).push(c));
        lemma_digits_value_push(wg, a);
        lemma_digits_value_push(wg.push(a), b);
        lemma_digits_value_push(wg.push(a).push(b), c);
        assert(r == (r / 100) * 100 + ((r / 10) % 10) * 10 + r % 10);
        assert(n == q * 1000 + r);
        assert(all_digits(wg + t)) by {
            assert forall|i: int| 0 <= i < (wg + t).len() implies is_digit(#[trigger] (wg + t)[i]) by {
                if i < wg.len() {
                    assert((wg + t)[i] == wg[i]);
                } else {
                    assert((wg + t)[i] == t[i - wg.len()]);
                }
            }
        }
        assert(full[0] == g[0]);
        assert forall|i: int| 0 <= i < full.len() implies ((#[trigger] full[i] == ',') <==> (i > 0
            && (full.len() - i) % 4 == 0)) && (full[i] == ',' || is_digit(full[i])) by {
            if i < g.len() {
                assert(full[i] == g[i]);
            } else if i == g.len() {
                assert(full[i] == ',');
            } else {
                assert(full[i] == t[i - g.len() - 1]);
            }
        }
    }
}

/// What `format_dollars` writes reads back as the amount: a `$`, a `-` for
/// amounts of a dollar or more below zero, the whole dollars written in
/// groups of three digits whose digits give back the amount's whole dollars,
/// a `.`, and two digits that give back its cents.
pub proof fn lemma_dollars_text_reads_back(total_cents: int)
    ensures
        ({
            let t = dollars_text(total_cents);
            let m = if total_cents < 0 {
                -total_cents
            } else {
                total_cents
            };
            let k = if total_cents <= -100 {
                2int
            } else {
                1int
            };
            &&& t.len() >= k + 4
            &&& t[0] == '$'
            &&& total_cents <= -100 ==> t[1] == '-'
            &&& t[t.len() - 3] == '.'
            &&& is_digit(t[t.len() - 2]) && is_digit(t[t.len() - 1])
            &&& digit_value(t[t.len() - 2]) * 10 + digit_value(t[t.len() - 1]) == m % 100
            &&& is_grouped_number(t.subrange(k, t.len() - 3))
            &&& digits_value(without_commas(t.subrange(k, t.len() - 3))) == m / 100
        }),
{
    let t = dollars_text(total_cents);
    let m = if total_cents < 0 {
        -total_cents
    } else {
        total_cents
    };
    let k = if total_cents <= -100 {
        2int
    } else {
        1int
    };
    let cp = m % 100;
    let g = grouped((m / 100) as nat);
    lemma_grouped_reads_back((m / 100) as nat);
    let tail = seq!['.', digit_char(cp / 10), digit_char(cp % 10)];
    if total_cents <= -100 {
        assert(t =~= seq!['$'] + (seq!['-'] + g) + tail);
        assert(t.subrange(k, t.len() - 3) =~= g);
    } else {
        assert(t =~= seq!['$'] + g + tail);
        assert(t.subrange(k, t.len() - 3) =~= g);
    }
    assert(t[t.len() - 3] == '.');
    assert(t[t.len() - 2] == digit_char(cp / 10));
    assert(t[t.len() - 1] == digit_char(cp % 10));
    assert(cp == (cp / 10) * 10 + cp % 10);
}

} // verus!
