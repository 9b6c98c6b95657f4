//! Text and numbers written out.
use vstd::prelude::*;
use crate::text::{
    all_digits, decimal, decimal_value, digit_value, first_index, first_occurrence, is_digit,
    last_index, occurs, occurs_at, padded, trim_bounds, trimmed, two_digits, u16_of,
    unsigned_digits, white_space,
};

verus! {

/// A text stands in another one exactly if that is made of something, the text, and something
/// more.
pub proof fn law_a_part_occurs(a: Seq<char>, pat: Seq<char>, b: Seq<char>, s: Seq<char>)
    ensures
        occurs(a + pat + b, pat),
        occurs(s, pat) ==> exists|x: Seq<char>, y: Seq<char>| s == #[trigger] (x + pat + y),
{
    let whole = a + pat + b;
    assert(whole.subrange(a.len() as int, a.len() as int + pat.len()) =~= pat);
    assert(occurs_at(whole, pat, a.len() as int));
    if occurs(s, pat) {
        let i = choose|i: int| occurs_at(s, pat, i);
        let x = s.take(i);
        let y = s.skip(i + pat.len());
        assert forall|k: int| 0 <= k < s.len() implies s[k] == (x + pat + y)[k] by {
            if i <= k < i + pat.len() {
                assert(s.subrange(i, i + pat.len())[k - i] == s[k]);
            }
        }
        assert(s =~= x + pat + y);
    }
}

/// The first place of a text, and the first and the last place of a character.
pub proof fn law_first_and_last_places(s: Seq<char>, pat: Seq<char>, c: char, i: int)
    ensures
        first_occurrence(s, pat, i) <==> 0 <= i && i + pat.len() <= s.len() && (forall|k: int|
            0 <= k < pat.len() ==> s[i + k] == #[trigger] pat[k]) && forall|j: int|
            0 <= j < i ==> #[trigger] s.subrange(j, j + pat.len()) != pat,
        first_index(s, c, i) <==> 0 <= i < s.len() && s[i] == c && !s.take(i).contains(c),
        last_index(s, c, i) <==> 0 <= i < s.len() && s[i] == c && !s.skip(i + 1).contains(c),
{
    if 0 <= i && i + pat.len() <= s.len() {
        let part = s.subrange(i, i + pat.len());
        assert(forall|k: int| 0 <= k < pat.len() ==> part[k] == s[i + k]);
        if forall|k: int| 0 <= k < pat.len() ==> s[i + k] == #[trigger] pat[k] {
            assert(part =~= pat);
        }
        if first_occurrence(s, pat, i) {
            assert forall|j: int| 0 <= j < i implies #[trigger] s.subrange(j, j + pat.len())
                != pat by {
                assert(!occurs_at(s, pat, j));
            }
        }
    }
    if 0 <= i < s.len() {
        if first_index(s, c, i) {
            assert(forall|j: int| 0 <= j < i ==> s.take(i)[j] == s[j]);
        }
        if !s.take(i).contains(c) {
            assert forall|j: int| 0 <= j < i implies s[j] != c by {
                assert(s.take(i)[j] == s[j]);
            }
        }
        if last_index(s, c, i) {
            let rest = s.skip(i + 1);
            assert(forall|j: int| 0 <= j < rest.len() ==> #[trigger] rest[j] == s[i + 1 + j]);
        }
        if !s.skip(i + 1).contains(c) {
            assert forall|j: int| i < j < s.len() implies s[j] != c by {
                assert(s.skip(i + 1)[j - i - 1] == s[j]);
            }
        }
    }
}

/// Blanks, tabs and line ends are white space; letters, digits and signs are not. Besides those
/// blanks, the ones of Unicode are white space too.
pub proof fn law_white_space(c: char)
    ensures
        white_space(c) <==> '\t' <= c <= '\r' || c == ' ' || c == '\u{85}' || c == '\u{a0}' || c
            == '\u{1680}' || '\u{2000}' <= c <= '\u{200a}' || c == '\u{2028}' || c == '\u{2029}'
            || c == '\u{202f}' || c == '\u{205f}' || c == '\u{3000}',
        c == ' ' || c == '\t' || c == '\n' || c == '\r' ==> white_space(c),
        '!' <= c <= '~' ==> !white_space(c),
{
}

/// Trimming takes white space alone from the two ends, and all of it.
pub proof fn law_trimming_takes_white_space(a: Seq<char>, t: Seq<char>, b: Seq<char>)
    requires
        forall|i: int| 0 <= i < a.len() ==> white_space(a[i]),
        forall|i: int| 0 <= i < b.len() ==> white_space(b[i]),
        t.len() > 0 ==> !white_space(t[0]) && !white_space(t.last()),
    ensures
        trimmed(a + t + b, t),
        forall|u: Seq<char>| #[trigger] trimmed(a + t + b, u) ==> u == t,
{
    let s = a + t + b;
    let n = a.len() as int;
    let m = n + t.len();
    assert forall|i: int| 0 <= i < n implies white_space(s[i]) by {
        assert(s[i] == a[i]);
    }
    assert forall|i: int| m <= i < s.len() implies white_space(s[i]) by {
        assert(s[i] == b[i - m]);
    }
    if t.len() > 0 {
        assert(s[n] == t[0] && s[m - 1] == t.last());
    }
    assert(trim_bounds(s, n, m));
    assert(s.subrange(n, m) =~= t);
    assert forall|u: Seq<char>| #[trigger] trimmed(s, u) implies u == t by {
        crate::text::lemma_trimmed_unique(s, u, t);
    }
}

/// A number of several digits is written as that of all but the last, and the last digit.
pub proof fn law_decimal_digits(n: nat, d: nat)
    requires
        d < 10,
    ensures
        decimal(d).len() == 1,
        decimal(d)[0] as u32 == 48 + d,
        n > 0 ==> decimal(10 * n + d) == decimal(n) + decimal(d),
{
    if n > 0 {
        assert((10 * n + d) / 10 == n);
        assert((10 * n + d) % 10 == d);
        assert(decimal(10 * n + d) =~= decimal(n) + decimal(d));
    }
}

/// Two digits, with a zero in front where the number has one digit only.
pub proof fn law_two_digits(n: nat)
    ensures
        n < 100 ==> two_digits(n).len() == 2 && two_digits(n)[0] as u32 == 48 + n / 10
            && two_digits(n)[1] as u32 == 48 + n % 10,
        n >= 100 ==> two_digits(n) == decimal(n),
{
    if 10 <= n < 100 {
        law_decimal_digits(n / 10, n % 10);
        law_decimal_digits(0, n / 10);
        assert(10 * (n / 10) + n % 10 == n);
    } else if n < 10 {
        law_decimal_digits(0, n);
    }
}

/// A text is brought to a width by blanks in front of it, and is never cut.
pub proof fn law_padding(s: Seq<char>, width: nat)
    ensures
        padded(s, width).len() == if s.len() < width {
            width
        } else {
            s.len()
        },
        padded(s, width).skip(padded(s, width).len() - s.len()) == s,
        forall|i: int|
            0 <= i < padded(s, width).len() - s.len() ==> #[trigger] padded(s, width)[i] == ' ',
{
    assert(padded(s, width).skip(padded(s, width).len() - s.len()) =~= s);
}

/// A number of 16 bits is read digit by digit, with or without a plus sign in front; one that does
/// not fit, and any text with another character in it, is refused.
pub proof fn law_numbers_are_read(s: Seq<char>, c: char, n: u16)
    ensures
        u16_of(decimal(n as nat)) == Some(n),
        u16_of(Seq::<char>::empty()) is None,
        u16_of(seq!['+']) is None,
        '0' <= c <= '9' ==> (u16_of(seq![c]) matches Some(v) && 48 + v == c as u32),
        s.len() > 0 && !('0' <= c <= '9') ==> u16_of(s.push(c)) is None,
        '0' <= c <= '9' ==> (u16_of(s) matches Some(v) ==> u16_of(s.push(c)) == if 10 * v + (c as u32
            - 48) <= 65535 {
            Some((10 * v + (c as u32 - 48)) as u16)
        } else {
            None::<u16>
        }),
        s.len() > 0 && s != seq!['+'] && u16_of(s) is None ==> u16_of(s.push(c)) is None,
        s.len() > 0 && s[0] != '+' ==> u16_of(seq!['+'] + s) == u16_of(s),
{
    crate::text::lemma_decimal(n as nat);
    let dn = decimal(n as nat);
    assert(is_digit(dn[0]));
    assert(unsigned_digits(dn) == dn);
    assert(seq!['+'].skip(1).len() == 0);
    if '0' <= c <= '9' {
        assert(seq![c].drop_last() =~= Seq::<char>::empty());
        assert(decimal_value(Seq::<char>::empty()) == 0);
        assert(decimal_value(seq![c]) == digit_value(c));
        assert(all_digits(seq![c]));
        if u16_of(s) is Some {
            let d = unsigned_digits(s);
            let e = unsigned_digits(s.push(c));
            assert(e =~= d.push(c));
            assert(e.drop_last() =~= d);
            assert(all_digits(e));
        }
    }
    if s.len() > 0 && !('0' <= c <= '9') {
        let e = unsigned_digits(s.push(c));
        assert(e.last() == c);
        assert(!is_digit(e[e.len() - 1]));
    }
    if s.len() > 0 && s != seq!['+'] && u16_of(s) is None {
        let d = unsigned_digits(s);
        let e = unsigned_digits(s.push(c));
        assert(e =~= d.push(c));
        assert(e.drop_last() =~= d);
        if d.len() == 0 {
            assert(s =~= seq!['+']);
        }
        if !all_digits(d) {
            let i = choose|i: int| 0 <= i < d.len() && !is_digit(d[i]);
            assert(!is_digit(e[i]));
        }
    }
    if s.len() > 0 && s[0] != '+' {
        assert((seq!['+'] + s).skip(1) =~= s);
    }
}

} // verus!
