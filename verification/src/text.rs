//! Small facts about strings and string lists used across the crate.
use vstd::prelude::*;

verus! {

/// The character sequences of a list of strings.
pub open spec fn views(v: Seq<String>) -> Seq<Seq<char>> {
    v.map_values(|s: String| s@)
}

/// The first position at which `target` occurs in `v`, compared by contents.
pub fn find_string(v: &[String], target: &String) -> (r: Option<usize>)
    ensures
        match r {
            Some(i) => {
                &&& views(v@).index_of_first(target@) == Some(i as int)
                &&& i < v.len()
                &&& v@[i as int]@ == target@
            },
            None => views(v@).index_of_first(target@) is None,
        },
{
    let ghost vs = views(v@);
    proof {
        vs.index_of_first_ensures(target@);
    }
    let mut i: usize = 0;
    while i < v.len()
        invariant
            i <= v.len(),
            vs == views(v@),
            vs.len() == v.len(),
            forall|j: int| 0 <= j < i ==> vs[j] != target@,
            match vs.index_of_first(target@) {
                Some(index) => {
                    &&& vs.contains(target@)
                    &&& 0 <= index < vs.len()
                    &&& vs[index] == target@
                    &&& forall|j: int| 0 <= j < index < vs.len() ==> vs[j] != target@
                },
                None => !vs.contains(target@),
            },
        decreases v.len() - i,
    {
        if v[i] == *target {
            proof {
                assert(vs[i as int] == target@);
                assert(vs.contains(target@));
            }
            return Some(i);
        }
        i = i + 1;
    }
    proof {
        if vs.contains(target@) {
            let k = choose|k: int| 0 <= k < vs.len() && vs[k] == target@;
            assert(vs[k] != target@);
        }
    }
    None
}


/// Append one character.
///
/// Trusted wrapper of `String::push`, documented to append the character at
/// the end of the string.
#[verifier::external_body]
pub(crate) fn push_char(s: &mut String, c: char)
    ensures
        final(s)@ == old(s)@.push(c),
{
    s.push(c);
}

/// The pieces of `s` between occurrences of `sep`, as `str::split` yields
/// them: one more piece than there are separators, empty pieces included.
pub open spec fn split_on(s: Seq<char>, sep: char) -> Seq<Seq<char>>
    decreases s.len(),
{
    if s.len() == 0 {
        seq![Seq::<char>::empty()]
    } else {
        let rest = split_on(s.drop_last(), sep);
        if s.last() == sep {
            rest.push(Seq::<char>::empty())
        } else {
            rest.update(rest.len() - 1, rest.last().push(s.last()))
        }
    }
}

pub proof fn lemma_split_on_nonempty(s: Seq<char>, sep: char)
    ensures
        split_on(s, sep).len() >= 1,
    decreases s.len(),
{
    if s.len() > 0 {
        lemma_split_on_nonempty(s.drop_last(), sep);
    }
}

/// Split `s` at every `sep`.
pub fn split_str(s: &str, sep: char) -> (r: Vec<String>)
    ensures
        views(r@) == split_on(s@, sep),
{
    let n = s.unicode_len();
    let mut done: Vec<String> = Vec::new();
    let mut current = String::new();
    let mut i: usize = 0;
    while i < n
        invariant
            n == s@.len(),
            i <= n,
            views(done@).push(current@) == split_on(s@.take(i as int), sep),
        decreases n - i,
    {
        let c = s.get_char(i);
        let ghost before = s@.take(i as int);
        proof {
            assert(s@.take(i + 1).drop_last() =~= before);
            assert(s@.take(i + 1).last() == c);
            lemma_split_on_nonempty(before, sep);
        }
        if c == sep {
            let finished = current;
            let ghost done_before = done@;
            done.push(finished);
            current = String::new();
            proof {
                assert(views(done@) =~= views(done_before).push(finished@));
                assert(views(done@).push(current@) =~= split_on(before, sep).push(Seq::<char>::empty()));
            }
        } else {
            let ghost cur_before = current@;
            push_char(&mut current, c);
            proof {
                let rest = split_on(before, sep);
                assert(rest =~= views(done@).push(cur_before));
                assert(views(done@).push(current@) =~= rest.update(rest.len() - 1, rest.last().push(c)));
            }
        }
        i = i + 1;
    }
    proof {
        assert(s@.take(n as int) =~= s@);
    }
    let ghost done_before = done@;
    done.push(current);
    proof {
        assert(views(done@) =~= views(done_before).push(current@));
    }
    done
}

/// The character of a decimal digit.
pub open spec fn digit_char(d: int) -> char {
    if d == 0 {
        '0'
    } else if d == 1 {
        '1'
    } else if d == 2 {
        '2'
    } else if d == 3 {
        '3'
    } else if d == 4 {
        '4'
    } else if d == 5 {
        '5'
    } else if d == 6 {
        '6'
    } else if d == 7 {
        '7'
    } else if d == 8 {
        '8'
    } else {
        '9'
    }
}

pub proof fn lemma_digit_char(d: int)
    requires
        0 <= d < 10,
    ensures
        digit_char(d) as int == 48 + d,
        '0' <= digit_char(d) <= '9',
{
}

/// The decimal digits of `n`, without leading zeros ("0" for zero).
pub open spec fn decimal(n: nat) -> Seq<char>
    decreases n,
{
    if n < 10 {
        seq![digit_char(n as int)]
    } else {
        decimal(n / 10).push(digit_char((n % 10) as int))
    }
}

pub fn digit(d: u32) -> (c: char)
    requires
        d < 10,
    ensures
        c == digit_char(d as int),
{
    if d == 0 {
        '0'
    } else if d == 1 {
        '1'
    } else if d == 2 {
        '2'
    } else if d == 3 {
        '3'
    } else if d == 4 {
        '4'
    } else if d == 5 {
        '5'
    } else if d == 6 {
        '6'
    } else if d == 7 {
        '7'
    } else if d == 8 {
        '8'
    } else {
        '9'
    }
}

/// Append the decimal digits of `n`.
pub fn push_decimal(s: &mut String, n: u64)
    ensures
        final(s)@ == old(s)@ + decimal(n as nat),
    decreases n,
{
    if n < 10 {
        push_char(s, digit(n as u32));
        proof {
            assert(old(s)@.push(digit_char(n as int)) =~= old(s)@ + decimal(n as nat));
        }
    } else {
        push_decimal(s, n / 10);
        push_char(s, digit((n % 10) as u32));
        proof {
            assert(old(s)@ + decimal((n / 10) as nat) + seq![digit_char((n % 10) as int)] =~= old(s)@
                + decimal(n as nat));
        }
    }
}

/// Whether every character is an ASCII digit.
pub open spec fn all_digits(s: Seq<char>) -> bool {
    forall|i: int| 0 <= i < s.len() ==> '0' <= #[trigger] s[i] <= '9'
}

/// The number that a string of ASCII digits spells.
pub open spec fn digits_value(s: Seq<char>) -> int
    decreases s.len(),
{
    if s.len() == 0 {
        0
    } else {
        digits_value(s.drop_last()) * 10 + (s.last() as int - 48)
    }
}

/// What `str::parse` gives for an unsigned integer type whose largest value
/// is `max`: an optional `+`, then one or more ASCII digits, the value at
/// most `max`.
pub open spec fn parse_unsigned(s: Seq<char>, max: int) -> Option<int> {
    let d = if s.len() > 0 && s[0] == '+' { s.drop_first() } else { s };
    if d.len() == 0 || !all_digits(d) || digits_value(d) > max {
        None
    } else {
        Some(digits_value(d))
    }
}

pub proof fn lemma_digits_value_nonneg(s: Seq<char>)
    requires
        all_digits(s),
    ensures
        digits_value(s) >= 0,
    decreases s.len(),
{
    if s.len() > 0 {
        lemma_digits_value_nonneg(s.drop_last());
    }
}

pub proof fn lemma_digits_value_monotone(s: Seq<char>, k: int)
    requires
        all_digits(s),
        0 <= k <= s.len(),
    ensures
        digits_value(s.take(k)) <= digits_value(s),
    decreases s.len() - k,
{
    if k < s.len() {
        lemma_digits_value_monotone(s, k + 1);
        assert(s.take(k + 1).drop_last() =~= s.take(k));
        assert(all_digits(s.take(k)));
        lemma_digits_value_nonneg(s.take(k));
    } else {
        assert(s.take(k) =~= s);
    }
}

/// Parse an unsigned decimal number no larger than `max`, as `str::parse`
/// does for `u8` (`max` 255) and `u16` (`max` 65535).
pub fn parse_number(s: &str, max: u32) -> (r: Option<u32>)
    requires
        max <= 65535,
    ensures
        match r {
            Some(v) => parse_unsigned(s@, max as int) == Some(v as int),
            None => parse_unsigned(s@, max as int) is None,
        },
{
    let n = s.unicode_len();
    if n == 0 {
        return None;
    }
    let start: usize = if s.get_char(0) == '+' { 1 } else { 0 };
    let ghost d = if s@.len() > 0 && s@[0] == '+' { s@.drop_first() } else { s@ };
    if start == n {
        return None;
    }
    let mut value: u32 = 0;
    let mut i: usize = start;
    while i < n
        invariant
            n == s@.len(),
            start <= i <= n,
            start == n - d.len(),
            d =~= s@.skip(start as int),
            d == (if s@.len() > 0 && s@[0] == '+' { s@.drop_first() } else { s@ }),
            all_digits(d.take(i - start)),
            value == digits_value(d.take(i - start)),
            value <= max,
            max <= 65535,
        decreases n - i,
    {
        let c = s.get_char(i);
        proof {
            assert(d[i - start] == c);
            assert(d.take(i - start + 1).drop_last() =~= d.take(i - start));
        }
        if c < '0' || c > '9' {
            proof {
                assert(!('0' <= d[i - start] <= '9'));
                assert(!all_digits(d));
                assert(parse_unsigned(s@, max as int) is None);
            }
            return None;
        }
        proof {
            assert(48 <= (c as u32) <= 57);
        }
        let dv = (c as u32) - 48;
        let next = value * 10 + dv;
        if next > max {
            proof {
                assert(all_digits(d.take(i - start + 1)));
                if all_digits(d) {
                    lemma_digits_value_monotone(d, i - start + 1);
                }
                assert(parse_unsigned(s@, max as int) is None);
            }
            return None;
        }
        value = next;
        i = i + 1;
    }
    proof {
        assert(d.take(i - start) =~= d);
    }
    Some(value)
}

/// Writing a number in decimal and reading it back gives the number.
pub proof fn lemma_parse_decimal(n: nat, max: int)
    requires
        n <= max,
    ensures
        parse_unsigned(decimal(n), max) == Some(n as int),
{
    lemma_decimal_digits(n);
}

pub proof fn lemma_decimal_digits(n: nat)
    ensures
        all_digits(decimal(n)),
        digits_value(decimal(n)) == n,
        decimal(n).len() > 0,
        decimal(n)[0] != '+',
    decreases n,
{
    lemma_digit_char((n % 10) as int);
    if n < 10 {
        lemma_digit_char(n as int);
        assert(decimal(n).drop_last() =~= Seq::<char>::empty());
        assert(digits_value(Seq::<char>::empty()) == 0);
        assert(digits_value(decimal(n)) == digits_value(decimal(n).drop_last()) * 10 + (decimal(n).last() as int - 48));
    } else {
        lemma_decimal_digits(n / 10);
        let d = decimal(n);
        assert(d.drop_last() =~= decimal(n / 10));
        assert(d.last() == digit_char((n % 10) as int));
        assert(digits_value(d) == digits_value(decimal(n / 10)) * 10 + (d.last() as int - 48));
        assert(n == (n / 10) * 10 + n % 10);
        assert(d[0] == decimal(n / 10)[0]);
    }
}


/// A text without the separator is a single piece.
pub proof fn lemma_split_without_sep(y: Seq<char>, sep: char)
    requires
        forall|i: int| 0 <= i < y.len() ==> y[i] != sep,
    ensures
        split_on(y, sep) == seq![y],
    decreases y.len(),
{
    if y.len() == 0 {
        assert(y =~= Seq::<char>::empty());
    } else {
        assert forall|i: int| 0 <= i < y.drop_last().len() implies y.drop_last()[i] != sep by {
            assert(y.drop_last()[i] == y[i]);
        }
        lemma_split_without_sep(y.drop_last(), sep);
        assert(y[y.len() - 1] != sep);
        assert(y.drop_last().push(y.last()) =~= y);
        assert(seq![y.drop_last()].update(0, y.drop_last().push(y.last())) =~= seq![y]);
    }
}

/// Splitting two texts joined by the separator gives the pieces of each.
pub proof fn lemma_split_concat(x: Seq<char>, y: Seq<char>, sep: char)
    ensures
        split_on(x + seq![sep] + y, sep) == split_on(x, sep) + split_on(y, sep),
    decreases y.len(),
{
    let s = x + seq![sep] + y;
    if y.len() == 0 {
        assert(s.drop_last() =~= x);
        assert(split_on(y, sep) =~= seq![Seq::<char>::empty()]);
        assert(split_on(x, sep).push(Seq::<char>::empty()) =~= split_on(x, sep) + seq![Seq::<char>::empty()]);
    } else {
        let y2 = y.drop_last();
        assert(s.drop_last() =~= x + seq![sep] + y2);
        assert(s.last() == y.last());
        lemma_split_concat(x, y2, sep);
        lemma_split_on_nonempty(y2, sep);
        lemma_split_on_nonempty(x, sep);
        let a = split_on(x, sep);
        let b = split_on(y2, sep);
        if y.last() == sep {
            assert((a + b).push(Seq::<char>::empty()) =~= a + b.push(Seq::<char>::empty()));
        } else {
            assert((a + b).update((a + b).len() - 1, (a + b).last().push(y.last())) =~= a + b.update(
                b.len() - 1,
                b.last().push(y.last()),
            ));
        }
    }
}

/// Decimal digits contain no tab.
pub proof fn lemma_decimal_has_no_tab(n: nat)
    ensures
        forall|i: int| 0 <= i < decimal(n).len() ==> decimal(n)[i] != '\t',
{
    lemma_decimal_digits(n);
    assert forall|i: int| 0 <= i < decimal(n).len() implies decimal(n)[i] != '\t' by {
        assert('0' <= decimal(n)[i] <= '9');
    }
}


/// Unicode `White_Space`, as `char::is_whitespace` tests it.
pub open spec fn is_space(c: char) -> bool {
    ||| ('\u{9}' <= c && c <= '\u{d}')
    ||| c == ' '
    ||| c == '\u{85}'
    ||| c == '\u{a0}'
    ||| c == '\u{1680}'
    ||| ('\u{2000}' <= c && c <= '\u{200a}')
    ||| c == '\u{2028}'
    ||| c == '\u{2029}'
    ||| c == '\u{202f}'
    ||| c == '\u{205f}'
    ||| c == '\u{3000}'
}

pub fn is_space_char(c: char) -> (r: bool)
    ensures
        r == is_space(c),
{
    ('\u{9}' <= c && c <= '\u{d}') || c == ' ' || c == '\u{85}' || c == '\u{a0}' || c
        == '\u{1680}' || ('\u{2000}' <= c && c <= '\u{200a}') || c == '\u{2028}' || c
        == '\u{2029}' || c == '\u{202f}' || c == '\u{205f}' || c == '\u{3000}'
}

/// `s` without leading white space.
pub open spec fn trim_start(s: Seq<char>) -> Seq<char>
    decreases s.len(),
{
    if s.len() > 0 && is_space(s[0]) {
        trim_start(s.drop_first())
    } else {
        s
    }
}

/// `s` without trailing white space.
pub open spec fn trim_end(s: Seq<char>) -> Seq<char>
    decreases s.len(),
{
    if s.len() > 0 && is_space(s.last()) {
        trim_end(s.drop_last())
    } else {
        s
    }
}

/// `s` without leading and trailing white space, as `str::trim` gives it.
pub open spec fn trimmed(s: Seq<char>) -> Seq<char> {
    trim_end(trim_start(s))
}

pub proof fn lemma_trim_start_skip(s: Seq<char>, k: int)
    requires
        0 <= k <= s.len(),
        forall|i: int| 0 <= i < k ==> is_space(#[trigger] s[i]),
        k == s.len() || !is_space(s[k]),
    ensures
        trim_start(s) == s.skip(k),
    decreases k,
{
    if k == 0 {
        assert(s.skip(0) =~= s);
    } else {
        assert(is_space(s[0]));
        let t = s.drop_first();
        assert forall|i: int| 0 <= i < k - 1 implies is_space(#[trigger] t[i]) by {
            assert(t[i] == s[i + 1]);
        }
        if k < s.len() {
            assert(t[k - 1] == s[k]);
        }
        lemma_trim_start_skip(t, k - 1);
        assert(t.skip(k - 1) =~= s.skip(k));
    }
}

pub proof fn lemma_trim_end_take(s: Seq<char>, k: int)
    requires
        0 <= k <= s.len(),
        forall|i: int| k <= i < s.len() ==> is_space(#[trigger] s[i]),
        k == 0 || !is_space(s[k - 1]),
    ensures
        trim_end(s) == s.take(k),
    decreases s.len() - k,
{
    if k == s.len() {
        assert(s.take(k) =~= s);
    } else {
        assert(is_space(s[s.len() - 1]));
        let t = s.drop_last();
        assert forall|i: int| k <= i < t.len() implies is_space(#[trigger] t[i]) by {
            assert(t[i] == s[i]);
        }
        if k > 0 {
            assert(t[k - 1] == s[k - 1]);
        }
        lemma_trim_end_take(t, k);
        assert(t.take(k) =~= s.take(k));
    }
}

/// `s` without leading and trailing white space.
pub fn trim(s: &str) -> (r: &str)
    ensures
        r@ == trimmed(s@),
{
    let n = s.unicode_len();
    let mut a: usize = 0;
    while a < n && is_space_char(s.get_char(a))
        invariant
            n == s@.len(),
            a <= n,
            forall|i: int| 0 <= i < a ==> is_space(#[trigger] s@[i]),
        decreases n - a,
    {
        a = a + 1;
    }
    proof {
        lemma_trim_start_skip(s@, a as int);
    }
    let ghost mid = s@.skip(a as int);
    let mut b: usize = n;
    while b > a && is_space_char(s.get_char(b - 1))
        invariant
            n == s@.len(),
            a <= b <= n,
            mid == s@.skip(a as int),
            forall|i: int| b <= i < n ==> is_space(#[trigger] s@[i]),
        decreases b - a,
    {
        b = b - 1;
    }
    proof {
        assert forall|i: int| b - a <= i < mid.len() implies is_space(#[trigger] mid[i]) by {
            assert(mid[i] == s@[i + a]);
        }
        if b > a {
            assert(mid[b - a - 1] == s@[b - 1]);
        }
        lemma_trim_end_take(mid, b - a);
        assert(mid.take(b - a) =~= s@.subrange(a as int, b as int));
    }
    s.substring_char(a, b)
}


/// The parts of `s` before and after the first `c`, as `str::split_once`
/// gives them.
pub open spec fn split_once(s: Seq<char>, c: char) -> Option<(Seq<char>, Seq<char>)> {
    match s.index_of_first(c) {
        Some(i) => Some((s.take(i), s.skip(i + 1))),
        None => None,
    }
}

/// Split `s` at its first `c`.
pub fn split_once_char(s: &str, c: char) -> (r: Option<(&str, &str)>)
    ensures
        match r {
            Some((a, b)) => split_once(s@, c) == Some((a@, b@)),
            None => split_once(s@, c) is None,
        },
{
    let n = s.unicode_len();
    proof {
        s@.index_of_first_ensures(c);
    }
    let mut i: usize = 0;
    while i < n
        invariant
            n == s@.len(),
            i <= n,
            forall|j: int| 0 <= j < i ==> s@[j] != c,
            match s@.index_of_first(c) {
                Some(index) => {
                    &&& s@.contains(c)
                    &&& 0 <= index < s@.len()
                    &&& s@[index] == c
                    &&& forall|j: int| 0 <= j < index < s@.len() ==> s@[j] != c
                },
                None => !s@.contains(c),
            },
        decreases n - i,
    {
        if s.get_char(i) == c {
            proof {
                assert(s@.contains(c));
            }
            let a = s.substring_char(0, i);
            let b = s.substring_char(i + 1, n);
            proof {
                assert(a@ =~= s@.take(i as int));
                assert(b@ =~= s@.skip(i + 1));
            }
            return Some((a, b));
        }
        i = i + 1;
    }
    proof {
        if s@.contains(c) {
            let k = choose|k: int| 0 <= k < s@.len() && s@[k] == c;
            assert(s@[k] != c);
        }
    }
    None
}

/// The characters of `s`, in order.
pub fn chars_of(s: &str) -> (r: Vec<char>)
    ensures
        r@ == s@,
{
    broadcast use vstd::string::axiom_spec_iter;
    let mut r: Vec<char> = Vec::new();
    for c in it: s.chars()
        invariant
            r@ == it.seq().take(it.index()),
    {
        r.push(c);
    }
    r
}

/// The order in which `str` comparison puts two texts: character by
/// character by code point, a proper prefix first.
pub open spec fn text_lt(a: Seq<char>, b: Seq<char>) -> bool
    decreases a.len(),
{
    if a.len() == 0 {
        b.len() > 0
    } else if b.len() == 0 {
        false
    } else if a[0] == b[0] {
        text_lt(a.drop_first(), b.drop_first())
    } else {
        (a[0] as int) < (b[0] as int)
    }
}

/// No text comes before itself.
pub proof fn lemma_text_lt_irreflexive(a: Seq<char>)
    ensures
        !text_lt(a, a),
    decreases a.len(),
{
    if a.len() > 0 {
        lemma_text_lt_irreflexive(a.drop_first());
    }
}

/// Of two different texts exactly one comes first; of equal texts neither.
pub proof fn lemma_text_lt_total(a: Seq<char>, b: Seq<char>)
    ensures
        a != b ==> (text_lt(a, b) || text_lt(b, a)),
        !(text_lt(a, b) && text_lt(b, a)),
    decreases a.len(),
{
    if a.len() > 0 && b.len() > 0 && a[0] == b[0] {
        lemma_text_lt_total(a.drop_first(), b.drop_first());
        if a.drop_first() == b.drop_first() {
            assert(a =~= b) by {
                assert forall|i: int| 0 <= i < a.len() implies a[i] == b[i] by {
                    if i > 0 {
                        assert(a[i] == a.drop_first()[i - 1]);
                        assert(b[i] == b.drop_first()[i - 1]);
                    }
                }
            }
        }
    }
    if a.len() == 0 && b.len() == 0 {
        assert(a =~= b);
    }
}

/// The order of texts is transitive.
pub proof fn lemma_text_lt_transitive(a: Seq<char>, b: Seq<char>, c: Seq<char>)
    requires
        text_lt(a, b),
        text_lt(b, c),
    ensures
        text_lt(a, c),
    decreases a.len(),
{
    if a.len() > 0 && b.len() > 0 && c.len() > 0 && a[0] == b[0] && b[0] == c[0] {
        lemma_text_lt_transitive(a.drop_first(), b.drop_first(), c.drop_first());
    }
}

/// Texts that agree on their first `i` characters are ordered as what
/// follows those characters.
pub proof fn lemma_text_lt_skip(a: Seq<char>, b: Seq<char>, i: int)
    requires
        0 <= i <= a.len(),
        i <= b.len(),
        a.take(i) == b.take(i),
    ensures
        text_lt(a, b) == text_lt(a.skip(i), b.skip(i)),
        (a == b) == (a.skip(i) == b.skip(i)),
    decreases i,
{
    if i > 0 {
        assert(a[0] == a.take(i)[0]);
        assert(b[0] == b.take(i)[0]);
        assert(a.drop_first().take(i - 1) =~= a.take(i).drop_first());
        assert(b.drop_first().take(i - 1) =~= b.take(i).drop_first());
        lemma_text_lt_skip(a.drop_first(), b.drop_first(), i - 1);
        assert(a.drop_first().skip(i - 1) =~= a.skip(i));
        assert(b.drop_first().skip(i - 1) =~= b.skip(i));
        if a.skip(i) == b.skip(i) {
            assert(a =~= b) by {
                assert forall|k: int| 0 <= k < a.len() implies a[k] == b[k] by {
                    if k < i {
                        assert(a[k] == a.take(i)[k]);
                        assert(b[k] == b.take(i)[k]);
                    } else {
                        assert(a[k] == a.skip(i)[k - i]);
                        assert(b[k] == b.skip(i)[k - i]);
                    }
                }
            }
        }
    } else {
        assert(a.skip(0) =~= a);
        assert(b.skip(0) =~= b);
    }
}

/// Where one text stands relative to another.
#[derive(Debug, Clone, Copy, PartialEq, Eq, Structural)]
pub enum TextOrder {
    Before,
    Same,
    After,
}

/// Compare two texts in the order of `text_lt`.
pub fn compare_text(a: &str, b: &str) -> (r: TextOrder)
    ensures
        (r == TextOrder::Before) == text_lt(a@, b@),
        (r == TextOrder::Same) == (a@ == b@),
        (r == TextOrder::After) == text_lt(b@, a@),
{
    let va = chars_of(a);
    let vb = chars_of(b);
    let mut i: usize = 0;
    while i < va.len() && i < vb.len()
        invariant
            va@ == a@,
            vb@ == b@,
            i <= va.len(),
            i <= vb.len(),
            a@.take(i as int) == b@.take(i as int),
        decreases va.len() - i,
    {
        if va[i] != vb[i] {
            proof {
                lemma_text_lt_skip(a@, b@, i as int);
                lemma_text_lt_skip(b@, a@, i as int);
                assert(a@.skip(i as int)[0] == a@[i as int]);
                assert(b@.skip(i as int)[0] == b@[i as int]);
            }
            if va[i] < vb[i] {
                return TextOrder::Before;
            } else {
                return TextOrder::After;
            }
        }
        proof {
            assert(a@.take(i + 1) =~= a@.take(i as int).push(a@[i as int]));
            assert(b@.take(i + 1) =~= b@.take(i as int).push(b@[i as int]));
        }
        i = i + 1;
    }
    proof {
        lemma_text_lt_skip(a@, b@, i as int);
        lemma_text_lt_skip(b@, a@, i as int);
    }
    if va.len() == vb.len() {
        proof {
            assert(a@.skip(i as int) =~= b@.skip(i as int));
        }
        TextOrder::Same
    } else if va.len() == i {
        proof {
            assert(a@.skip(i as int).len() == 0);
            assert(a@.skip(i as int) != b@.skip(i as int));
        }
        TextOrder::Before
    } else {
        proof {
            assert(b@.skip(i as int).len() == 0);
            assert(a@.skip(i as int) != b@.skip(i as int));
        }
        TextOrder::After
    }
}

/// `l` without one carriage return at its end.
pub open spec fn strip_cr(l: Seq<char>) -> Seq<char> {
    if l.len() > 0 && l.last() == '\r' {
        l.drop_last()
    } else {
        l
    }
}

/// The lines of `s` as `str::lines` yields them: `s` split at line feeds,
/// a carriage return just before a line feed dropped with it, and no empty
/// line after a final line feed.
pub open spec fn text_lines(s: Seq<char>) -> Seq<Seq<char>> {
    let pieces = split_on(s, '\n');
    let ended = pieces.drop_last().map_values(|l: Seq<char>| strip_cr(l));
    if pieces.last().len() == 0 {
        ended
    } else {
        ended.push(pieces.last())
    }
}

/// The lines of `s`.
pub fn lines_of(s: &str) -> (r: Vec<String>)
    ensures
        views(r@) == text_lines(s@),
{
    let pieces = split_str(s, '\n');
    let ghost ps = split_on(s@, '\n');
    proof {
        lemma_split_on_nonempty(s@, '\n');
        assert(views(pieces@) == ps);
        assert(forall|k: int| 0 <= k < ps.len() ==> ps[k] == #[trigger] pieces@[k]@);
    }
    let k = pieces.len();
    let ghost ended = ps.drop_last().map_values(|l: Seq<char>| strip_cr(l));
    let mut out: Vec<String> = Vec::new();
    let mut i: usize = 0;
    while i + 1 < k
        invariant
            k == pieces.len(),
            k >= 1,
            ps.len() == k,
            forall|j: int| 0 <= j < ps.len() ==> ps[j] == #[trigger] pieces@[j]@,
            ended == ps.drop_last().map_values(|l: Seq<char>| strip_cr(l)),
            i + 1 <= k,
            views(out@) == ended.take(i as int),
        decreases k - i,
    {
        let p = pieces[i].as_str();
        let n = p.unicode_len();
        let line: String = if n > 0 && p.get_char(n - 1) == '\r' {
            p.substring_char(0, n - 1).to_owned()
        } else {
            p.to_owned()
        };
        proof {
            assert(ps[i as int] == p@);
            assert(line@ =~= strip_cr(p@));
            assert(ended[i as int] == strip_cr(ps[i as int]));
        }
        let ghost before = out@;
        out.push(line);
        proof {
            assert(views(out@) =~= views(before).push(line@));
            assert(ended.take(i + 1) =~= ended.take(i as int).push(ended[i as int]));
        }
        i = i + 1;
    }
    proof {
        assert(ended.take(i as int) =~= ended);
        assert(ps.last() == pieces@[k - 1]@);
    }
    if pieces[k - 1].unicode_len() > 0 {
        let last = pieces[k - 1].clone();
        let ghost before = out@;
        out.push(last);
        proof {
            assert(views(out@) =~= views(before).push(last@));
        }
    }
    out
}

/// Whether `p` is the beginning of `s`.
pub fn starts_with_text(s: &str, p: &str) -> (r: bool)
    ensures
        r == p@.is_prefix_of(s@),
{
    let vs = chars_of(s);
    let vp = chars_of(p);
    if vp.len() > vs.len() {
        return false;
    }
    let mut i: usize = 0;
    while i < vp.len()
        invariant
            vs@ == s@,
            vp@ == p@,
            vp.len() <= vs.len(),
            i <= vp.len(),
            forall|k: int| 0 <= k < i ==> vs@[k] == vp@[k],
        decreases vp.len() - i,
    {
        if vs[i] != vp[i] {
            return false;
        }
        i = i + 1;
    }
    proof {
        assert(s@.take(p@.len() as int) =~= p@);
    }
    true
}

/// What `str::to_lowercase` gives for a text: the Unicode lower-case
/// mapping of its characters, where a capital sigma at the end of a word
/// becomes a final sigma.
pub uninterp spec fn lowercase(s: Seq<char>) -> Seq<char>;

/// `str::to_lowercase`: its result is `lowercase` of the text. Nothing more
/// is stated of it: the mapping is Unicode's table, not written out here.
#[verifier::external_body]
pub(crate) fn to_lowercase(s: &str) -> (r: String)
    ensures
        r@ == lowercase(s@),
{
    s.to_lowercase()
}

/// Whether `needle` occurs in `hay`.
pub open spec fn contains_text(hay: Seq<char>, needle: Seq<char>) -> bool {
    exists|i: int| 0 <= i && i + needle.len() <= hay.len() && #[trigger] hay.subrange(i, i + needle.len()) == needle
}

/// Whether `needle` occurs in `hay`.
pub fn contains_str(hay: &str, needle: &str) -> (r: bool)
    ensures
        r == contains_text(hay@, needle@),
{
    let h = chars_of(hay);
    let n = chars_of(needle);
    if n.len() > h.len() {
        return false;
    }
    let mut i: usize = 0;
    while i <= h.len() - n.len()
        invariant
            h@ == hay@,
            n@ == needle@,
            n.len() <= h.len(),
            i <= h.len() - n.len() + 1,
            forall|k: int| 0 <= k < i ==> #[trigger] hay@.subrange(k, k + needle@.len()) != needle@,
        decreases h.len() - i,
    {
        let mut j: usize = 0;
        while j < n.len() && h[i + j] == n[j]
            invariant
                h@ == hay@,
                n@ == needle@,
                i + n.len() <= h.len(),
                j <= n.len(),
                forall|m: int| 0 <= m < j ==> h@[i + m] == n@[m],
            decreases n.len() - j,
        {
            j = j + 1;
        }
        if j == n.len() {
            proof {
                assert(hay@.subrange(i as int, i + needle@.len()) =~= needle@);
            }
            return true;
        }
        proof {
            assert(hay@.subrange(i as int, i + needle@.len())[j as int] != needle@[j as int]);
        }
        i = i + 1;
    }
    false
}

/// `s` without one leading `+` or `-`.
pub open spec fn unsigned_part(s: Seq<char>) -> Seq<char> {
    if s.len() > 0 && (s[0] == '+' || s[0] == '-') {
        s.drop_first()
    } else {
        s
    }
}

/// `c` with an ASCII upper-case letter made lower-case.
pub open spec fn ascii_lower(c: char) -> char {
    if 'A' <= c && c <= 'Z' {
        ((c as u32) + 32) as char
    } else {
        c
    }
}

/// `s` with its ASCII letters in lower case.
pub open spec fn ascii_lowered(s: Seq<char>) -> Seq<char> {
    s.map_values(|c: char| ascii_lower(c))
}

/// Digits with at most one `.` among them and at least one digit.
pub open spec fn mantissa_text(m: Seq<char>) -> bool {
    match m.index_of_first('.') {
        Some(i) => all_digits(m.take(i)) && all_digits(m.skip(i + 1)) && m.len() >= 2,
        None => m.len() >= 1 && all_digits(m),
    }
}

/// An optional sign and one or more digits.
pub open spec fn exponent_text(x: Seq<char>) -> bool {
    unsigned_part(x).len() >= 1 && all_digits(unsigned_part(x))
}

/// The first position of an `e` or `E`.
pub open spec fn exponent_mark(t: Seq<char>) -> Option<int> {
    match (t.index_of_first('e'), t.index_of_first('E')) {
        (Some(a), Some(b)) => Some(if a < b { a } else { b }),
        (Some(a), None) => Some(a),
        (None, Some(b)) => Some(b),
        (None, None) => None,
    }
}

/// Whether `str::parse` reads `s` as a floating-point number: an optional
/// sign, then `inf`, `infinity` or `nan` in any case, or a decimal number
/// (digits with at most one point, at least one digit) with an optional
/// exponent (`e` or `E`, an optional sign, digits).
pub open spec fn float_text(s: Seq<char>) -> bool {
    let t = unsigned_part(s);
    ||| ascii_lowered(t) == "inf"@
    ||| ascii_lowered(t) == "infinity"@
    ||| ascii_lowered(t) == "nan"@
    ||| match exponent_mark(t) {
        Some(i) => mantissa_text(t.take(i)) && exponent_text(t.skip(i + 1)),
        None => mantissa_text(t),
    }
}

/// Whether no character of `s` is a tab or a line break.
pub open spec fn tab_free(s: Seq<char>) -> bool {
    forall|k: int| 0 <= k < s.len() ==> #[trigger] s[k] != '\t' && s[k] != '\n'
}

proof fn lemma_digits_tab_free(d: Seq<char>)
    requires
        all_digits(d),
    ensures
        tab_free(d),
{
    assert forall|k: int| 0 <= k < d.len() implies #[trigger] d[k] != '\t' && d[k] != '\n' by {
        assert('0' <= d[k] <= '9');
    }
}

proof fn lemma_mantissa_tab_free(m: Seq<char>)
    requires
        mantissa_text(m),
    ensures
        tab_free(m),
{
    m.index_of_first_ensures('.');
    match m.index_of_first('.') {
        Some(j) => {
            lemma_digits_tab_free(m.take(j));
            lemma_digits_tab_free(m.skip(j + 1));
            assert forall|k: int| 0 <= k < m.len() implies #[trigger] m[k] != '\t' && m[k] != '\n' by {
                if k < j {
                    assert(m.take(j)[k] == m[k]);
                } else if k > j {
                    assert(m.skip(j + 1)[k - j - 1] == m[k]);
                }
            }
        },
        None => {
            lemma_digits_tab_free(m);
        },
    }
}

proof fn lemma_signed_tab_free(s: Seq<char>)
    requires
        tab_free(unsigned_part(s)),
    ensures
        tab_free(s),
{
    if s.len() > 0 && (s[0] == '+' || s[0] == '-') {
        assert forall|k: int| 0 <= k < s.len() implies #[trigger] s[k] != '\t' && s[k] != '\n' by {
            if k > 0 {
                assert(unsigned_part(s)[k - 1] == s[k]);
            }
        }
    }
}

/// A text that reads as a floating-point number has no tab and no line
/// break.
pub proof fn lemma_float_text_tab_free(s: Seq<char>)
    requires
        float_text(s),
    ensures
        tab_free(s),
{
    let t = unsigned_part(s);
    reveal_strlit("inf");
    reveal_strlit("infinity");
    reveal_strlit("nan");
    if ascii_lowered(t) == "inf"@ || ascii_lowered(t) == "infinity"@ || ascii_lowered(t) == "nan"@ {
        let w = ascii_lowered(t);
        assert(forall|k: int| 0 <= k < w.len() ==> #[trigger] w[k] != '\t' && w[k] != '\n');
        assert forall|k: int| 0 <= k < t.len() implies #[trigger] t[k] != '\t' && t[k] != '\n' by {
            assert(w[k] == ascii_lower(t[k]));
            assert(w[k] != '\t' && w[k] != '\n');
        }
    } else {
        t.index_of_first_ensures('e');
        t.index_of_first_ensures('E');
        match exponent_mark(t) {
            Some(i) => {
                let x = t.skip(i + 1);
                lemma_mantissa_tab_free(t.take(i));
                lemma_digits_tab_free(unsigned_part(x));
                lemma_signed_tab_free(x);
                assert(t[i] == 'e' || t[i] == 'E');
                assert forall|k: int| 0 <= k < t.len() implies #[trigger] t[k] != '\t' && t[k] != '\n' by {
                    if k < i {
                        assert(t.take(i)[k] == t[k]);
                    } else if k > i {
                        assert(x[k - i - 1] == t[k]);
                    }
                }
            },
            None => {
                lemma_mantissa_tab_free(t);
            },
        }
    }
    lemma_signed_tab_free(s);
}

/// Whether `v[lo..hi]` is all ASCII digits.
fn digits_between(v: &Vec<char>, lo: usize, hi: usize) -> (r: bool)
    requires
        lo <= hi <= v.len(),
    ensures
        r == all_digits(v@.subrange(lo as int, hi as int)),
{
    let mut i: usize = lo;
    while i < hi
        invariant
            lo <= i <= hi <= v.len(),
            forall|k: int| lo <= k < i ==> '0' <= #[trigger] v@[k] <= '9',
        decreases hi - i,
    {
        if v[i] < '0' || v[i] > '9' {
            proof {
                assert(v@.subrange(lo as int, hi as int)[i - lo] == v@[i as int]);
            }
            return false;
        }
        i = i + 1;
    }
    proof {
        assert forall|k: int| 0 <= k < hi - lo implies '0' <= #[trigger] v@.subrange(lo as int, hi as int)[k] <= '9' by {
            assert(v@.subrange(lo as int, hi as int)[k] == v@[lo + k]);
        }
    }
    true
}

/// The first position of `c` in `v[lo..hi]`, counted from `lo`.
fn first_between(v: &Vec<char>, lo: usize, hi: usize, c: char) -> (r: Option<usize>)
    requires
        lo <= hi <= v.len(),
    ensures
        match r {
            Some(i) => i < hi - lo && v@.subrange(lo as int, hi as int).index_of_first(c) == Some(i as int),
            None => v@.subrange(lo as int, hi as int).index_of_first(c) is None,
        },
{
    let ghost w = v@.subrange(lo as int, hi as int);
    proof {
        w.index_of_first_ensures(c);
    }
    let mut i: usize = lo;
    while i < hi
        invariant
            lo <= i <= hi <= v.len(),
            w == v@.subrange(lo as int, hi as int),
            forall|k: int| 0 <= k < i - lo ==> w[k] != c,
            match w.index_of_first(c) {
                Some(index) => {
                    &&& w.contains(c)
                    &&& 0 <= index < w.len()
                    &&& w[index] == c
                    &&& forall|j: int| 0 <= j < index < w.len() ==> w[j] != c
                },
                None => !w.contains(c),
            },
        decreases hi - i,
    {
        if v[i] == c {
            proof {
                assert(w[i - lo] == c);
                assert(w.contains(c));
                let index = w.index_of_first(c).unwrap();
                if index < i - lo {
                    assert(w[index] != c);
                }
                if i - lo < index {
                    assert(w[i - lo] != c);
                }
            }
            return Some(i - lo);
        }
        proof {
            assert(w[i - lo] == v@[i as int]);
        }
        i = i + 1;
    }
    proof {
        if w.contains(c) {
            let k = choose|k: int| 0 <= k < w.len() && w[k] == c;
            assert(w[k] != c);
        }
    }
    None
}

/// Whether `v[lo..hi]` spells the mantissa of a decimal number.
fn mantissa_between(v: &Vec<char>, lo: usize, hi: usize) -> (r: bool)
    requires
        lo <= hi <= v.len(),
    ensures
        r == mantissa_text(v@.subrange(lo as int, hi as int)),
{
    let ghost m = v@.subrange(lo as int, hi as int);
    match first_between(v, lo, hi, '.') {
        Some(i) => {
            let a = digits_between(v, lo, lo + i);
            let b = digits_between(v, lo + i + 1, hi);
            proof {
                assert(m.take(i as int) =~= v@.subrange(lo as int, lo + i));
                assert(m.skip(i + 1) =~= v@.subrange(lo + i + 1, hi as int));
            }
            a && b && hi - lo >= 2
        },
        None => hi - lo >= 1 && digits_between(v, lo, hi),
    }
}

/// Whether `v[lo..hi]` lower-cased in ASCII is `word`.
fn lowered_is(v: &Vec<char>, lo: usize, hi: usize, word: &Vec<char>) -> (r: bool)
    requires
        lo <= hi <= v.len(),
    ensures
        r == (ascii_lowered(v@.subrange(lo as int, hi as int)) == word@),
{
    let ghost t = v@.subrange(lo as int, hi as int);
    if hi - lo != word.len() {
        proof {
            assert(ascii_lowered(t).len() == t.len());
        }
        return false;
    }
    let mut i: usize = 0;
    while i < word.len()
        invariant
            lo <= hi <= v.len(),
            hi - lo == word.len(),
            t == v@.subrange(lo as int, hi as int),
            i <= word.len(),
            forall|k: int| 0 <= k < i ==> ascii_lower(#[trigger] t[k]) == word@[k],
        decreases word.len() - i,
    {
        let c = v[lo + i];
        let lower = if c >= 'A' && c <= 'Z' { ((c as u8) + 32) as char } else { c };
        proof {
            assert(t[i as int] == c);
        }
        if lower != word[i] {
            proof {
                assert(ascii_lowered(t)[i as int] != word@[i as int]);
            }
            return false;
        }
        i = i + 1;
    }
    proof {
        assert(ascii_lowered(t) =~= word@);
    }
    true
}

/// Whether `str::parse` reads `s` as a floating-point number.
pub fn is_float_text(s: &str) -> (r: bool)
    ensures
        r == float_text(s@),
{
    let v = chars_of(s);
    let n = v.len();
    let lo: usize = if n > 0 && (v[0] == '+' || v[0] == '-') { 1 } else { 0 };
    let ghost t = unsigned_part(s@);
    proof {
        assert(t =~= v@.subrange(lo as int, n as int));
        reveal_strlit("inf");
        reveal_strlit("infinity");
        reveal_strlit("nan");
    }
    let inf: Vec<char> = vec!['i', 'n', 'f'];
    let infinity: Vec<char> = vec!['i', 'n', 'f', 'i', 'n', 'i', 't', 'y'];
    let nan: Vec<char> = vec!['n', 'a', 'n'];
    proof {
        assert(inf@ =~= "inf"@);
        assert(infinity@ =~= "infinity"@);
        assert(nan@ =~= "nan"@);
    }
    if lowered_is(&v, lo, n, &inf) || lowered_is(&v, lo, n, &infinity) || lowered_is(&v, lo, n, &nan) {
        return true;
    }
    let small = first_between(&v, lo, n, 'e');
    let big = first_between(&v, lo, n, 'E');
    let mark = match (small, big) {
        (Some(a), Some(b)) => Some(if a < b { a } else { b }),
        (Some(a), None) => Some(a),
        (None, Some(b)) => Some(b),
        (None, None) => None,
    };
    match mark {
        Some(i) => {
            let m = mantissa_between(&v, lo, lo + i);
            let x0 = lo + i + 1;
            let x = if x0 < n && (v[x0] == '+' || v[x0] == '-') { x0 + 1 } else { x0 };
            let e = n > x && digits_between(&v, x, n);
            proof {
                assert(t.take(i as int) =~= v@.subrange(lo as int, lo + i));
                let xs = t.skip(i + 1);
                assert(xs =~= v@.subrange(x0 as int, n as int));
                assert(unsigned_part(xs) =~= v@.subrange(x as int, n as int));
            }
            m && e
        },
        None => mantissa_between(&v, lo, n),
    }
}

} // verus!
