//! Character-level text operations on strings viewed as sequences of `char`.
//!
//! Every operation has a specification over `Seq<char>` and an executable
//! counterpart on `&str` that is proved to compute it.

use vstd::prelude::*;

verus! {

/// Whether `c` has the Unicode `White_Space` property: the controls from tab to
/// carriage return, the space, the next-line control, the no-break space, the Ogham
/// space mark, the spaces from en quad to hair space, the line and the paragraph
/// separator, the narrow no-break space, the medium mathematical space and the
/// ideographic space.
pub open spec fn is_white_space(c: char) -> bool {
    let code: u32 = c as u32;
    ||| 0x0009 <= code <= 0x000D
    ||| code == 0x0020
    ||| code == 0x0085
    ||| code == 0x00A0
    ||| code == 0x1680
    ||| 0x2000 <= code <= 0x200A
    ||| code == 0x2028
    ||| code == 0x2029
    ||| code == 0x202F
    ||| code == 0x205F
    ||| code == 0x3000
}

/// `char::is_whitespace`. Trusted: the result tells whether `c` has the Unicode
/// `White_Space` property, which is the set of characters that [`is_white_space`] lists.
#[verifier::external_body]
fn char_is_whitespace(c: char) -> (b: bool)
    ensures
        b == is_white_space(c),
{
    c.is_whitespace()
}

/// `String::push`. Trusted: the character is appended at the end and nothing else changes.
#[verifier::external_body]
fn push_char(s: &mut String, c: char)
    ensures
        final(s)@ == old(s)@.push(c),
{
    s.push(c)
}

/// The characters of `s`, in order.
pub fn chars_of(s: &str) -> (v: Vec<char>)
    ensures
        v@ == s@,
{
    let mut v: Vec<char> = Vec::new();
    for c in it: s.chars()
        invariant
            it.seq() == s@,
            v@ =~= s@.take(it.index()),
    {
        v.push(c);
    }
    v
}

/// The string made of the characters `v[from..to]`.
pub fn string_of_range(v: &Vec<char>, from: usize, to: usize) -> (s: String)
    requires
        from <= to <= v.len(),
    ensures
        s@ == v@.subrange(from as int, to as int),
{
    let mut s = String::new();
    let mut i: usize = from;
    while i < to
        invariant
            from <= i <= to <= v.len(),
            s@ =~= v@.subrange(from as int, i as int),
        decreases to - i,
    {
        push_char(&mut s, v[i]);
        i += 1;
    }
    s
}

/// The string made of the characters of `v`.
pub fn string_of(v: &Vec<char>) -> (s: String)
    ensures
        s@ == v@,
{
    let s = string_of_range(v, 0, v.len());
    assert(v@.subrange(0, v.len() as int) =~= v@);
    s
}

/// `s` followed by `t`.
pub fn join_text(s: &str, t: &str) -> (r: String)
    ensures
        r@ == s@ + t@,
{
    let sv = chars_of(s);
    let tv = chars_of(t);
    let mut r = string_of(&sv);
    let mut i: usize = 0;
    while i < tv.len()
        invariant
            i <= tv.len(),
            r@ =~= sv@ + tv@.take(i as int),
        decreases tv.len() - i,
    {
        push_char(&mut r, tv[i]);
        i += 1;
    }
    assert(tv@.take(tv.len() as int) =~= tv@);
    r
}

/// Appends the characters of `t` to `s`.
pub fn push_text(s: &mut String, t: &str)
    ensures
        final(s)@ == old(s)@ + t@,
{
    let tv = chars_of(t);
    let mut i: usize = 0;
    while i < tv.len()
        invariant
            i <= tv.len(),
            s@ =~= old(s)@ + tv@.take(i as int),
        decreases tv.len() - i,
    {
        push_char(s, tv[i]);
        i += 1;
    }
    assert(tv@.take(tv.len() as int) =~= tv@);
}

/// `s` without its leading white space.
pub open spec fn trim_start(s: Seq<char>) -> Seq<char>
    decreases s.len(),
{
    if s.len() > 0 && is_white_space(s[0]) {
        trim_start(s.drop_first())
    } else {
        s
    }
}

/// `s` without its trailing white space.
pub open spec fn trim_end(s: Seq<char>) -> Seq<char>
    decreases s.len(),
{
    if s.len() > 0 && is_white_space(s.last()) {
        trim_end(s.drop_last())
    } else {
        s
    }
}

/// `s` without leading and trailing white space.
pub open spec fn trimmed(s: Seq<char>) -> Seq<char> {
    trim_end(trim_start(s))
}

/// Removes leading and trailing white space.
pub fn trim(s: &str) -> (r: String)
    ensures
        r@ == trimmed(s@),
{
    let v = chars_of(s);
    let mut start: usize = 0;
    assert(v@.skip(0) =~= v@);
    loop
        invariant
            start <= v.len(),
            trim_start(v@) == trim_start(v@.skip(start as int)),
        ensures
            start <= v.len(),
            trim_start(v@) == v@.skip(start as int),
        decreases v.len() - start,
    {
        if start == v.len() {
            break ;
        }
        if !char_is_whitespace(v[start]) {
            break ;
        }
        assert(v@.skip(start as int).drop_first() =~= v@.skip(start as int + 1));
        start += 1;
    }
    let mut end: usize = v.len();
    assert(v@.skip(start as int) =~= v@.subrange(start as int, end as int));
    loop
        invariant
            start <= end <= v.len(),
            trimmed(v@) == trim_end(v@.subrange(start as int, end as int)),
        ensures
            start <= end <= v.len(),
            trimmed(v@) == v@.subrange(start as int, end as int),
        decreases end - start,
    {
        if end == start {
            break ;
        }
        if !char_is_whitespace(v[end - 1]) {
            break ;
        }
        assert(v@.subrange(start as int, end as int).drop_last() =~= v@.subrange(
            start as int,
            end as int - 1,
        ));
        end -= 1;
    }
    string_of_range(&v, start, end)
}

/// The pieces of `s` between occurrences of `sep`: a new piece begins after each
/// separator, so a text with `k` separators has `k + 1` pieces, some possibly empty.
pub open spec fn split(s: Seq<char>, sep: char) -> Seq<Seq<char>>
    decreases s.len(),
{
    if s.len() == 0 {
        seq![Seq::<char>::empty()]
    } else {
        let before = split(s.drop_last(), sep);
        if s.last() == sep {
            before.push(Seq::<char>::empty())
        } else {
            before.drop_last().push(before.last().push(s.last()))
        }
    }
}

/// A text always splits into at least one piece.
pub proof fn lemma_split_nonempty(s: Seq<char>, sep: char)
    ensures
        split(s, sep).len() >= 1,
    decreases s.len(),
{
    if s.len() > 0 {
        lemma_split_nonempty(s.drop_last(), sep);
    }
}

/// Splits `s` at every occurrence of `sep`.
pub fn split_on(s: &str, sep: char) -> (parts: Vec<String>)
    ensures
        parts.deep_view() == split(s@, sep),
{
    let v = chars_of(s);
    let mut parts: Vec<String> = Vec::new();
    let mut current = String::new();
    let mut i: usize = 0;
    assert(v@.take(0) =~= Seq::<char>::empty());
    assert(parts.deep_view().push(current@) =~= split(v@.take(0), sep));
    while i < v.len()
        invariant
            i <= v.len(),
            parts.deep_view().push(current@) == split(v@.take(i as int), sep),
        decreases v.len() - i,
    {
        let c = v[i];
        let ghost done = parts.deep_view();
        let ghost piece = current@;
        proof {
            assert(v@.take(i as int + 1).drop_last() =~= v@.take(i as int));
            assert(done.push(piece).drop_last() =~= done);
        }
        if c == sep {
            parts.push(current);
            current = String::new();
            assert(parts.deep_view() =~= done.push(piece));
        } else {
            push_char(&mut current, c);
        }
        i += 1;
    }
    assert(v@.take(v.len() as int) =~= v@);
    let ghost done = parts.deep_view();
    parts.push(current);
    assert(parts.deep_view() =~= done.push(current@));
    parts
}

/// Whether `pat` stands in `s` at position `i`.
pub open spec fn occurs_at(s: Seq<char>, pat: Seq<char>, i: int) -> bool {
    &&& 0 <= i
    &&& i + pat.len() <= s.len()
    &&& s.subrange(i, i + pat.len()) == pat
}

/// Whether `pat` stands somewhere in `s`.
pub open spec fn contains(s: Seq<char>, pat: Seq<char>) -> bool {
    exists|i: int| occurs_at(s, pat, i)
}

/// Tests whether `pat` stands in `v` at position `i`.
pub fn matches_at(v: &Vec<char>, pat: &Vec<char>, i: usize) -> (b: bool)
    ensures
        b == occurs_at(v@, pat@, i as int),
{
    if i > v.len() || pat.len() > v.len() - i {
        return false;
    }
    let mut k: usize = 0;
    while k < pat.len()
        invariant
            k <= pat.len(),
            i + pat.len() <= v.len(),
            v@.subrange(i as int, i + k) =~= pat@.take(k as int),
        decreases pat.len() - k,
    {
        if v[i + k] != pat[k] {
            assert(v@.subrange(i as int, i + pat.len())[k as int] != pat@[k as int]);
            return false;
        }
        assert(v@.subrange(i as int, i + k + 1) =~= v@.subrange(i as int, i + k).push(
            v@[i + k],
        ));
        assert(pat@.take(k as int + 1) =~= pat@.take(k as int).push(pat@[k as int]));
        k += 1;
    }
    assert(pat@.take(pat.len() as int) =~= pat@);
    true
}

/// Tests whether `pat` stands somewhere in `s`.
pub fn contains_text(s: &str, pat: &str) -> (b: bool)
    ensures
        b == contains(s@, pat@),
{
    let v = chars_of(s);
    let p = chars_of(pat);
    let mut i: usize = 0;
    while i <= v.len()
        invariant
            i <= v.len() + 1,
            v@ == s@,
            p@ == pat@,
            forall|j: int| 0 <= j < i ==> !occurs_at(v@, p@, j),
        decreases v.len() + 1 - i,
    {
        if matches_at(&v, &p, i) {
            return true;
        }
        if i == v.len() {
            assert forall|j: int| !occurs_at(v@, p@, j) by {
                if occurs_at(v@, p@, j) {
                    assert(j <= v.len());
                }
            }
            return false;
        }
        i += 1;
    }
    assert forall|j: int| !occurs_at(v@, p@, j) by {
        if occurs_at(v@, p@, j) {
            assert(j <= v.len());
        }
    }
    false
}

/// `s` without the leading `prefix`, or `s` itself where it does not begin with it.
pub open spec fn without_prefix(s: Seq<char>, prefix: Seq<char>) -> Seq<char> {
    if occurs_at(s, prefix, 0) {
        s.skip(prefix.len() as int)
    } else {
        s
    }
}

/// Removes `prefix` from the start of `s` when `s` begins with it.
pub fn strip_prefix(s: &str, prefix: &str) -> (r: String)
    ensures
        r@ == without_prefix(s@, prefix@),
{
    let v = chars_of(s);
    let p = chars_of(prefix);
    if matches_at(&v, &p, 0) {
        assert(v@.skip(p.len() as int) =~= v@.subrange(p.len() as int, v.len() as int));
        string_of_range(&v, p.len(), v.len())
    } else {
        string_of(&v)
    }
}

/// `s` with every occurrence of `from` replaced by `to`, found left to right without
/// overlap. An empty `from` occurs before every character and at the end.
pub open spec fn replaced(s: Seq<char>, from: Seq<char>, to: Seq<char>) -> Seq<char>
    decreases s.len(),
{
    if from.len() == 0 {
        if s.len() == 0 {
            to
        } else {
            to + seq![s[0]] + replaced(s.drop_first(), from, to)
        }
    } else if occurs_at(s, from, 0) {
        to + replaced(s.skip(from.len() as int), from, to)
    } else if s.len() == 0 {
        s
    } else {
        seq![s[0]] + replaced(s.drop_first(), from, to)
    }
}

/// Replaces every occurrence of `from` in `s` by `to`.
pub fn replace_all(s: &str, from: &str, to: &str) -> (r: String)
    ensures
        r@ == replaced(s@, from@, to@),
{
    let v = chars_of(s);
    let f = chars_of(from);
    let mut r = String::new();
    let mut i: usize = 0;
    assert(v@.skip(0) =~= v@);
    if f.len() == 0 {
        loop
            invariant_except_break
                r@ + replaced(v@.skip(i as int), f@, to@) == replaced(v@, f@, to@),
            invariant
                i <= v.len(),
                f@.len() == 0,
            ensures
                r@ == replaced(v@, f@, to@),
            decreases v.len() - i,
        {
            let ghost before = r@;
            let ghost rest = v@.skip(i as int);
            push_text(&mut r, to);
            if i == v.len() {
                assert(before + to@ =~= r@);
                break ;
            }
            push_char(&mut r, v[i]);
            proof {
                assert(rest.drop_first() =~= v@.skip(i as int + 1));
                assert(r@ + replaced(rest.drop_first(), f@, to@) =~= before + (to@ + seq![rest[0]]
                    + replaced(rest.drop_first(), f@, to@)));
            }
            i += 1;
        }
    } else {
        while i < v.len()
            invariant
                i <= v.len(),
                f@.len() > 0,
                r@ + replaced(v@.skip(i as int), f@, to@) == replaced(v@, f@, to@),
            decreases v.len() - i,
        {
            let ghost before = r@;
            let ghost rest = v@.skip(i as int);
            let found = matches_at(&v, &f, i);
            proof {
                assert(occurs_at(v@, f@, i as int) ==> rest.subrange(0, f@.len() as int)
                    =~= v@.subrange(i as int, i + f@.len()));
                assert(occurs_at(rest, f@, 0) ==> rest.subrange(0, f@.len() as int)
                    =~= v@.subrange(i as int, i + f@.len()));
                assert(occurs_at(rest, f@, 0) == found);
            }
            if found {
                push_text(&mut r, to);
                proof {
                    assert(rest.skip(f@.len() as int) =~= v@.skip(i + f@.len()));
                    assert(r@ + replaced(rest.skip(f@.len() as int), f@, to@) =~= before + (to@
                        + replaced(rest.skip(f@.len() as int), f@, to@)));
                }
                i += f.len();
            } else {
                push_char(&mut r, v[i]);
                proof {
                    assert(rest.drop_first() =~= v@.skip(i as int + 1));
                    assert(r@ + replaced(rest.drop_first(), f@, to@) =~= before + (seq![rest[0]]
                        + replaced(rest.drop_first(), f@, to@)));
                }
                i += 1;
            }
        }
        assert(v@.skip(v.len() as int) =~= Seq::<char>::empty());
        assert(r@ + Seq::<char>::empty() =~= r@);
    }
    r
}

/// The character that writes the digit `d`.
pub open spec fn digit_char(d: nat) -> char {
    if d == 0 {
        '0'
    } else if d == 1 {
        '1'
    } else if d == 2 {
        '2'
    } else if d == 3 {
        '3'
    } else if d == 4 {
        '4'
    } else if d == 5 {
        '5'
    } else if d == 6 {
        '6'
    } else if d == 7 {
        '7'
    } else if d == 8 {
        '8'
    } else {
        '9'
    }
}

/// `n` written in decimal, without leading zeros.
pub open spec fn decimal(n: nat) -> Seq<char>
    decreases n,
{
    if n < 10 {
        seq![digit_char(n)]
    } else {
        decimal(n / 10).push(digit_char(n % 10))
    }
}

fn digit_of(d: u128) -> (c: char)
    requires
        d < 10,
    ensures
        c == digit_char(d as nat),
{
    if d == 0 {
        '0'
    } else if d == 1 {
        '1'
    } else if d == 2 {
        '2'
    } else if d == 3 {
        '3'
    } else if d == 4 {
        '4'
    } else if d == 5 {
        '5'
    } else if d == 6 {
        '6'
    } else if d == 7 {
        '7'
    } else if d == 8 {
        '8'
    } else {
        '9'
    }
}

/// Writes `n` in decimal.
pub fn to_decimal(n: u128) -> (s: String)
    ensures
        s@ == decimal(n as nat),
    decreases n,
{
    if n < 10 {
        let mut s = String::new();
        push_char(&mut s, digit_of(n));
        assert(s@ =~= seq![digit_char(n as nat)]);
        s
    } else {
        let mut s = to_decimal(n / 10);
        push_char(&mut s, digit_of(n % 10));
        s
    }
}

/// The value of a decimal digit character, if `c` is one.
pub open spec fn digit_value(c: char) -> Option<nat> {
    if c == '0' {
        Some(0nat)
    } else if c == '1' {
        Some(1nat)
    } else if c == '2' {
        Some(2nat)
    } else if c == '3' {
        Some(3nat)
    } else if c == '4' {
        Some(4nat)
    } else if c == '5' {
        Some(5nat)
    } else if c == '6' {
        Some(6nat)
    } else if c == '7' {
        Some(7nat)
    } else if c == '8' {
        Some(8nat)
    } else if c == '9' {
        Some(9nat)
    } else {
        None
    }
}

/// Whether every character of `s` is a decimal digit.
pub open spec fn all_digits(s: Seq<char>) -> bool {
    forall|i: int| 0 <= i < s.len() ==> (#[trigger] digit_value(s[i])) is Some
}

/// The number that the digits of `s` write in decimal.
pub open spec fn digits_value(s: Seq<char>) -> nat
    decreases s.len(),
{
    if s.len() == 0 {
        0
    } else {
        10 * digits_value(s.drop_last()) + match digit_value(s.last()) {
            Some(d) => d,
            None => 0,
        }
    }
}

/// The number that `s` writes: one or more decimal digits, optionally after one `+`.
pub open spec fn parse_number(s: Seq<char>) -> Option<nat> {
    let digits = if s.len() > 0 && s[0] == '+' {
        s.drop_first()
    } else {
        s
    };
    if digits.len() > 0 && all_digits(digits) {
        Some(digits_value(digits))
    } else {
        None
    }
}

proof fn lemma_digits_value_grows(s: Seq<char>, k: int)
    requires
        0 <= k <= s.len(),
    ensures
        digits_value(s.take(k)) <= digits_value(s),
    decreases s.len() - k,
{
    if k == s.len() {
        assert(s.take(k) =~= s);
    } else {
        lemma_digits_value_grows(s, k + 1);
        assert(s.take(k + 1).drop_last() =~= s.take(k));
    }
}

fn value_of_digit(c: char) -> (d: Option<usize>)
    ensures
        match d {
            Some(x) => digit_value(c) == Some(x as nat),
            None => digit_value(c) is None,
        },
{
    if c == '0' {
        Some(0)
    } else if c == '1' {
        Some(1)
    } else if c == '2' {
        Some(2)
    } else if c == '3' {
        Some(3)
    } else if c == '4' {
        Some(4)
    } else if c == '5' {
        Some(5)
    } else if c == '6' {
        Some(6)
    } else if c == '7' {
        Some(7)
    } else if c == '8' {
        Some(8)
    } else if c == '9' {
        Some(9)
    } else {
        None
    }
}

/// Reads a decimal number. `None` where `s` writes no number, or one above `usize::MAX`.
pub fn parse_usize(s: &str) -> (r: Option<usize>)
    ensures
        r is Some <==> parse_number(s@) is Some && parse_number(s@)->0 <= usize::MAX,
        r is Some ==> r->0 == parse_number(s@)->0,
{
    let v = chars_of(s);
    let first: usize = if v.len() > 0 && v[0] == '+' {
        1
    } else {
        0
    };
    let ghost digits = v@.skip(first as int);
    assert(first == 1 ==> digits =~= v@.drop_first());
    assert(first == 0 ==> digits =~= v@);
    if first == v.len() {
        return None;
    }
    let mut value: usize = 0;
    let mut i: usize = first;
    assert(digits.take(0) =~= Seq::<char>::empty());
    while i < v.len()
        invariant
            first <= i <= v.len(),
            v@ == s@,
            digits == v@.skip(first as int),
            digits == if s@.len() > 0 && s@[0] == '+' {
                s@.drop_first()
            } else {
                s@
            },
            all_digits(digits.take(i - first)),
            value == digits_value(digits.take(i - first)),
        decreases v.len() - i,
    {
        let ghost seen = digits.take(i - first);
        let ghost next = digits.take(i - first + 1);
        proof {
            assert(next.drop_last() =~= seen);
            assert(next.last() == v@[i as int]);
            assert(digits[i - first] == v@[i as int]);
        }
        match value_of_digit(v[i]) {
            None => {
                assert(!all_digits(digits)) by {
                    assert(digit_value(digits[i - first]) is None);
                }
                return None;
            },
            Some(d) => {
                let grown = match value.checked_mul(10) {
                    None => None,
                    Some(tens) => tens.checked_add(d),
                };
                match grown {
                    None => {
                        proof {
                            assert(digits_value(next) > usize::MAX);
                            lemma_digits_value_grows(digits, i - first + 1);
                        }
                        return None;
                    },
                    Some(x) => {
                        assert(all_digits(next)) by {
                            assert forall|j: int| 0 <= j < next.len() implies (
                            #[trigger] digit_value(next[j])) is Some by {
                                if j < seen.len() {
                                    assert(next[j] == seen[j]);
                                }
                            }
                        }
                        value = x;
                    },
                }
            },
        }
        i += 1;
    }
    assert(digits.take(digits.len() as int) =~= digits);
    Some(value)
}

/// Tests whether two texts hold the same characters.
pub fn same_text(a: &str, b: &str) -> (same: bool)
    ensures
        same == (a@ == b@),
{
    let av = chars_of(a);
    let bv = chars_of(b);
    if av.len() != bv.len() {
        return false;
    }
    let mut i: usize = 0;
    while i < av.len()
        invariant
            i <= av.len(),
            av.len() == bv.len(),
            av@ == a@,
            bv@ == b@,
            av@.take(i as int) =~= bv@.take(i as int),
        decreases av.len() - i,
    {
        if av[i] != bv[i] {
            return false;
        }
        assert(av@.take(i + 1) =~= av@.take(i as int).push(av@[i as int]));
        assert(bv@.take(i + 1) =~= bv@.take(i as int).push(bv@[i as int]));
        i += 1;
    }
    assert(av@.take(av.len() as int) =~= av@);
    assert(bv@.take(bv.len() as int) =~= bv@);
    true
}

} // verus!
