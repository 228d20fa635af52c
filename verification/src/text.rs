//! Text helpers: searching, trimming, and decimal numbers.
use vstd::prelude::*;
use vstd::string::{StrSliceExecFns, StringExecFns};

verus! {

/// `needle` stands in `hay` with its first character at `i`.
pub open spec fn occurs_at(hay: Seq<char>, needle: Seq<char>, i: int) -> bool {
    0 <= i && i + needle.len() <= hay.len() && hay.subrange(i, i + needle.len()) == needle
}

/// `needle` stands somewhere in `hay`.
pub open spec fn contains_text(hay: Seq<char>, needle: Seq<char>) -> bool {
    exists|i: int| occurs_at(hay, needle, i)
}

/// Unicode's `White_Space` property.
pub open spec fn is_white_space(c: char) -> bool {
    ||| '\u{9}' <= c <= '\u{d}'
    ||| c == ' '
    ||| c == '\u{85}'
    ||| c == '\u{a0}'
    ||| c == '\u{1680}'
    ||| '\u{2000}' <= c <= '\u{200a}'
    ||| '\u{2028}' <= c <= '\u{2029}'
    ||| c == '\u{202f}'
    ||| c == '\u{205f}'
    ||| c == '\u{3000}'
}

/// `s` without the white space it begins with.
pub open spec fn trim_front(s: Seq<char>) -> Seq<char>
    decreases s.len(),
{
    if s.len() > 0 && is_white_space(s.first()) {
        trim_front(s.drop_first())
    } else {
        s
    }
}

/// `s` without the white space it ends with.
pub open spec fn trim_back(s: Seq<char>) -> Seq<char>
    decreases s.len(),
{
    if s.len() > 0 && is_white_space(s.last()) {
        trim_back(s.drop_last())
    } else {
        s
    }
}

/// `s` without white space at either end.
pub open spec fn trimmed(s: Seq<char>) -> Seq<char> {
    trim_back(trim_front(s))
}

/// The characters of `s`.
pub fn chars_of(s: &str) -> (v: Vec<char>)
    ensures
        v@ == s@,
{
    let mut v: Vec<char> = Vec::new();
    for c in it: s.chars()
        invariant
            it.seq() == s@,
            v@ == it.seq().take(it.index() as int),
    {
        v.push(c);
        assert(it.seq().take(it.index() + 1) == it.seq().take(it.index() as int).push(c));
    }
    v
}

/// Whether `needle` stands in `hay` at `i`.
fn matches_at(hay: &Vec<char>, needle: &Vec<char>, i: usize) -> (r: bool)
    requires
        i + needle@.len() <= hay@.len(),
    ensures
        r == occurs_at(hay@, needle@, i as int),
{
    let m: usize = hay.len();
    let n: usize = needle.len();
    let mut j: usize = 0;
    while j < n
        invariant
            n == needle@.len(),
            i + n <= m == hay@.len(),
            j <= n,
            forall|k: int| 0 <= k < j ==> hay@[i + k] == needle@[k],
        decreases n - j,
    {
        if hay[i + j] != needle[j] {
            assert(hay@.subrange(i as int, i + needle@.len())[j as int] != needle@[j as int]);
            return false;
        }
        j += 1;
    }
    assert(hay@.subrange(i as int, i + needle@.len()) =~= needle@);
    true
}

/// Whether `needle` stands somewhere in `hay`.
pub fn contains(hay: &str, needle: &str) -> (r: bool)
    ensures
        r == contains_text(hay@, needle@),
{
    let h = chars_of(hay);
    let n = chars_of(needle);
    let mut i: usize = 0;
    while i <= h.len() && n.len() <= h.len() - i
        invariant
            h@ == hay@,
            n@ == needle@,
            i <= h.len() + 1,
            forall|k: int| 0 <= k < i ==> !occurs_at(h@, n@, k),
        decreases h.len() + 1 - i,
    {
        if matches_at(&h, &n, i) {
            return true;
        }
        if i == h.len() {
            assert(forall|k: int| !occurs_at(h@, n@, k));
            return false;
        }
        i += 1;
    }
    assert(forall|k: int| !occurs_at(h@, n@, k));
    false
}

/// Whether `c` is white space.
pub fn white_space(c: char) -> (r: bool)
    ensures
        r == is_white_space(c),
{
    ('\u{9}' <= c && c <= '\u{d}') || c == ' ' || c == '\u{85}' || c == '\u{a0}' || c == '\u{1680}'
        || ('\u{2000}' <= c && c <= '\u{200a}') || ('\u{2028}' <= c && c <= '\u{2029}')
        || c == '\u{202f}' || c == '\u{205f}' || c == '\u{3000}'
}

/// `s` without white space at either end.
pub fn trim(s: &str) -> (r: String)
    ensures
        r@ == trimmed(s@),
{
    let v = chars_of(s);
    let n: usize = v.len();
    let mut a: usize = 0;
    assert(v@.subrange(0, n as int) == v@);
    while a < n && white_space(v[a])
        invariant
            n == v@.len(),
            a <= n,
            trim_front(v@) == trim_front(v@.subrange(a as int, n as int)),
        decreases n - a,
    {
        assert(v@.subrange(a as int, n as int).drop_first() == v@.subrange(a + 1, n as int));
        a += 1;
    }
    assert(trim_front(v@) == v@.subrange(a as int, n as int));
    let mut b: usize = n;
    while a < b && white_space(v[b - 1])
        invariant
            n == v@.len(),
            a <= b <= n,
            trimmed(v@) == trim_back(v@.subrange(a as int, b as int)),
        decreases b,
    {
        assert(v@.subrange(a as int, b as int).drop_last() == v@.subrange(a as int, b - 1));
        b -= 1;
    }
    s.substring_char(a, b).to_owned()
}

/// One of the ten ASCII digits.
pub open spec fn is_digit(c: char) -> bool {
    '0' <= c <= '9'
}

/// Every character is an ASCII digit.
pub open spec fn all_digits(s: Seq<char>) -> bool {
    forall|i: int| 0 <= i < s.len() ==> is_digit(#[trigger] s[i])
}

/// The digit that stands for `d`.
pub open spec fn digit_char(d: nat) -> char
    recommends
        d < 10,
{
    (48 + d) as char
}

/// The number that a digit stands for.
pub open spec fn digit_value(c: char) -> nat
    recommends
        is_digit(c),
{
    (c as nat - 48) as nat
}

/// `n` in decimal, without leading zeros.
pub open spec fn decimal(n: nat) -> Seq<char>
    decreases n,
{
    if n < 10 {
        seq![digit_char(n)]
    } else {
        decimal(n / 10).push(digit_char(n % 10))
    }
}

/// The number that a run of digits stands for.
pub open spec fn value_of(s: Seq<char>) -> nat
    decreases s.len(),
{
    if s.len() == 0 {
        0
    } else {
        value_of(s.drop_last()) * 10 + digit_value(s.last())
    }
}

/// `s` without the one plus sign that a number may begin with.
pub open spec fn unsigned_part(s: Seq<char>) -> Seq<char> {
    if s.len() > 0 && s[0] == '+' {
        s.drop_first()
    } else {
        s
    }
}

/// The number that `s` writes, if it writes one that fits in 64 bits: at most
/// one plus sign, then digits only, at least one of them.
pub open spec fn u64_value(s: Seq<char>) -> Option<u64> {
    let digits = unsigned_part(s);
    if digits.len() > 0 && all_digits(digits) && value_of(digits) <= u64::MAX {
        Some(value_of(digits) as u64)
    } else {
        None
    }
}

/// A run of digits is worth at least what any beginning of it is worth.
proof fn lemma_value_grows(s: Seq<char>, k: int)
    requires
        all_digits(s),
        0 <= k <= s.len(),
    ensures
        value_of(s.take(k)) <= value_of(s),
    decreases s.len(),
{
    if k == s.len() {
        assert(s.take(k) == s);
    } else {
        lemma_value_grows(s.drop_last(), k);
        assert(s.drop_last().take(k) == s.take(k));
    }
}

/// The decimal form of `n` is a run of digits worth `n`.
pub proof fn lemma_decimal(n: nat)
    ensures
        decimal(n).len() > 0,
        all_digits(decimal(n)),
        value_of(decimal(n)) == n,
    decreases n,
{
    if n < 10 {
        reveal_with_fuel(value_of, 2);
        assert(decimal(n).drop_last() == Seq::<char>::empty());
    } else {
        lemma_decimal(n / 10);
        assert(decimal(n).drop_last() == decimal(n / 10));
    }
}

/// Two numbers are written alike only if they are equal.
pub proof fn law_decimal_injective(a: nat, b: nat)
    requires
        decimal(a) == decimal(b),
    ensures
        a == b,
{
    lemma_decimal(a);
    lemma_decimal(b);
}

/// Reading a written number gives the number back.
pub proof fn law_decimal_round_trip(n: u64)
    ensures
        u64_value(decimal(n as nat)) == Some(n),
{
    lemma_decimal(n as nat);
}

/// The digit that stands for `d`, as a text of one character.
pub(crate) fn digit_text(d: u64) -> (r: &'static str)
    requires
        d < 10,
    ensures
        r@ == seq![digit_char(d as nat)],
{
    proof {
        reveal_strlit("0");
        reveal_strlit("1");
        reveal_strlit("2");
        reveal_strlit("3");
        reveal_strlit("4");
        reveal_strlit("5");
        reveal_strlit("6");
        reveal_strlit("7");
        reveal_strlit("8");
        reveal_strlit("9");
    }
    match d {
        0 => "0",
        1 => "1",
        2 => "2",
        3 => "3",
        4 => "4",
        5 => "5",
        6 => "6",
        7 => "7",
        8 => "8",
        _ => "9",
    }
}

/// `n` in decimal.
pub fn decimal_text(n: u64) -> (r: String)
    ensures
        r@ == decimal(n as nat),
    decreases n,
{
    if n < 10 {
        digit_text(n).to_owned()
    } else {
        let mut r = decimal_text(n / 10);
        r.append(digit_text(n % 10));
        r
    }
}

/// The number that `s` writes, if it writes one that fits in 64 bits.
pub fn parse_u64(s: &str) -> (r: Option<u64>)
    ensures
        r == u64_value(s@),
{
    let v = chars_of(s);
    let n: usize = v.len();
    let start: usize = if n > 0 && v[0] == '+' {
        1
    } else {
        0
    };
    let ghost digits = unsigned_part(s@);
    assert(digits == v@.subrange(start as int, n as int));
    if start == n {
        return None;
    }
    let mut i: usize = start;
    let mut total: u64 = 0;
    while i < n
        invariant
            n == v@.len(),
            0 <= start <= i <= n,
            digits == v@.subrange(start as int, n as int),
            digits == unsigned_part(s@),
            all_digits(digits.take(i - start)),
            total == value_of(digits.take(i - start)),
        decreases n - i,
    {
        let c = v[i];
        assert(digits[i - start] == c);
        if c < '0' || '9' < c {
            return None;
        }
        let d: u64 = c as u64 - 48;
        assert(digits.take(i + 1 - start).drop_last() == digits.take(i - start));
        assert(value_of(digits.take(i + 1 - start)) == total * 10 + d);
        if total > (u64::MAX - d) / 10 {
            proof {
                if all_digits(digits) {
                    lemma_value_grows(digits, i + 1 - start);
                }
            }
            return None;
        }
        total = total * 10 + d;
        i += 1;
    }
    assert(digits.take(n - start) == digits);
    Some(total)
}

/// A text stands in another exactly where the other is made of it and of what
/// comes before and after.
pub proof fn law_contains_text(hay: Seq<char>, needle: Seq<char>)
    ensures
        contains_text(hay, needle) <==> exists|a: Seq<char>, b: Seq<char>|
            hay == #[trigger] (a + needle + b),
{
    if contains_text(hay, needle) {
        let i = choose|i: int| occurs_at(hay, needle, i);
        let a = hay.take(i);
        let b = hay.skip(i + needle.len());
        assert(hay == a + needle + b) by {
            assert forall|k: int| 0 <= k < hay.len() implies hay[k] == (a + needle + b)[k] by {
                if i <= k < i + needle.len() {
                    assert(hay.subrange(i, i + needle.len())[k - i] == needle[k - i]);
                }
            }
        }
    }
    if exists|a: Seq<char>, b: Seq<char>| hay == #[trigger] (a + needle + b) {
        let (a, b) = choose|a: Seq<char>, b: Seq<char>| hay == #[trigger] (a + needle + b);
        let i = a.len() as int;
        assert(hay.subrange(i, i + needle.len()) == needle);
        assert(occurs_at(hay, needle, i));
    }
}

/// White space is made of these twenty-five characters, and of no others.
pub proof fn law_white_space(c: char)
    ensures
        is_white_space(c) <==> seq![
            0x9int,
            0xa,
            0xb,
            0xc,
            0xd,
            0x20,
            0x85,
            0xa0,
            0x1680,
            0x2000,
            0x2001,
            0x2002,
            0x2003,
            0x2004,
            0x2005,
            0x2006,
            0x2007,
            0x2008,
            0x2009,
            0x200a,
            0x2028,
            0x2029,
            0x202f,
            0x205f,
            0x3000,
        ].contains(c as int),
{
    let all = seq![
        0x9int,
        0xa,
        0xb,
        0xc,
        0xd,
        0x20,
        0x85,
        0xa0,
        0x1680,
        0x2000,
        0x2001,
        0x2002,
        0x2003,
        0x2004,
        0x2005,
        0x2006,
        0x2007,
        0x2008,
        0x2009,
        0x200a,
        0x2028,
        0x2029,
        0x202f,
        0x205f,
        0x3000,
    ];
    let n = c as int;
    if is_white_space(c) {
        let i: int = if n <= 0xd {
            n - 9
        } else if n == 0x20 {
            5
        } else if n == 0x85 {
            6
        } else if n == 0xa0 {
            7
        } else if n == 0x1680 {
            8
        } else if n <= 0x200a {
            n - 0x2000 + 9
        } else if n <= 0x2029 {
            n - 0x2028 + 20
        } else if n == 0x202f {
            22
        } else if n == 0x205f {
            23
        } else {
            24
        };
        assert(all[i] == n);
    }
}

/// Every character is white space.
pub open spec fn all_white(s: Seq<char>) -> bool {
    forall|i: int| 0 <= i < s.len() ==> is_white_space(#[trigger] s[i])
}

proof fn lemma_trim_front(s: Seq<char>) -> (a: Seq<char>)
    ensures
        s == a + trim_front(s),
        all_white(a),
        trim_front(s).len() > 0 ==> !is_white_space(trim_front(s).first()),
    decreases s.len(),
{
    if s.len() > 0 && is_white_space(s.first()) {
        let rest = lemma_trim_front(s.drop_first());
        let a = seq![s.first()] + rest;
        assert(s == seq![s.first()] + s.drop_first());
        assert(s == a + trim_front(s));
        assert forall|i: int| 0 <= i < a.len() implies is_white_space(#[trigger] a[i]) by {
            if i > 0 {
                assert(a[i] == rest[i - 1]);
            }
        }
        a
    } else {
        assert(s == Seq::<char>::empty() + s);
        Seq::empty()
    }
}

proof fn lemma_trim_back(s: Seq<char>) -> (b: Seq<char>)
    ensures
        s == trim_back(s) + b,
        all_white(b),
        trim_back(s).len() > 0 ==> !is_white_space(trim_back(s).last()),
    decreases s.len(),
{
    if s.len() > 0 && is_white_space(s.last()) {
        let rest = lemma_trim_back(s.drop_last());
        let b = rest.push(s.last());
        assert(s == s.drop_last().push(s.last()));
        assert(s == trim_back(s) + b);
        b
    } else {
        assert(s == s + Seq::<char>::empty());
        Seq::empty()
    }
}

/// To trim is to take white space off the ends and nothing else: the text is the
/// trimmed one with white space before and after it, and the trimmed one has
/// none at its ends.
pub proof fn law_trimmed(s: Seq<char>)
    ensures
        exists|a: Seq<char>, b: Seq<char>| {
            &&& s == #[trigger] (a + trimmed(s) + b)
            &&& all_white(a)
            &&& all_white(b)
        },
        trimmed(s).len() > 0 ==> !is_white_space(trimmed(s).first()) && !is_white_space(
            trimmed(s).last(),
        ),
{
    let a = lemma_trim_front(s);
    let b = lemma_trim_back(trim_front(s));
    assert(s == a + trimmed(s) + b);
    if trimmed(s).len() > 0 {
        assert(trim_front(s)[0] == trimmed(s)[0]);
    }
}

/// What stands between white space is what trimming leaves, where it has none at
/// its own ends. So a text without white space at its ends stays as it is, and
/// one of white space alone leaves nothing.
pub proof fn law_trimmed_between(a: Seq<char>, s: Seq<char>, b: Seq<char>)
    requires
        all_white(a),
        all_white(b),
        s.len() > 0 ==> !is_white_space(s.first()) && !is_white_space(s.last()),
    ensures
        trimmed(a + s + b) == s,
    decreases a.len() + b.len(),
{
    let t = a + s + b;
    if a.len() > 0 {
        let rest = a.drop_first();
        assert(t.first() == a[0]);
        assert(is_white_space(a[0]));
        assert(t.drop_first() == rest + s + b);
        assert forall|i: int| 0 <= i < rest.len() implies is_white_space(#[trigger] rest[i]) by {
            assert(rest[i] == a[i + 1]);
        }
        law_trimmed_between(rest, s, b);
    } else if s.len() == 0 {
        assert(t == b);
        lemma_all_trimmed(b);
    } else if b.len() > 0 {
        let rest = b.drop_last();
        assert(t.first() == s[0]);
        assert(t.last() == b[b.len() - 1]);
        assert(is_white_space(b[b.len() - 1]));
        assert(t.drop_last() == a + s + rest);
        assert((a + s + rest).first() == s[0]);
        law_trimmed_between(a, s, rest);
    } else {
        assert(t == s);
    }
}

proof fn lemma_all_trimmed(s: Seq<char>)
    requires
        all_white(s),
    ensures
        trimmed(s) == Seq::<char>::empty(),
    decreases s.len(),
{
    if s.len() > 0 {
        assert(is_white_space(s[0]));
        let rest = s.drop_first();
        assert forall|i: int| 0 <= i < rest.len() implies is_white_space(#[trigger] rest[i]) by {
            assert(rest[i] == s[i + 1]);
        }
        lemma_all_trimmed(rest);
    }
}

/// The ten digits in their order.
pub proof fn law_digits(d: nat)
    requires
        d < 10,
    ensures
        digit_char(d) == "0123456789"@[d as int],
        is_digit("0123456789"@[d as int]),
        digit_value("0123456789"@[d as int]) == d,
{
    reveal_strlit("0123456789");
}

/// Nothing else is a digit.
pub proof fn law_only_digits(c: char)
    requires
        is_digit(c),
    ensures
        exists|d: int| 0 <= d < 10 && c == #[trigger] "0123456789"@[d],
{
    reveal_strlit("0123456789");
    let d = c as int - 48;
    assert(c == "0123456789"@[d]);
}

/// A run of digits counts by tens: one more digit makes ten of what came before.
pub proof fn law_value_by_tens(s: Seq<char>, d: nat)
    requires
        d < 10,
    ensures
        value_of(Seq::<char>::empty()) == 0,
        value_of(s.push("0123456789"@[d as int])) == 10 * value_of(s) + d,
{
    law_digits(d);
    let t = s.push("0123456789"@[d as int]);
    assert(t.drop_last() == s);
}

/// So many zeros.
pub open spec fn zeros(k: nat) -> Seq<char> {
    Seq::new(k, |i: int| '0')
}

proof fn lemma_zeros_before(k: nat, s: Seq<char>)
    requires
        all_digits(s),
    ensures
        all_digits(zeros(k) + s),
        value_of(zeros(k) + s) == value_of(s),
    decreases s.len(), k,
{
    let t = zeros(k) + s;
    assert forall|i: int| 0 <= i < t.len() implies is_digit(#[trigger] t[i]) by {
        if i >= k {
            assert(t[i] == s[i - k]);
        }
    }
    if s.len() > 0 {
        let rest = s.drop_last();
        assert forall|i: int| 0 <= i < rest.len() implies is_digit(#[trigger] rest[i]) by {
            assert(rest[i] == s[i]);
        }
        lemma_zeros_before(k, rest);
        assert(t.drop_last() == zeros(k) + rest);
    } else if k > 0 {
        let fewer = (k - 1) as nat;
        lemma_zeros_before(fewer, s);
        assert(t.drop_last() == zeros(fewer) + s);
    } else {
        assert(t == s);
    }
}

/// A run of digits is the decimal form of its number, behind zeros.
proof fn lemma_run_of_digits(s: Seq<char>) -> (k: nat)
    requires
        all_digits(s),
        s.len() > 0,
    ensures
        s == zeros(k) + decimal(value_of(s)),
    decreases s.len(),
{
    let rest = s.drop_last();
    let d = digit_value(s.last());
    assert(is_digit(s[s.len() - 1]));
    assert(d < 10 && digit_char(d) == s.last());
    assert forall|i: int| 0 <= i < rest.len() implies is_digit(#[trigger] rest[i]) by {
        assert(rest[i] == s[i]);
    }
    if rest.len() == 0 {
        assert(value_of(rest) == 0);
        assert(s == zeros(0) + decimal(value_of(s)));
        0
    } else {
        let k = lemma_run_of_digits(rest);
        let n = value_of(s);
        let m = value_of(rest);
        assert(n / 10 == m && n % 10 == d);
        assert(s == rest.push(s.last()));
        if m == 0 {
            assert(decimal(0) == seq!['0']);
            assert(decimal(n) == seq![s.last()]);
            assert(s == zeros(k + 1) + seq![s.last()]);
            k + 1
        } else {
            assert(decimal(n) == decimal(m).push(s.last()));
            assert(s == zeros(k) + decimal(m).push(s.last()));
            k
        }
    }
}

/// Which texts write the number `n`: its decimal form, behind any number of
/// zeros, behind a plus sign or none.
pub open spec fn writes(s: Seq<char>, n: nat) -> bool {
    exists|k: nat| s == #[trigger] zeros(k) + decimal(n) || s == seq!['+'] + zeros(k) + decimal(n)
}

/// A text is read as a number exactly where it writes one that fits, and as that
/// one.
pub proof fn law_numbers_read(s: Seq<char>, n: u64)
    ensures
        u64_value(s) == Some(n) <==> writes(s, n as nat),
{
    if writes(s, n as nat) {
        let k = choose|k: nat|
            s == #[trigger] zeros(k) + decimal(n as nat) || s == seq!['+'] + zeros(k) + decimal(
                n as nat,
            );
        let t = zeros(k) + decimal(n as nat);
        lemma_decimal(n as nat);
        lemma_zeros_before(k, decimal(n as nat));
        assert(is_digit(t[0]));
        if s == t {
            assert(unsigned_part(s) == t);
        } else {
            assert(s == seq!['+'] + t);
            assert(unsigned_part(s) == t);
        }
    }
    if u64_value(s) == Some(n) {
        let t = unsigned_part(s);
        let k = lemma_run_of_digits(t);
        if s.len() > 0 && s[0] == '+' {
            assert(s == seq!['+'] + t);
            assert(s == seq!['+'] + zeros(k) + decimal(n as nat));
        }
    }
}

/// The decimal form of a number begins with a zero only if it is that of zero.
pub proof fn law_no_leading_zero(n: nat)
    ensures
        decimal(n)[0] == '0' ==> n == 0,
        decimal(0) == seq!['0'],
    decreases n,
{
    if n >= 10 {
        law_no_leading_zero(n / 10);
        lemma_decimal(n / 10);
        assert(decimal(n)[0] == decimal(n / 10)[0]);
    }
}

} // verus!
