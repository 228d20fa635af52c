//! Download progress: reading it from the downloader's output, drawing it as a
//! bar, and pacing how often it is shown.
use vstd::prelude::*;
use vstd::string::StringExecFns;

use crate::text::{
    all_digits, all_white, chars_of, digit_value, is_digit, is_white_space, law_digits,
    law_only_digits, occurs_at, value_of,
};

verus! {

/// Blocks in a progress bar.
pub const BAR_BLOCKS: u64 = 12;

/// What the downloader prints before a percentage.
pub const PROGRESS_TAG: &'static str = "[download]";

/// A progress line of the downloader; the group is the percentage.
pub const PROGRESS_PATTERN: &'static str = r"\[download\]\s+(\d{1,3}\.\d)%";

/// Nanoseconds that have to pass, and a moment more, between two updates.
pub const UPDATE_INTERVAL: u128 = 2_000_000_000;

/// Blocks filled at `tenths` tenths of a percent: the nearest number of blocks,
/// a half rounded up, and never more than the bar has. (A thousand tenths fill
/// twelve blocks, so the exact number is `12 * tenths / 1000`.)
pub open spec fn filled_blocks(tenths: nat) -> nat {
    let nearest = (24 * tenths + 1000) / 2000;
    if nearest < BAR_BLOCKS {
        nearest
    } else {
        BAR_BLOCKS as nat
    }
}

/// The bar at `tenths` tenths of a percent.
pub open spec fn progress_bar(tenths: nat) -> Seq<char> {
    Seq::new(
        BAR_BLOCKS as nat,
        |i: int| if i < filled_blocks(tenths) { '\u{2588}' } else { '\u{2591}' },
    )
}

/// More progress never empties a block; nothing done shows an empty bar, and
/// all done a full one.
pub proof fn law_bar_grows(a: nat, b: nat)
    requires
        a <= b,
    ensures
        filled_blocks(a) <= filled_blocks(b) <= BAR_BLOCKS,
        filled_blocks(0) == 0,
        b >= 1000 ==> filled_blocks(b) == BAR_BLOCKS,
{
}

/// The bar at `tenths` tenths of a percent.
pub fn generate_progress_bar(tenths: u32) -> (r: String)
    ensures
        r@ == progress_bar(tenths as nat),
{
    let nearest: u64 = (24 * tenths as u64 + 1000) / 2000;
    let filled: u64 = if nearest < BAR_BLOCKS {
        nearest
    } else {
        BAR_BLOCKS
    };
    proof {
        reveal_strlit("\u{2588}");
        reveal_strlit("\u{2591}");
    }
    let mut r = String::new();
    let mut i: u64 = 0;
    while i < BAR_BLOCKS
        invariant
            i <= BAR_BLOCKS,
            filled == filled_blocks(tenths as nat),
            r@ == progress_bar(tenths as nat).take(i as int),
            "\u{2588}"@ == seq!['\u{2588}'],
            "\u{2591}"@ == seq!['\u{2591}'],
        decreases BAR_BLOCKS - i,
    {
        if i < filled {
            r.append("\u{2588}");
        } else {
            r.append("\u{2591}");
        }
        i += 1;
        assert(r@ == progress_bar(tenths as nat).take(i as int));
    }
    assert(progress_bar(tenths as nat).take(BAR_BLOCKS as int) == progress_bar(tenths as nat));
    r
}

/// The characters beyond ASCII that `\d` of the `regex` crate stands for:
/// Unicode's decimal digits.
pub uninterp spec fn other_decimal_digit(c: char) -> bool;

/// What `\d` stands for. No decimal digit is white space.
pub open spec fn is_decimal_digit(c: char) -> bool {
    is_digit(c) || (c > '\u{7f}' && !is_white_space(c) && other_decimal_digit(c))
}

/// One to three digits, a point, and one digit.
pub open spec fn is_percent(p: Seq<char>) -> bool {
    &&& 3 <= p.len() <= 5
    &&& p[p.len() - 2] == '.'
    &&& forall|i: int|
        0 <= i < p.len() && i != p.len() - 2 ==> is_decimal_digit(#[trigger] p[i])
}

/// In `line`, the tag at `i` is followed by white space up to `j`, and then by
/// the percentage `p` and a percent sign.
pub open spec fn report_at(line: Seq<char>, i: int, j: int, p: Seq<char>) -> bool {
    &&& occurs_at(line, PROGRESS_TAG@, i)
    &&& i + PROGRESS_TAG@.len() < j
    &&& forall|k: int| i + PROGRESS_TAG@.len() <= k < j ==> is_white_space(#[trigger] line[k])
    &&& is_percent(p)
    &&& occurs_at(line, p.push('%'), j)
}

/// `r` is the percentage of the first progress report in `line`, if there is
/// one.
pub open spec fn captured(line: Seq<char>, r: Option<Seq<char>>) -> bool {
    match r {
        Some(p) => exists|i: int, j: int| #[trigger]
            report_at(line, i, j, p) && (forall|k: int, l: int, q: Seq<char>|
                k < i ==> !(#[trigger] report_at(line, k, l, q))),
        None => forall|k: int, l: int, q: Seq<char>| !(#[trigger] report_at(line, k, l, q)),
    }
}

/// The text inside an optional string.
pub open spec fn text_of(s: Option<String>) -> Option<Seq<char>> {
    match s {
        Some(s) => Some(s@),
        None => None,
    }
}

proof fn lemma_report_unique(
    line: Seq<char>,
    i: int,
    j: int,
    p: Seq<char>,
    l: int,
    q: Seq<char>,
)
    requires
        report_at(line, i, j, p),
        report_at(line, i, l, q),
        j <= l,
    ensures
        p == q,
{
    assert(line.subrange(j, j + p.push('%').len())[0] == p.push('%')[0]);
    assert(p.push('%')[0] == p[0]);
    assert(is_decimal_digit(p[0]));
    assert(line[j] == p[0]);
    assert(j == l);
    assert forall|k: int| 0 <= k < p.len() implies line[j + k] == #[trigger] p[k] by {
        assert(line.subrange(j, j + p.push('%').len())[k] == p.push('%')[k]);
    }
    assert forall|k: int| 0 <= k < q.len() implies line[j + k] == #[trigger] q[k] by {
        assert(line.subrange(j, j + q.push('%').len())[k] == q.push('%')[k]);
    }
    assert(line[j + p.len() - 2] == p[p.len() - 2]);
    assert(line[j + q.len() - 2] == q[q.len() - 2]);
    if p.len() < q.len() {
        assert(is_decimal_digit(q[p.len() - 2]));
    }
    if q.len() < p.len() {
        assert(is_decimal_digit(p[q.len() - 2]));
    }
    assert(p =~= q);
}

/// A line has one first progress report at most: what is read from it is
/// settled by the line.
pub proof fn law_capture_unique(line: Seq<char>, a: Option<Seq<char>>, b: Option<Seq<char>>)
    requires
        captured(line, a),
        captured(line, b),
    ensures
        a == b,
{
    if let (Some(p), Some(q)) = (a, b) {
        let (i, j) = choose|i: int, j: int| #[trigger]
            report_at(line, i, j, p) && (forall|k: int, l: int, q: Seq<char>|
                k < i ==> !(#[trigger] report_at(line, k, l, q)));
        let (k, l) = choose|k: int, l: int| #[trigger]
            report_at(line, k, l, q) && (forall|m: int, l: int, q: Seq<char>|
                m < k ==> !(#[trigger] report_at(line, m, l, q)));
        assert(i == k);
        if j <= l {
            lemma_report_unique(line, i, j, p, l, q);
        } else {
            lemma_report_unique(line, i, l, q, j, p);
        }
    }
}

/// `regex::Regex::new` and `regex::Regex::captures`, for the pattern of
/// progress lines: the text of the group in the leftmost match. `\s` stands
/// for Unicode white space and `\d` for Unicode decimal digits; which
/// characters beyond ASCII the latter are is left unsaid.
#[verifier::external_body]
fn first_group(pattern: &str, text: &str) -> (r: Option<String>)
    requires
        pattern@ == PROGRESS_PATTERN@,
    ensures
        captured(text@, text_of(r)),
        r matches Some(p) ==> forall|i: int|
            0 <= i < p@.len() ==> is_digit(#[trigger] p@[i]) || p@[i] == '.'
                || other_decimal_digit(p@[i]),
{
    regex::Regex::new(pattern).unwrap().captures(text).map(|groups| groups[1].to_string())
}

/// The percentage that a line of the downloader's output reports, as it stands
/// there.
pub fn download_percent(line: &str) -> (r: Option<String>)
    ensures
        captured(line@, text_of(r)),
{
    first_group(PROGRESS_PATTERN, line)
}

/// The tenths of a percent that `p` writes: one to three ASCII digits, a point,
/// and one ASCII digit. Anything else writes none.
pub open spec fn tenths_of(p: Seq<char>) -> nat {
    let whole = p.take(p.len() - 2);
    if 3 <= p.len() <= 5 && p[p.len() - 2] == '.' && all_digits(whole) && is_digit(p.last()) {
        value_of(whole) * 10 + digit_value(p.last())
    } else {
        0
    }
}

/// The tenths of a percent that `pct` writes.
pub fn percent_tenths(pct: &str) -> (r: u32)
    ensures
        r == tenths_of(pct@),
        r < 10000,
{
    let v = chars_of(pct);
    let n: usize = v.len();
    if n < 3 || 5 < n || v[n - 2] != '.' {
        return 0;
    }
    let ghost whole = pct@.take(pct@.len() - 2);
    let mut total: u32 = 0;
    let mut i: usize = 0;
    while i + 2 < n
        invariant
            n == v@.len() == pct@.len(),
            3 <= n <= 5,
            v@ == pct@,
            i <= n - 2,
            whole == pct@.take(n - 2),
            all_digits(whole.take(i as int)),
            total == value_of(whole.take(i as int)),
            i == 0 ==> total == 0,
            i == 1 ==> total < 10,
            i == 2 ==> total < 100,
            i == 3 ==> total < 1000,
        decreases n - i,
    {
        let c = v[i];
        assert(whole[i as int] == c);
        if c < '0' || '9' < c {
            return 0;
        }
        assert(whole.take(i + 1).drop_last() == whole.take(i as int));
        total = total * 10 + (c as u32 - 48);
        i += 1;
    }
    assert(whole.take(n - 2) == whole);
    let c = v[n - 1];
    if c < '0' || '9' < c {
        return 0;
    }
    total * 10 + (c as u32 - 48)
}

/// The percentage shown last, and when, in nanoseconds since the download
/// began.
pub struct Shown {
    pub pct: String,
    pub at: u128,
}

/// Whether the percentage `pct` is to be shown at `at`: it is the first one, or
/// another one than that shown last, with the interval behind it.
pub open spec fn due(shown: Option<Shown>, pct: Seq<char>, at: u128) -> bool {
    match shown {
        None => true,
        Some(last) => last.pct@ != pct && at - last.at > UPDATE_INTERVAL,
    }
}

/// Whether the percentage `pct` is to be shown at `at`.
pub fn is_due(shown: &Option<Shown>, pct: &String, at: u128) -> (r: bool)
    ensures
        r == due(*shown, pct@, at),
{
    match shown {
        None => true,
        Some(last) => last.pct != *pct && at > last.at && at - last.at > UPDATE_INTERVAL,
    }
}

/// A bar has twelve blocks, and one of them is filled as soon as its middle is
/// reached: the one behind `i` others at `2 * i + 1` twenty-fourths of the way.
pub proof fn law_blocks_filled(tenths: nat, i: int)
    requires
        0 <= i < 12,
    ensures
        progress_bar(tenths).len() == 12,
        24 * tenths >= 1000 * (2 * i + 1) ==> progress_bar(tenths)[i] == '\u{2588}',
        24 * tenths < 1000 * (2 * i + 1) ==> progress_bar(tenths)[i] == '\u{2591}',
{
}

/// Of the characters of ASCII only the ten digits are decimal digits.
pub proof fn law_ascii_digits(c: char)
    requires
        c <= '\u{7f}',
    ensures
        is_decimal_digit(c) == ('0' <= c <= '9'),
{
}

/// Up to three digits, a point and a digit make a percentage.
pub proof fn law_percentages(whole: Seq<char>, c: char)
    requires
        1 <= whole.len() <= 3,
        forall|i: int| 0 <= i < whole.len() ==> is_decimal_digit(#[trigger] whole[i]),
        is_decimal_digit(c),
    ensures
        is_percent(whole.push('.').push(c)),
{
    let p = whole.push('.').push(c);
    assert forall|i: int| 0 <= i < p.len() && i != p.len() - 2 implies is_decimal_digit(
        #[trigger] p[i],
    ) by {
        if i < whole.len() {
            assert(p[i] == whole[i]);
        }
    }
}

/// Nothing else makes one.
pub proof fn law_only_percentages(p: Seq<char>)
    requires
        is_percent(p),
    ensures
        exists|whole: Seq<char>, c: char|
            {
                &&& p == #[trigger] whole.push('.').push(c)
                &&& 1 <= whole.len() <= 3
                &&& is_decimal_digit(c)
                &&& forall|i: int|
                    0 <= i < whole.len() ==> is_decimal_digit(#[trigger] whole[i])
            },
{
    let whole = p.take(p.len() - 2);
    let c = p[p.len() - 1];
    assert(is_decimal_digit(c));
    assert(p == whole.push('.').push(c));
    assert forall|i: int| 0 <= i < whole.len() implies is_decimal_digit(#[trigger] whole[i]) by {
        assert(whole[i] == p[i]);
    }
}

/// A progress report with what comes before and after it: the tag, white space,
/// and the percentage with its sign.
pub open spec fn reporting(
    before: Seq<char>,
    white: Seq<char>,
    p: Seq<char>,
    after: Seq<char>,
) -> Seq<char> {
    before + "[download]"@ + white + p + "%"@ + after
}

proof fn lemma_reporting(before: Seq<char>, white: Seq<char>, p: Seq<char>, after: Seq<char>)
    requires
        white.len() > 0,
        all_white(white),
        is_percent(p),
    ensures
        report_at(
            reporting(before, white, p, after),
            before.len() as int,
            (before.len() + 10 + white.len()) as int,
            p,
        ),
{
    reveal_strlit("[download]");
    reveal_strlit("%");
    let line = reporting(before, white, p, after);
    let i = before.len() as int;
    let j = i + 10 + white.len();
    assert(line.subrange(i, i + 10) == PROGRESS_TAG@);
    assert(line.subrange(j, j + p.push('%').len()) == p.push('%'));
    assert forall|k: int| i + 10 <= k < j implies is_white_space(#[trigger] line[k]) by {
        assert(line[k] == white[k - i - 10]);
    }
}

proof fn lemma_captured(line: Seq<char>, i: int, j: int, p: Seq<char>, r: Option<Seq<char>>)
    requires
        report_at(line, i, j, p),
        forall|k: int, l: int, q: Seq<char>| k < i ==> !(#[trigger] report_at(line, k, l, q)),
        r == Some(p),
    ensures
        captured(line, r),
{
    match r {
        Some(p) => {
            assert(report_at(line, i, j, p));
        },
        None => {},
    }
}

/// A percentage that is reported is read, whatever comes after the report and
/// whatever comes before it that does not begin another.
pub proof fn law_report_is_read(
    before: Seq<char>,
    white: Seq<char>,
    p: Seq<char>,
    after: Seq<char>,
    r: Option<Seq<char>>,
)
    requires
        !before.contains('['),
        white.len() > 0,
        all_white(white),
        is_percent(p),
    ensures
        captured(reporting(before, white, p, after), r) <==> r == Some(p),
{
    let line = reporting(before, white, p, after);
    let i = before.len() as int;
    lemma_reporting(before, white, p, after);
    assert forall|k: int, l: int, q: Seq<char>| k < i implies !(#[trigger] report_at(
        line,
        k,
        l,
        q,
    )) by {
        if report_at(line, k, l, q) {
            reveal_strlit("[download]");
            assert(line.subrange(k, k + 10)[0] == PROGRESS_TAG@[0]);
            assert(line[k] == before[k]);
        }
    }
    lemma_captured(line, i, (before.len() + 10 + white.len()) as int, p, Some(p));
    if captured(line, r) {
        law_capture_unique(line, r, Some(p));
    }
}

/// A line with a report in it, wherever it stands, is never read as one without.
pub proof fn law_report_is_found(
    before: Seq<char>,
    white: Seq<char>,
    p: Seq<char>,
    after: Seq<char>,
)
    requires
        white.len() > 0,
        all_white(white),
        is_percent(p),
    ensures
        !captured(reporting(before, white, p, after), None),
{
    lemma_reporting(before, white, p, after);
}

/// What is read is reported.
pub proof fn law_read_is_reported(line: Seq<char>, p: Seq<char>)
    requires
        captured(line, Some(p)),
    ensures
        is_percent(p),
        exists|before: Seq<char>, white: Seq<char>, after: Seq<char>|
            {
                &&& line == #[trigger] reporting(before, white, p, after)
                &&& white.len() > 0
                &&& all_white(white)
            },
{
    reveal_strlit("[download]");
    reveal_strlit("%");
    let (i, j) = choose|i: int, j: int| #[trigger]
        report_at(line, i, j, p) && (forall|k: int, l: int, q: Seq<char>|
            k < i ==> !(#[trigger] report_at(line, k, l, q)));
    let before = line.take(i);
    let white = line.subrange(i + 10, j);
    let after = line.skip(j + p.len() + 1);
    assert(line.subrange(i, i + 10) == PROGRESS_TAG@);
    assert(line.subrange(j, j + p.push('%').len()) == p.push('%'));
    assert(line == before + line.subrange(i, i + 10) + white + line.subrange(
        j,
        j + p.push('%').len(),
    ) + after);
    assert(p.push('%') == p + "%"@);
    assert(line == reporting(before, white, p, after));
    assert forall|k: int| 0 <= k < white.len() implies is_white_space(#[trigger] white[k]) by {
        assert(white[k] == line[i + 10 + k]);
    }
}

/// A percentage of ASCII digits writes ten times what stands before the point,
/// and the digit behind it.
pub proof fn law_tenths_written(whole: Seq<char>, d: nat)
    requires
        1 <= whole.len() <= 3,
        all_digits(whole),
        d < 10,
    ensures
        tenths_of(whole.push('.').push("0123456789"@[d as int])) == 10 * value_of(whole) + d,
{
    law_digits(d);
    let p = whole.push('.').push("0123456789"@[d as int]);
    assert(p.take(p.len() - 2) == whole);
}

/// Nothing else writes any.
pub proof fn law_only_tenths_written(p: Seq<char>)
    requires
        tenths_of(p) != 0,
    ensures
        exists|whole: Seq<char>, d: int|
            {
                &&& p == #[trigger] whole.push('.').push("0123456789"@[d])
                &&& 1 <= whole.len() <= 3
                &&& all_digits(whole)
                &&& 0 <= d < 10
            },
{
    let whole = p.take(p.len() - 2);
    law_only_digits(p.last());
    let d = choose|d: int| 0 <= d < 10 && p.last() == #[trigger] "0123456789"@[d];
    assert(p == whole.push('.').push("0123456789"@[d]));
}

/// The first percentage is due at once; a later one if it is another than that
/// shown last and came more than two seconds after it, and only then.
pub proof fn law_due(last: Shown, pct: Seq<char>, at: u128)
    ensures
        due(None, pct, at),
        !due(Some(last), last.pct@, at),
        at <= last.at + 2_000_000_000 ==> !due(Some(last), pct, at),
        pct != last.pct@ && at > last.at + 2_000_000_000 ==> due(Some(last), pct, at),
{
}

/// The text inside an optional string is that of the string.
pub proof fn law_text_of(s: String)
    ensures
        text_of(Some(s)) == Some(s@),
        text_of(None) == None::<Seq<char>>,
{
}

} // verus!
