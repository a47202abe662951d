//! Calendar dates as stored on tasks: day, month and year kept as independent
//! numbers, parsed from and formatted to `"day-month-year"` text.
//!
//! Parsing recognises the sentinel `"None"` as absence.  Any other accepted
//! text has a one-or-two digit day between 1 and 31, a one-or-two digit month
//! between 1 and 12, and a four digit year; day and month are not validated
//! against each other, so a day 30 in month 2 is kept as given.

use vstd::prelude::*;
use vstd::string::*;

use crate::text::{
    all_digits, dec_rep, digits_val, is_digit, lemma_dec_rep_len, lemma_dec_rep_val,
    lemma_digits_val_bound, parse_digits, pow10, str_eq, u64_to_string,
};

verus! {

/// A calendar date; the three fields are stored independently.
#[derive(Debug, Clone, Copy, PartialEq, Eq, Structural)]
pub struct Date {
    pub day: u8,
    pub month: u8,
    pub year: i32,
}

/// The error returned for malformed date text.
#[derive(Debug)]
pub struct ParseError {
    msg: String,
}

impl ParseError {
    pub closed spec fn message_view(&self) -> Seq<char> {
        self.msg@
    }

    /// The human-readable description of the failure.
    pub fn message(&self) -> (r: &str)
        ensures
            r@ == self.message_view(),
    {
        self.msg.as_str()
    }
}

/// Whether the three fields of a split date text are acceptable: day and
/// month have one or two digits and fall in range, the year has four digits.
pub open spec fn date_fields_ok(a: Seq<char>, b: Seq<char>, c: Seq<char>) -> bool {
    &&& 1 <= a.len() <= 2 && all_digits(a) && 1 <= digits_val(a) <= 31
    &&& 1 <= b.len() <= 2 && all_digits(b) && 1 <= digits_val(b) <= 12
    &&& c.len() == 4 && all_digits(c)
}

/// Whether `s` is exactly the three fields joined by single dashes.
pub open spec fn splits_as(s: Seq<char>, a: Seq<char>, b: Seq<char>, c: Seq<char>) -> bool {
    s == a + seq!['-'] + b + seq!['-'] + c
}

/// Whether the split `(a, b, c)` of `s` denotes the value `d`.
pub open spec fn split_denotes(s: Seq<char>, a: Seq<char>, b: Seq<char>, c: Seq<char>, d: Date) -> bool {
    &&& splits_as(s, a, b, c)
    &&& date_fields_ok(a, b, c)
    &&& d.day == digits_val(a)
    &&& d.month == digits_val(b)
    &&& d.year == digits_val(c)
}

/// Whether `s` is a date text denoting exactly the value `d`.
pub open spec fn text_is_date(s: Seq<char>, d: Date) -> bool {
    exists|a: Seq<char>, b: Seq<char>, c: Seq<char>| #[trigger] split_denotes(s, a, b, c, d)
}

/// Whether `s` is a date text denoting some value.
pub open spec fn valid_date_text(s: Seq<char>) -> bool {
    exists|d: Date| text_is_date(s, d)
}

/// Locates the first dash at or after `from`.
fn find_dash(s: &str, from: usize) -> (r: Option<usize>)
    requires
        from <= s@.len(),
    ensures
        match r {
            Some(j) => from <= j < s@.len() && s@[j as int] == '-' && (forall|k: int|
                from <= k < j ==> s@[k] != '-'),
            None => forall|k: int| from <= k < s@.len() ==> s@[k] != '-',
        },
{
    let n = s.unicode_len();
    let mut i: usize = from;
    while i < n
        invariant
            from <= i <= n,
            n == s@.len(),
            forall|k: int| from <= k < i ==> s@[k] != '-',
        decreases n - i,
    {
        if s.get_char(i) == '-' {
            return Some(i);
        }
        i += 1;
    }
    None
}

/// A split that satisfies the grammar stands at fixed positions in the text:
/// the dashes are the first two dashes, and the fields are the subranges
/// between them.
proof fn lemma_split_structure(s: Seq<char>, a: Seq<char>, b: Seq<char>, c: Seq<char>)
    requires
        splits_as(s, a, b, c),
        date_fields_ok(a, b, c),
    ensures
        s.len() == a.len() + b.len() + c.len() + 2,
        a =~= s.subrange(0, a.len() as int),
        s[a.len() as int] == '-',
        b =~= s.subrange(a.len() as int + 1, a.len() + 1 + b.len() as int),
        s[a.len() + 1 + b.len() as int] == '-',
        c =~= s.subrange(a.len() + b.len() as int + 2, s.len() as int),
        forall|k: int| 0 <= k < a.len() ==> s[k] != '-',
        forall|k: int| a.len() + 1 <= k < a.len() + 1 + b.len() as int ==> s[k] != '-',
{
    let la = a.len() as int;
    let lb = b.len() as int;
    assert forall|k: int| 0 <= k < la implies s[k] != '-' by {
        assert(s[k] == a[k]);
        assert(is_digit(a[k]));
    }
    assert forall|k: int| la + 1 <= k < la + 1 + lb implies s[k] != '-' by {
        assert(s[k] == b[k - la - 1]);
        assert(is_digit(b[k - la - 1]));
    }
}

/// The first dash of a date text stands right after the day field.
proof fn lemma_witness_first_dash(
    s: Seq<char>,
    a: Seq<char>,
    b: Seq<char>,
    c: Seq<char>,
    d: Date,
    i: int,
)
    requires
        split_denotes(s, a, b, c, d),
        0 <= i < s.len(),
        s[i] == '-',
        forall|k: int| 0 <= k < i ==> s[k] != '-',
    ensures
        i == a.len(),
{
    lemma_split_structure(s, a, b, c);
    if i < a.len() {
        assert(s[i] != '-');
    }
    if i > a.len() {
        assert(s[a.len() as int] == '-');
    }
}

/// Both dashes of a date text stand at the positions the exec scan finds,
/// so the three fields are exactly the subranges between them.
proof fn lemma_witness_at(
    s: Seq<char>,
    a: Seq<char>,
    b: Seq<char>,
    c: Seq<char>,
    d: Date,
    i: int,
    j: int,
)
    requires
        split_denotes(s, a, b, c, d),
        0 <= i < j < s.len(),
        s[i] == '-',
        forall|k: int| 0 <= k < i ==> s[k] != '-',
        s[j] == '-',
        forall|k: int| i + 1 <= k < j ==> s[k] != '-',
    ensures
        i == a.len(),
        j == a.len() + 1 + b.len(),
        a == s.subrange(0, i),
        b == s.subrange(i + 1, j),
        c == s.subrange(j + 1, s.len() as int),
{
    lemma_split_structure(s, a, b, c);
    lemma_witness_first_dash(s, a, b, c, d, i);
    let j2 = a.len() + 1 + b.len() as int;
    if j < j2 {
        assert(s[j] != '-');
    }
    if j > j2 {
        assert(s[j2] == '-');
    }
}

/// A date text denotes a single value.
pub proof fn lemma_text_date_unique(s: Seq<char>, d1: Date, d2: Date)
    requires
        text_is_date(s, d1),
        text_is_date(s, d2),
    ensures
        d1 == d2,
{
    let (a1, b1, c1): (Seq<char>, Seq<char>, Seq<char>) = choose|a1: Seq<char>, b1: Seq<char>, c1: Seq<char>| split_denotes(s, a1, b1, c1, d1);
    let (a2, b2, c2): (Seq<char>, Seq<char>, Seq<char>) = choose|a2: Seq<char>, b2: Seq<char>, c2: Seq<char>| split_denotes(s, a2, b2, c2, d2);
    lemma_split_structure(s, a1, b1, c1);
    lemma_split_structure(s, a2, b2, c2);
    lemma_witness_first_dash(s, a2, b2, c2, d2, a1.len() as int);
    lemma_witness_at(s, a2, b2, c2, d2, a1.len() as int, a1.len() + 1 + b1.len() as int);
    assert(a1 =~= a2);
    assert(b1 =~= b2);
    assert(c1 =~= c2);
}

/// Parses a date text; yields the denoted value, or nothing when the text is
/// not in the date grammar.
fn parse_date_text(s: &str) -> (r: Option<Date>)
    ensures
        match r {
            Some(d) => text_is_date(s@, d),
            None => !valid_date_text(s@),
        },
{
    let n = s.unicode_len();
    let first = find_dash(s, 0);
    if first.is_none() {
        proof {
            assert forall|d: Date| !text_is_date(s@, d) by {
                if text_is_date(s@, d) {
                    let (a, b, c): (Seq<char>, Seq<char>, Seq<char>) = choose|a: Seq<char>, b: Seq<char>, c: Seq<char>| split_denotes(s@, a, b, c, d);
                    lemma_split_structure(s@, a, b, c);
                    assert(s@[a.len() as int] == '-');
                }
            }
        }
        return None;
    }
    let i = first.unwrap();
    let second = find_dash(s, i + 1);
    if second.is_none() {
        proof {
            assert forall|d: Date| !text_is_date(s@, d) by {
                if text_is_date(s@, d) {
                    let (a, b, c): (Seq<char>, Seq<char>, Seq<char>) = choose|a: Seq<char>, b: Seq<char>, c: Seq<char>| split_denotes(s@, a, b, c, d);
                    lemma_split_structure(s@, a, b, c);
                    lemma_witness_first_dash(s@, a, b, c, d, i as int);
                    assert(s@[a.len() + 1 + b.len() as int] == '-');
                }
            }
        }
        return None;
    }
    let j = second.unwrap();
    let day_ok = i >= 1 && i <= 2;
    let month_ok = j - i - 1 >= 1 && j - i - 1 <= 2;
    let year_ok = n - j - 1 == 4;
    if !(day_ok && month_ok && year_ok) {
        proof {
            assert forall|d: Date| !text_is_date(s@, d) by {
                if text_is_date(s@, d) {
                    let (a, b, c): (Seq<char>, Seq<char>, Seq<char>) = choose|a: Seq<char>, b: Seq<char>, c: Seq<char>| split_denotes(s@, a, b, c, d);
                    lemma_witness_at(s@, a, b, c, d, i as int, j as int);
                }
            }
        }
        return None;
    }
    let day_v = parse_digits(s, 0, i);
    let month_v = parse_digits(s, i + 1, j);
    let year_v = parse_digits(s, j + 1, n);
    let values_ok = match (day_v, month_v, year_v) {
        (Some(dv), Some(mv), Some(_)) => dv >= 1 && dv <= 31 && mv >= 1 && mv <= 12,
        _ => false,
    };
    if !values_ok {
        proof {
            assert forall|d: Date| !text_is_date(s@, d) by {
                if text_is_date(s@, d) {
                    let (a, b, c): (Seq<char>, Seq<char>, Seq<char>) = choose|a: Seq<char>, b: Seq<char>, c: Seq<char>| split_denotes(s@, a, b, c, d);
                    lemma_witness_at(s@, a, b, c, d, i as int, j as int);
                }
            }
        }
        return None;
    }
    let dv = day_v.unwrap();
    let mv = month_v.unwrap();
    let yv = year_v.unwrap();
    let d = Date { day: dv as u8, month: mv as u8, year: yv as i32 };
    proof {
        let a = s@.subrange(0, i as int);
        let b = s@.subrange(i as int + 1, j as int);
        let c = s@.subrange(j as int + 1, n as int);
        assert(s@ =~= a + seq!['-'] + b + seq!['-'] + c);
        lemma_digits_val_bound(c);
        assert(pow10(4) == 10000) by {
            reveal_with_fuel(pow10, 5);
        }
        assert(split_denotes(s@, a, b, c, d));
    }
    Some(d)
}

/// A run of `n` zero characters.
pub open spec fn zeros(n: nat) -> Seq<char> {
    Seq::new(n, |i: int| '0')
}

/// `s` left-padded with zeros to width `w`; text longer than `w` stands as
/// it is.
pub open spec fn pad_to(s: Seq<char>, w: nat) -> Seq<char> {
    if s.len() >= w {
        s
    } else {
        zeros((w - s.len()) as nat) + s
    }
}

/// The year part of a formatted date: four characters altogether, with the
/// sign included in the width for years below zero.
pub open spec fn year4_text(y: int) -> Seq<char> {
    if y >= 0 {
        pad_to(dec_rep(y as nat), 4)
    } else {
        seq!['-'] + pad_to(dec_rep((-y) as nat), 3)
    }
}

/// The canonical text of a date: day and month unpadded, year padded to four
/// digits.
pub open spec fn date_text(d: Date) -> Seq<char> {
    dec_rep(d.day as nat) + seq!['-'] + dec_rep(d.month as nat) + seq!['-'] + year4_text(
        d.year as int,
    )
}

proof fn lemma_digits_val_zeros(p: nat)
    ensures
        digits_val(zeros(p)) == 0,
        all_digits(zeros(p)),
    decreases p,
{
    if p > 0 {
        lemma_digits_val_zeros((p - 1) as nat);
        assert(zeros(p).drop_last() =~= zeros((p - 1) as nat));
        assert(zeros(p).last() == '0');
    }
}

/// Leading zeros do not change the value a digit string denotes.
pub proof fn lemma_digits_val_pad(p: nat, s: Seq<char>)
    ensures
        digits_val(zeros(p) + s) == digits_val(s),
        all_digits(s) ==> all_digits(zeros(p) + s),
    decreases s.len(),
{
    lemma_digits_val_zeros(p);
    if s.len() == 0 {
        assert(zeros(p) + s =~= zeros(p));
    } else {
        lemma_digits_val_pad(p, s.drop_last());
        assert((zeros(p) + s).drop_last() =~= zeros(p) + s.drop_last());
        assert((zeros(p) + s).last() == s.last());
    }
}

/// Builds `s` left-padded with zeros to width `w`.
fn pad_zeros(s: String, w: usize) -> (r: String)
    ensures
        r@ == pad_to(s@, w as nat),
{
    let n = s.unicode_len();
    let mut out = String::new();
    let mut k: usize = n;
    while k < w
        invariant
            n <= k,
            k > n ==> k <= w,
            out@ =~= zeros((k - n) as nat),
        decreases w - k,
    {
        out.append("0");
        k += 1;
        proof {
            reveal_strlit("0");
            assert(out@ =~= zeros((k - n) as nat));
        }
    }
    out.append(s.as_str());
    proof {
        if n >= w {
            assert(out@ =~= s@);
        } else {
            assert(out@ =~= zeros((w - n) as nat) + s@);
        }
    }
    out
}

/// Formats the year with sign and zero padding.
fn year_to_string(y: i32) -> (r: String)
    ensures
        r@ == year4_text(y as int),
{
    if y >= 0 {
        pad_zeros(u64_to_string(y as u64), 4)
    } else {
        let mut out = String::from_str("-");
        let padded = pad_zeros(u64_to_string((-(y as i64)) as u64), 3);
        out.append(padded.as_str());
        proof {
            reveal_strlit("-");
            assert(out@ =~= year4_text(y as int));
        }
        out
    }
}

impl Date {
    /// Formats the date as its canonical text.
    pub fn to_string(&self) -> (r: String)
        ensures
            r@ == date_text(*self),
    {
        let mut out = u64_to_string(self.day as u64);
        out.append("-");
        let m = u64_to_string(self.month as u64);
        out.append(m.as_str());
        out.append("-");
        let y = year_to_string(self.year);
        out.append(y.as_str());
        proof {
            reveal_strlit("-");
            assert(out@ =~= date_text(*self));
        }
        out
    }
}

/// The total order on dates: by year, then month, then day.
pub open spec fn date_cmp(d1: Date, d2: Date) -> core::cmp::Ordering {
    if d1.year < d2.year {
        core::cmp::Ordering::Less
    } else if d1.year > d2.year {
        core::cmp::Ordering::Greater
    } else if d1.month < d2.month {
        core::cmp::Ordering::Less
    } else if d1.month > d2.month {
        core::cmp::Ordering::Greater
    } else if d1.day < d2.day {
        core::cmp::Ordering::Less
    } else if d1.day > d2.day {
        core::cmp::Ordering::Greater
    } else {
        core::cmp::Ordering::Equal
    }
}

impl PartialOrd for Date {
    fn partial_cmp(&self, other: &Self) -> (r: Option<core::cmp::Ordering>) {
        if self.year < other.year {
            Some(core::cmp::Ordering::Less)
        } else if self.year > other.year {
            Some(core::cmp::Ordering::Greater)
        } else if self.month < other.month {
            Some(core::cmp::Ordering::Less)
        } else if self.month > other.month {
            Some(core::cmp::Ordering::Greater)
        } else if self.day < other.day {
            Some(core::cmp::Ordering::Less)
        } else if self.day > other.day {
            Some(core::cmp::Ordering::Greater)
        } else {
            Some(core::cmp::Ordering::Equal)
        }
    }
}

impl vstd::std_specs::cmp::PartialOrdSpecImpl for Date {
    open spec fn obeys_partial_cmp_spec() -> bool {
        true
    }

    open spec fn partial_cmp_spec(&self, other: &Self) -> Option<core::cmp::Ordering> {
        Some(date_cmp(*self, *other))
    }
}

impl Date {
    /// Relies on chrono's `Local::now` and the `Datelike` accessors: `day` is
    /// documented to return a value from 1 to 31 and `month` from 1 to 12.
    #[verifier::external_body]
    pub fn get_local_date() -> (d: Date)
        ensures
            1 <= d.day <= 31,
            1 <= d.month <= 12,
    {
        let now = chrono::Local::now();
        Date {
            day: chrono::Datelike::day(&now) as u8,
            month: chrono::Datelike::month(&now) as u8,
            year: chrono::Datelike::year(&now),
        }
    }
}

/// The canonical text of a date whose fields lie in the parser's ranges
/// denotes exactly that date.
pub proof fn lemma_date_text_denotes(d: Date)
    requires
        1 <= d.day <= 31,
        1 <= d.month <= 12,
        0 <= d.year <= 9999,
    ensures
        text_is_date(date_text(d), d),
        forall|d2: Date| text_is_date(date_text(d), d2) ==> d2 == d,
{
    let a2 = dec_rep(d.day as nat);
    let b2 = dec_rep(d.month as nat);
    let c2 = year4_text(d.year as int);
    assert(pow10(2) == 100 && pow10(4) == 10000) by {
        reveal_with_fuel(pow10, 5);
    }
    lemma_dec_rep_val(d.day as nat);
    lemma_dec_rep_len(d.day as nat, 2);
    lemma_dec_rep_val(d.month as nat);
    lemma_dec_rep_len(d.month as nat, 2);
    lemma_dec_rep_val(d.year as nat);
    lemma_dec_rep_len(d.year as nat, 4);
    assert(c2 == pad_to(dec_rep(d.year as nat), 4));
    if dec_rep(d.year as nat).len() >= 4 {
        assert(c2 == dec_rep(d.year as nat));
    } else {
        lemma_digits_val_pad((4 - dec_rep(d.year as nat).len()) as nat, dec_rep(d.year as nat));
    }
    assert(date_fields_ok(a2, b2, c2));
    assert(split_denotes(date_text(d), a2, b2, c2, d));
    assert forall|d2: Date| text_is_date(date_text(d), d2) implies d2 == d by {
        lemma_text_date_unique(date_text(d), d2, d);
    }
}

/// Law: a parsed date formats back to a text that denotes the very same day,
/// month and year, whatever zero padding the parsed text used; and that text
/// denotes no other value.
pub proof fn lemma_parse_format_round_trip(s: Seq<char>, d: Date)
    requires
        text_is_date(s, d),
    ensures
        text_is_date(date_text(d), d),
        forall|d2: Date| text_is_date(date_text(d), d2) ==> d2 == d,
{
    let (a, b, c): (Seq<char>, Seq<char>, Seq<char>) = choose|a: Seq<char>, b: Seq<char>, c: Seq<char>| split_denotes(s, a, b, c, d);
    assert(pow10(4) == 10000) by {
        reveal_with_fuel(pow10, 5);
    }
    lemma_digits_val_bound(c);
    lemma_date_text_denotes(d);
}

/// The sentinel text holds no dash, so it is no date text.
pub proof fn lemma_none_not_date()
    ensures
        !valid_date_text("None"@),
{
    reveal_strlit("None");
    assert forall|d: Date| !text_is_date("None"@, d) by {
        if text_is_date("None"@, d) {
            let (a, b, c): (Seq<char>, Seq<char>, Seq<char>) = choose|a: Seq<char>, b: Seq<char>, c: Seq<char>| split_denotes("None"@, a, b, c, d);
            lemma_split_structure("None"@, a, b, c);
            assert("None"@[a.len() as int] == '-');
        }
    }
}

impl Date {
    /// Parses date text: the sentinel `"None"` gives absence, a text in the
    /// date grammar gives its value, and anything else is an error carrying
    /// the message `"invalid date"`.
    pub fn from_string(date: String) -> (r: Result<Option<Date>, ParseError>)
        ensures
            match r {
                Ok(opt) => match opt {
                    None => date@ == "None"@,
                    Some(d) => date@ != "None"@ && text_is_date(date@, d),
                },
                Err(e) => date@ != "None"@ && !valid_date_text(date@) && e.message_view()
                    == "invalid date"@,
            },
            date@ == "None"@ ==> r is Ok,
            valid_date_text(date@) ==> r is Ok,
    {
        if str_eq(date.as_str(), "None") {
            return Ok(None);
        }
        match parse_date_text(date.as_str()) {
            Some(d) => Ok(Some(d)),
            None => Err(ParseError { msg: String::from_str("invalid date") }),
        }
    }
}

} // verus!
