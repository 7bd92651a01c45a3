//! Date and version arithmetic on a parsed format: the values of a date, the
//! version string built from them, and the values read back from a version
//! string.

use vstd::prelude::*;
use crate::calendar::{local_today, CalendarDate};
use crate::decimal::{
    decimal, lemma_decimal_digits, lemma_digits_exclude, lemma_parse_decimal, parse_decimal, parse_u64,
    render_decimal,
};
use crate::format::{Component, VersionFormat};
use crate::text::{
    join, join_dotted, lemma_split_join, same_text, split, split_on, string_views, views,
};

verus! {

/// The value that a token takes on a date. The counter's place holds 0.
pub open spec fn component_value(c: Component, date: CalendarDate) -> u64 {
    match c {
        Component::Yyyy => date.year as u64,
        Component::Yy => (date.year % 100) as u64,
        Component::Mm => date.month as u64,
        Component::Dd => date.day as u64,
        Component::Micro => 0,
    }
}

/// Whether `v` may stand at the place of the token `c` in a version: a month
/// is 1 to 12, a day 1 to 31, anything else is free.
pub open spec fn in_range(c: Component, v: u64) -> bool {
    match c {
        Component::Mm => 1 <= v <= 12,
        Component::Dd => 1 <= v <= 31,
        _ => true,
    }
}

/// Each value written in decimal.
pub open spec fn decimals(values: Seq<u64>) -> Seq<Seq<char>> {
    Seq::new(values.len(), |i: int| decimal(values[i] as nat))
}

/// The segments, followed by as many segments `0` as are needed to reach three.
pub open spec fn padded(parts: Seq<Seq<char>>) -> Seq<Seq<char>> {
    if parts.len() >= 3 {
        parts
    } else {
        parts + Seq::new((3 - parts.len()) as nat, |i: int| seq!['0'])
    }
}

impl VersionFormat {
    /// Whether the counter's place, if there is one, lies within the tokens.
    /// Every format that `parse` returns meets this.
    pub open spec fn counter_in_range(&self) -> bool {
        self.micro_index matches Some(m) ==> m < self.components@.len()
    }

    /// Whether the counter stands at place `k`.
    pub open spec fn counter_at(&self, k: int) -> bool {
        self.micro_index matches Some(m) && m as int == k
    }

    /// Whether place `k` of `values` is compared with a date: it exists in both
    /// the values and the format, and is not the counter's.
    pub open spec fn compared(&self, values: Seq<u64>, k: int) -> bool {
        0 <= k < values.len() && k < self.components@.len() && !self.counter_at(k)
    }

    /// The values of `date`, one for each token.
    pub open spec fn values_on(&self, date: CalendarDate) -> Seq<u64> {
        Seq::new(self.components@.len(), |i: int| component_value(self.components@[i], date))
    }

    /// The values of the version of `date` with the counter `micro`.
    pub open spec fn version_values(&self, date: CalendarDate, micro: u64) -> Seq<u64> {
        match self.micro_index {
            Some(m) => self.values_on(date).update(m as int, micro),
            None => self.values_on(date),
        }
    }

    /// The segments of the version of `date` with the counter `micro`.
    pub open spec fn version_segments(&self, date: CalendarDate, micro: u64) -> Seq<Seq<char>> {
        padded(decimals(self.version_values(date, micro)))
    }

    /// The version of `date` with the counter `micro`.
    pub open spec fn version_text(&self, date: CalendarDate, micro: u64) -> Seq<char> {
        join(self.version_segments(date, micro), '.')
    }

    /// Whether the segment at place `i` of a candidate version is acceptable:
    /// a number, and in range unless it is the counter's.
    pub open spec fn segment_ok(&self, parts: Seq<Seq<char>>, i: int) -> bool {
        match parse_u64(parts[i]) {
            Some(v) => self.counter_at(i) || in_range(self.components@[i], v),
            None => false,
        }
    }

    /// The values that a version string holds under this format, if it fits:
    /// at least as many segments as tokens, each of those a number in range,
    /// and every further segment exactly `0`.
    pub open spec fn extract_spec(&self, version: Seq<char>) -> Option<Seq<u64>> {
        let parts = split(version, '.');
        let n = self.components@.len();
        if parts.len() < n {
            None
        } else if exists|i: int| n <= i < parts.len() && #[trigger] parts[i] != seq!['0'] {
            None
        } else if exists|i: int| 0 <= i < n && !#[trigger] self.segment_ok(parts, i) {
            None
        } else {
            Some(Seq::new(n, |i: int| parse_u64(parts[i]).unwrap()))
        }
    }

    /// Whether the values agree with `date` at every compared place.
    pub open spec fn matches_on(&self, values: Seq<u64>, date: CalendarDate) -> bool {
        forall|k: int| #[trigger]
            self.compared(values, k) ==> values[k] == component_value(self.components@[k], date)
    }

    /// Whether the values lie after `date`: at the first compared place where
    /// they differ from the date's, they are greater.
    pub open spec fn ahead_on(&self, values: Seq<u64>, date: CalendarDate) -> bool {
        exists|k: int| #[trigger]
            self.compared(values, k) && values[k] > component_value(self.components@[k], date)
                && self.agree_before(values, date, k)
    }

    /// Whether the values agree with `date` at every compared place before `k`.
    pub open spec fn agree_before(&self, values: Seq<u64>, date: CalendarDate, k: int) -> bool {
        forall|j: int|
            0 <= j < k && #[trigger] self.compared(values, j) ==> values[j] == component_value(
                self.components@[j],
                date,
            )
    }

    /// Whether the format has a counter, so that one period can hold several
    /// releases.
    pub fn has_micro(&self) -> (r: bool)
        ensures
            r == self.micro_index is Some,
    {
        self.micro_index.is_some()
    }

    /// The number of tokens of the format.
    pub fn format_len(&self) -> (n: usize)
        ensures
            n == self.components@.len(),
    {
        self.components.len()
    }

    /// The values of `date`, one for each token, with 0 at the counter's place.
    pub fn values_for(&self, date: &CalendarDate) -> (values: Vec<u64>)
        ensures
            values@ == self.values_on(*date),
    {
        let mut values: Vec<u64> = Vec::new();
        let mut i: usize = 0;
        while i < self.components.len()
            invariant
                i <= self.components.len(),
                values@ == self.values_on(*date).take(i as int),
            decreases self.components.len() - i,
        {
            let v: u64 = match self.components[i] {
                Component::Yyyy => date.year as u64,
                Component::Yy => (date.year % 100) as u64,
                Component::Mm => date.month as u64,
                Component::Dd => date.day as u64,
                Component::Micro => 0,
            };
            values.push(v);
            assert(values@ == self.values_on(*date).take(i + 1));
            i += 1;
        }
        assert(self.values_on(*date).take(i as int) == self.values_on(*date));
        values
    }

    /// The values of today's date on the local clock.
    pub fn today_values(&self) -> (values: Vec<u64>)
        ensures
            exists|date: CalendarDate| date.valid() && values@ == #[trigger] self.values_on(date),
    {
        let date = local_today();
        self.values_for(&date)
    }

    /// The version of `date`: its values in decimal, the counter's place
    /// holding `micro`, joined by dots and padded with `0` segments to three.
    pub fn build_version_for(&self, date: &CalendarDate, micro: u64) -> (version: String)
        requires
            self.counter_in_range(),
        ensures
            version@ == self.version_text(*date, micro),
            split(version@, '.') == self.version_segments(*date, micro),
            split(version@, '.').len() >= 3,
    {
        proof {
            lemma_version_segments(*self, *date, micro);
        }
        let mut values = self.values_for(date);
        if let Some(idx) = self.micro_index {
            values.set(idx, micro);
        }
        assert(values@ == self.version_values(*date, micro));
        let mut parts: Vec<String> = Vec::new();
        let mut i: usize = 0;
        while i < values.len()
            invariant
                i <= values.len(),
                string_views(parts@) == decimals(values@).take(i as int),
            decreases values.len() - i,
        {
            let text = render_decimal(values[i]);
            let ghost before = string_views(parts@);
            let ghost digits = text@;
            parts.push(text);
            assert(string_views(parts@) == before.push(digits));
            assert(decimals(values@).take(i + 1) == decimals(values@).take(i as int).push(digits));
            i += 1;
        }
        assert(decimals(values@).take(i as int) == decimals(values@));
        let ghost written = string_views(parts@);
        proof {
            reveal_strlit("0");
        }
        while parts.len() < 3
            invariant
                "0"@ == seq!['0'],
                written.len() <= parts.len(),
                written.len() >= 3 ==> parts.len() == written.len(),
                written.len() < 3 ==> parts.len() <= 3,
                string_views(parts@) == written + Seq::new(
                    (parts.len() - written.len()) as nat,
                    |i: int| seq!['0'],
                ),
            decreases 3 - parts.len(),
        {
            let ghost before = string_views(parts@);
            parts.push("0".to_owned());
            assert(string_views(parts@) == before.push(seq!['0']));
            assert(string_views(parts@) == written + Seq::new(
                (parts.len() - written.len()) as nat,
                |i: int| seq!['0'],
            ));
        }
        assert(string_views(parts@) == padded(written)) by {
            if written.len() >= 3 {
                assert(written + Seq::new(0, |i: int| seq!['0']) == written);
            }
        }
        join_dotted(&parts)
    }

    /// Today's version on the local clock, with the counter `micro`.
    pub fn build_version(&self, micro: u64) -> (version: String)
        requires
            self.counter_in_range(),
        ensures
            exists|date: CalendarDate|
                date.valid() && version@ == #[trigger] self.version_text(date, micro),
            split(version@, '.').len() >= 3,
    {
        let date = local_today();
        self.build_version_for(&date, micro)
    }
}

impl VersionFormat {
    /// Reads the values of a version string under this format. A string that
    /// does not fit gives `None`: too few segments, a segment that is no
    /// number, a month or day out of range, or a further segment other than `0`.
    pub fn extract_values(&self, version: &str) -> (r: Option<Vec<u64>>)
        ensures
            match r {
                Some(values) => self.extract_spec(version@) == Some(values@),
                None => self.extract_spec(version@) is None,
            },
    {
        let parts = split_on(version, '.');
        let ghost segs = split(version@, '.');
        let expected = self.format_len();
        if parts.len() < expected {
            return None;
        }
        proof {
            reveal_strlit("0");
        }
        let mut j: usize = expected;
        while j < parts.len()
            invariant
                expected <= j <= parts.len(),
                expected == self.components@.len(),
                views(parts@) == segs,
                segs == split(version@, '.'),
                "0"@ == seq!['0'],
                forall|k: int| expected <= k < j ==> #[trigger] segs[k] == seq!['0'],
            decreases parts.len() - j,
        {
            if !same_text(parts[j], "0") {
                assert(segs[j as int] != seq!['0']);
                return None;
            }
            j += 1;
        }
        let mut values: Vec<u64> = Vec::new();
        let mut i: usize = 0;
        while i < expected
            invariant
                i <= expected,
                expected == self.components@.len(),
                expected <= parts.len(),
                views(parts@) == segs,
                segs == split(version@, '.'),
                values@.len() == i,
                forall|k: int| 0 <= k < i ==> #[trigger] self.segment_ok(segs, k),
                forall|k: int| 0 <= k < i ==> values@[k] == parse_u64(#[trigger] segs[k]).unwrap(),
                forall|k: int| expected <= k < segs.len() ==> #[trigger] segs[k] == seq!['0'],
            decreases expected - i,
        {
            assert(segs[i as int] == parts@[i as int]@);
            let val = match parse_decimal(parts[i]) {
                Some(v) => v,
                None => {
                    assert(!self.segment_ok(segs, i as int));
                    return None;
                },
            };
            values.push(val);
            let is_counter = match self.micro_index {
                Some(m) => m == i,
                None => false,
            };
            assert(is_counter == self.counter_at(i as int));
            if !is_counter {
                match self.components[i] {
                    Component::Mm => {
                        if val < 1 || val > 12 {
                            assert(!self.segment_ok(segs, i as int));
                            return None;
                        }
                    },
                    Component::Dd => {
                        if val < 1 || val > 31 {
                            assert(!self.segment_ok(segs, i as int));
                            return None;
                        }
                    },
                    _ => {},
                }
            }
            assert(self.segment_ok(segs, i as int));
            i += 1;
        }
        assert(values@ == Seq::new(expected as nat, |k: int| parse_u64(segs[k]).unwrap()));
        Some(values)
    }

    /// Whether the values agree with `date` at every place but the counter's.
    /// Places that the values or the format lack are not compared.
    pub fn matches_date(&self, version_values: &[u64], date: &CalendarDate) -> (r: bool)
        ensures
            r == self.matches_on(version_values@, *date),
    {
        let today = self.values_for(date);
        let mut i: usize = 0;
        while i < version_values.len() && i < today.len()
            invariant
                today@ == self.values_on(*date),
                forall|k: int|
                    0 <= k < i && #[trigger] self.compared(version_values@, k) ==> version_values@[k]
                        == component_value(self.components@[k], *date),
            decreases today.len() - i,
        {
            let is_counter = match self.micro_index {
                Some(m) => m == i,
                None => false,
            };
            if !is_counter && version_values[i] != today[i] {
                assert(self.compared(version_values@, i as int));
                return false;
            }
            i += 1;
        }
        true
    }

    /// Whether the values agree with today's date on the local clock at every
    /// place but the counter's.
    pub fn matches_today(&self, version_values: &[u64]) -> (r: bool)
        ensures
            exists|date: CalendarDate|
                date.valid() && r == #[trigger] self.matches_on(version_values@, date),
    {
        let date = local_today();
        self.matches_date(version_values, &date)
    }

    /// Whether the values lie after `date`, the leftmost place counting most
    /// and the counter's place not at all.
    pub fn ahead_of_date(&self, version_values: &[u64], date: &CalendarDate) -> (r: bool)
        ensures
            r == self.ahead_on(version_values@, *date),
    {
        let today = self.values_for(date);
        let mut i: usize = 0;
        while i < version_values.len() && i < today.len()
            invariant
                today@ == self.values_on(*date),
                self.agree_before(version_values@, *date, i as int),
            decreases today.len() - i,
        {
            let is_counter = match self.micro_index {
                Some(m) => m == i,
                None => false,
            };
            if !is_counter {
                if version_values[i] > today[i] {
                    assert(self.compared(version_values@, i as int));
                    return true;
                }
                if version_values[i] < today[i] {
                    assert(self.compared(version_values@, i as int));
                    assert forall|k: int| #[trigger]
                        self.compared(version_values@, k) && version_values@[k] > component_value(
                            self.components@[k],
                            *date,
                        ) implies !self.agree_before(version_values@, *date, k) by {
                        if k <= i {
                        }
                    }
                    return false;
                }
            }
            i += 1;
        }
        assert forall|k: int| #[trigger]
            self.compared(version_values@, k) && version_values@[k] > component_value(
                self.components@[k],
                *date,
            ) implies !self.agree_before(version_values@, *date, k) by {
        }
        false
    }

    /// Whether the values lie after today's date on the local clock.
    pub fn ahead_of_today(&self, version_values: &[u64]) -> (r: bool)
        ensures
            exists|date: CalendarDate|
                date.valid() && r == #[trigger] self.ahead_on(version_values@, date),
    {
        let date = local_today();
        self.ahead_of_date(version_values, &date)
    }

    /// The counter among the values, if the format has one.
    pub fn micro_value(&self, version_values: &[u64]) -> (r: Option<u64>)
        requires
            self.micro_index matches Some(m) ==> m < version_values@.len(),
        ensures
            r == match self.micro_index {
                Some(m) => Some(version_values@[m as int]),
                None => None,
            },
    {
        match self.micro_index {
            Some(idx) => Some(version_values[idx]),
            None => None,
        }
    }
}

/// No segment of a built version holds a dot.
proof fn lemma_segments_clean(values: Seq<u64>)
    ensures
        forall|i: int|
            0 <= i < padded(decimals(values)).len() ==> !(#[trigger] padded(decimals(values))[i]).contains(
                '.',
            ),
{
    let segs = padded(decimals(values));
    assert forall|i: int| 0 <= i < segs.len() implies !(#[trigger] segs[i]).contains('.') by {
        if i < values.len() {
            lemma_decimal_digits(values[i] as nat);
            lemma_digits_exclude(decimal(values[i] as nat), '.');
        } else {
            let zero = seq!['0'];
            assert(segs[i] == zero);
            if zero.contains('.') {
                let k = choose|k: int| 0 <= k < zero.len() && zero[k] == '.';
                assert(zero[k] == '0');
            }
        }
    }
}

/// A built version has the segments it was built from: cut at its dots it
/// gives the decimal of each value, then only `0` segments, at least three
/// segments in all, and no more than the tokens where those are three or more.
pub proof fn lemma_version_segments(format: VersionFormat, date: CalendarDate, micro: u64)
    ensures
        split(format.version_text(date, micro), '.') == format.version_segments(date, micro),
        format.version_segments(date, micro).len() >= 3,
        format.version_values(date, micro).len() >= 3 ==> format.version_segments(date, micro).len()
            == format.version_values(date, micro).len(),
        forall|i: int|
            0 <= i < format.version_values(date, micro).len() ==> #[trigger] format.version_segments(
                date,
                micro,
            )[i] == decimal(format.version_values(date, micro)[i] as nat),
        forall|i: int|
            format.version_values(date, micro).len() <= i < format.version_segments(date, micro).len()
                ==> #[trigger] format.version_segments(date, micro)[i] == seq!['0'],
{
    let values = format.version_values(date, micro);
    lemma_segments_clean(values);
    lemma_split_join(format.version_segments(date, micro), '.');
}

/// Reading a built version gives back the values it was built from, for every
/// counter and every date whose month and day are in range.
pub proof fn lemma_extract_build(format: VersionFormat, date: CalendarDate, micro: u64)
    requires
        date.valid(),
        format.counter_in_range(),
    ensures
        format.extract_spec(format.version_text(date, micro)) == Some(
            format.version_values(date, micro),
        ),
{
    let values = format.version_values(date, micro);
    let segs = format.version_segments(date, micro);
    let n = format.components@.len();
    lemma_version_segments(format, date, micro);
    assert(values.len() == n);
    assert forall|i: int| 0 <= i < n implies parse_u64(#[trigger] segs[i]) == Some(values[i]) by {
        lemma_parse_decimal(values[i]);
    }
    assert forall|i: int| 0 <= i < n implies #[trigger] format.segment_ok(segs, i) by {
        assert(parse_u64(segs[i]) == Some(values[i]));
        if !format.counter_at(i) {
            assert(values[i] == component_value(format.components@[i], date));
        }
    }
    assert(Seq::new(n, |i: int| parse_u64(segs[i]).unwrap()) == values);
}

/// The leftmost compared place at which the values differ from the date
/// decides whether they lie after it, whatever stands to its right.
pub proof fn lemma_ahead_decided(
    format: VersionFormat,
    values: Seq<u64>,
    date: CalendarDate,
    k: int,
)
    requires
        format.compared(values, k),
        format.agree_before(values, date, k),
        values[k] != component_value(format.components@[k], date),
    ensures
        format.ahead_on(values, date) == (values[k] > component_value(format.components@[k], date)),
{
    if format.ahead_on(values, date) {
        let w = choose|w: int| #[trigger]
            format.compared(values, w) && values[w] > component_value(format.components@[w], date)
                && format.agree_before(values, date, w);
        if w < k {
        } else if w > k {
        }
    }
}

/// Values that agree with the date at every compared place do not lie after it.
pub proof fn lemma_matching_not_ahead(format: VersionFormat, values: Seq<u64>, date: CalendarDate)
    requires
        format.matches_on(values, date),
    ensures
        !format.ahead_on(values, date),
{
}

} // verus!
