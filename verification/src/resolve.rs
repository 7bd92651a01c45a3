//! The rules that pick the next version from what the registry has published
//! and a date.

use vstd::prelude::*;
use crate::calendar::{local_today, CalendarDate};
use crate::format::VersionFormat;
use crate::registry::{PackageInfo, PackageRecord};
use crate::text::string_views;

verus! {

/// How the next version was arrived at.
#[derive(Debug, Clone, Copy, PartialEq, Eq, Structural)]
pub enum Basis {
    /// The registry does not know the package: its first release.
    NotInRegistry,
    /// Releases of this period exist; `highest` is their greatest counter.
    NextCounter { highest: u64 },
    /// The format has a counter and no release of this period exists.
    FirstOfPeriod,
    /// The format has no counter and a release of this period exists already.
    AlreadyPublished,
    /// The format has no counter and no release of this period exists.
    NewPeriod,
}

/// The outcome of a resolution.
#[derive(Debug)]
pub struct Resolution {
    /// The next version.
    pub version: String,
    /// Whether the registry's latest release is dated after the date used: an
    /// advisory that does not change the version.
    pub latest_ahead: bool,
    /// How the version was arrived at.
    pub basis: Basis,
}

/// The mathematical value of a [`Resolution`].
pub struct ResolutionRecord {
    pub version: Seq<char>,
    pub latest_ahead: bool,
    pub basis: Basis,
}

impl View for Resolution {
    type V = ResolutionRecord;

    open spec fn view(&self) -> ResolutionRecord {
        ResolutionRecord {
            version: self.version@,
            latest_ahead: self.latest_ahead,
            basis: self.basis,
        }
    }
}

/// Why no next version exists.
#[derive(Debug, Clone, Copy, PartialEq, Eq, Structural)]
pub enum ResolveError {
    /// A release of this period already holds the greatest counter that
    /// 64 bits can hold.
    CounterExhausted,
}

impl VersionFormat {
    /// Whether a version string is a release of `date`: it fits the format and
    /// agrees with the date at every place but the counter's.
    pub open spec fn of_date(&self, version: Seq<char>, date: CalendarDate) -> bool {
        self.extract_spec(version) matches Some(values) && self.matches_on(values, date)
    }

    /// The counter that a fitting version string holds.
    pub open spec fn counter_of(&self, version: Seq<char>) -> u64
        recommends
            self.micro_index is Some,
            self.extract_spec(version) is Some,
    {
        self.extract_spec(version).unwrap()[self.micro_index.unwrap() as int]
    }

    /// Whether any of the versions is a release of `date`.
    pub open spec fn any_of_date(&self, versions: Seq<Seq<char>>, date: CalendarDate) -> bool {
        exists|i: int| 0 <= i < versions.len() && self.of_date(#[trigger] versions[i], date)
    }

    /// The greatest counter among the releases of `date`; `None` if there is
    /// no such release.
    pub open spec fn highest_counter(
        &self,
        versions: Seq<Seq<char>>,
        date: CalendarDate,
    ) -> Option<u64>
        decreases versions.len(),
    {
        if versions.len() == 0 {
            None
        } else {
            let before = self.highest_counter(versions.drop_last(), date);
            let version = versions.last();
            if self.of_date(version, date) {
                let c = self.counter_of(version);
                match before {
                    Some(m) => Some(
                        if c > m {
                            c
                        } else {
                            m
                        },
                    ),
                    None => Some(c),
                }
            } else {
                before
            }
        }
    }

    /// Whether the registry's latest release fits the format and is dated
    /// after `date`.
    pub open spec fn latest_ahead(&self, latest: Seq<char>, date: CalendarDate) -> bool {
        self.extract_spec(latest) matches Some(values) && self.ahead_on(values, date)
    }

    /// The resolution for a package on a date.
    ///
    /// A package that the registry does not know starts at counter 0. With a
    /// counter in the format, the next version carries one more than the
    /// greatest counter among the releases of the date, or 0 if there is none.
    /// Without one, the next version is the version of the date. Published
    /// versions that do not fit the format count for nothing.
    pub open spec fn resolve_spec(&self, info: PackageRecord, date: CalendarDate) -> Result<
        ResolutionRecord,
        ResolveError,
    > {
        match info {
            PackageRecord::NotFound => Ok(
                ResolutionRecord {
                    version: self.version_text(date, 0),
                    latest_ahead: false,
                    basis: Basis::NotInRegistry,
                },
            ),
            PackageRecord::Found { versions, latest } => {
                let ahead = self.latest_ahead(latest, date);
                if self.micro_index is Some {
                    match self.highest_counter(versions, date) {
                        Some(m) => if m == u64::MAX {
                            Err(ResolveError::CounterExhausted)
                        } else {
                            Ok(
                                ResolutionRecord {
                                    version: self.version_text(date, (m + 1) as u64),
                                    latest_ahead: ahead,
                                    basis: Basis::NextCounter { highest: m },
                                },
                            )
                        },
                        None => Ok(
                            ResolutionRecord {
                                version: self.version_text(date, 0),
                                latest_ahead: ahead,
                                basis: Basis::FirstOfPeriod,
                            },
                        ),
                    }
                } else {
                    Ok(
                        ResolutionRecord {
                            version: self.version_text(date, 0),
                            latest_ahead: ahead,
                            basis: if self.any_of_date(versions, date) {
                                Basis::AlreadyPublished
                            } else {
                                Basis::NewPeriod
                            },
                        },
                    )
                }
            },
        }
    }
}

/// The greatest counter among the releases of `date`.
fn highest_counter_of(format: &VersionFormat, versions: &Vec<String>, date: &CalendarDate) -> (r:
    Option<u64>)
    requires
        format.counter_in_range(),
        format.micro_index is Some,
    ensures
        r == format.highest_counter(string_views(versions@), *date),
{
    let ghost all = string_views(versions@);
    let mut highest: Option<u64> = None;
    let mut i: usize = 0;
    assert(all.take(0) == Seq::<Seq<char>>::empty());
    while i < versions.len()
        invariant
            i <= versions.len(),
            all == string_views(versions@),
            format.counter_in_range(),
            format.micro_index is Some,
            highest == format.highest_counter(all.take(i as int), *date),
        decreases versions.len() - i,
    {
        proof {
            let here = all.take(i + 1);
            assert(here.drop_last() == all.take(i as int));
            assert(here.last() == versions@[i as int]@);
        }
        match format.extract_values(versions[i].as_str()) {
            Some(values) => {
                if format.matches_date(values.as_slice(), date) {
                    match format.micro_value(values.as_slice()) {
                        Some(micro) => {
                            highest = Some(
                                match highest {
                                    Some(m) => if micro > m {
                                        micro
                                    } else {
                                        m
                                    },
                                    None => micro,
                                },
                            );
                        },
                        None => {},
                    }
                }
            },
            None => {},
        }
        i += 1;
    }
    assert(all.take(i as int) == all);
    highest
}

/// Whether any of the versions is a release of `date`.
fn published_on(format: &VersionFormat, versions: &Vec<String>, date: &CalendarDate) -> (r: bool)
    ensures
        r == format.any_of_date(string_views(versions@), *date),
{
    let ghost all = string_views(versions@);
    let mut i: usize = 0;
    while i < versions.len()
        invariant
            i <= versions.len(),
            all == string_views(versions@),
            forall|k: int| 0 <= k < i ==> !format.of_date(#[trigger] all[k], *date),
        decreases versions.len() - i,
    {
        assert(all[i as int] == versions@[i as int]@);
        match format.extract_values(versions[i].as_str()) {
            Some(values) => {
                if format.matches_date(values.as_slice(), date) {
                    return true;
                }
            },
            None => {},
        }
        i += 1;
    }
    false
}

/// The next version of a package on `date`, from what the registry has
/// published.
pub fn determine_version_for(info: &PackageInfo, format: &VersionFormat, date: &CalendarDate) -> (r:
    Result<Resolution, ResolveError>)
    requires
        format.counter_in_range(),
    ensures
        match r {
            Ok(resolution) => format.resolve_spec(info@, *date) == Ok::<
                ResolutionRecord,
                ResolveError,
            >(resolution@),
            Err(e) => format.resolve_spec(info@, *date) == Err::<ResolutionRecord, ResolveError>(e),
        },
{
    match info {
        PackageInfo::NotFound => Ok(
            Resolution {
                version: format.build_version_for(date, 0),
                latest_ahead: false,
                basis: Basis::NotInRegistry,
            },
        ),
        PackageInfo::Found { versions, latest } => {
            let latest_ahead = match format.extract_values(latest.as_str()) {
                Some(values) => format.ahead_of_date(values.as_slice(), date),
                None => false,
            };
            if format.has_micro() {
                match highest_counter_of(format, versions, date) {
                    Some(m) => {
                        if m == u64::MAX {
                            Err(ResolveError::CounterExhausted)
                        } else {
                            Ok(
                                Resolution {
                                    version: format.build_version_for(date, m + 1),
                                    latest_ahead,
                                    basis: Basis::NextCounter { highest: m },
                                },
                            )
                        }
                    },
                    None => Ok(
                        Resolution {
                            version: format.build_version_for(date, 0),
                            latest_ahead,
                            basis: Basis::FirstOfPeriod,
                        },
                    ),
                }
            } else {
                let basis = if published_on(format, versions, date) {
                    Basis::AlreadyPublished
                } else {
                    Basis::NewPeriod
                };
                Ok(Resolution { version: format.build_version_for(date, 0), latest_ahead, basis })
            }
        },
    }
}

/// The next version of a package on today's date on the local clock.
pub fn determine_version(info: &PackageInfo, format: &VersionFormat) -> (r: Result<
    Resolution,
    ResolveError,
>)
    requires
        format.counter_in_range(),
    ensures
        exists|date: CalendarDate|
            date.valid() && match r {
                Ok(resolution) => #[trigger] format.resolve_spec(info@, date) == Ok::<
                    ResolutionRecord,
                    ResolveError,
                >(resolution@),
                Err(e) => format.resolve_spec(info@, date) == Err::<ResolutionRecord, ResolveError>(
                    e,
                ),
            },
{
    let date = local_today();
    determine_version_for(info, format, &date)
}

/// The highest counter is the counter of a release of the date, and no
/// release of the date holds a greater one; there is none exactly when no
/// version is a release of the date.
pub proof fn lemma_highest_counter(
    format: VersionFormat,
    versions: Seq<Seq<char>>,
    date: CalendarDate,
)
    ensures
        format.highest_counter(versions, date) is None <==> !format.any_of_date(versions, date),
        format.highest_counter(versions, date) matches Some(m) ==> {
            &&& exists|i: int|
                0 <= i < versions.len() && format.of_date(#[trigger] versions[i], date)
                    && format.counter_of(versions[i]) == m
            &&& forall|i: int|
                0 <= i < versions.len() && format.of_date(#[trigger] versions[i], date)
                    ==> format.counter_of(versions[i]) <= m
        },
    decreases versions.len(),
{
    if versions.len() > 0 {
        let before = versions.drop_last();
        let last = versions.len() - 1;
        lemma_highest_counter(format, before, date);
        assert forall|i: int| 0 <= i < before.len() implies before[i] == versions[i] by {}
        if format.any_of_date(before, date) {
            let w = choose|i: int| 0 <= i < before.len() && format.of_date(#[trigger] before[i], date);
            assert(format.of_date(versions[w], date));
        }
        if format.any_of_date(versions, date) && !format.of_date(versions[last], date) {
            let w = choose|i: int|
                0 <= i < versions.len() && format.of_date(#[trigger] versions[i], date);
            assert(format.of_date(before[w], date));
        }
        match format.highest_counter(versions, date) {
            Some(m) => {
                if format.of_date(versions[last], date) && format.counter_of(versions[last]) == m {
                    assert(format.of_date(versions[last], date));
                } else {
                    let w = choose|i: int|
                        0 <= i < before.len() && format.of_date(#[trigger] before[i], date)
                            && format.counter_of(before[i]) == m;
                    assert(format.of_date(versions[w], date) && format.counter_of(versions[w]) == m);
                }
                assert forall|i: int|
                    0 <= i < versions.len() && format.of_date(
                        #[trigger] versions[i],
                        date,
                    ) implies format.counter_of(versions[i]) <= m by {
                    if i < last {
                        assert(format.of_date(before[i], date));
                    }
                }
            },
            None => {
                if format.of_date(versions[last], date) {
                    assert(false);
                }
            },
        }
    }
}

/// With a counter in the format, the next version on a date carries a counter
/// greater than that of every published release of the date, and its date is
/// the date asked for: read back, it is a release of that date.
pub proof fn lemma_next_exceeds_published(
    format: VersionFormat,
    versions: Seq<Seq<char>>,
    latest: Seq<char>,
    date: CalendarDate,
    i: int,
)
    requires
        format.wf(),
        date.valid(),
        format.micro_index is Some,
        0 <= i < versions.len(),
        format.of_date(versions[i], date),
        format.resolve_spec(PackageRecord::Found { versions, latest }, date) is Ok,
    ensures
        ({
            let next = format.resolve_spec(PackageRecord::Found { versions, latest }, date)->Ok_0.version;
            &&& format.of_date(next, date)
            &&& format.counter_of(next) > format.counter_of(versions[i])
        }),
{
    lemma_highest_counter(format, versions, date);
    let m = format.highest_counter(versions, date)->0;
    let counter = (m + 1) as u64;
    crate::values::lemma_extract_build(format, date, counter);
    let values = format.version_values(date, counter);
    assert forall|k: int| #[trigger] format.compared(values, k) implies values[k]
        == crate::values::component_value(format.components@[k], date) by {}
}

} // verus!
