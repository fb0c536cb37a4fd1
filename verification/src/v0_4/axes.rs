//! Coordinate axes of an image and the validator for a legal axes sequence.
//!
//! A legal sequence is `[optional time] [optional channel-or-custom]` followed
//! by two or three space axes, with all axis names unique. The validator scans
//! the sequence once and reports the first violated rule.

use vstd::prelude::*;

use crate::util::str_eq;

verus! {

/// A unit for a space axis: a fixed set of recognized symbols plus a
/// fallback carrying an unrecognized unit string verbatim.
#[derive(Debug, Clone, PartialEq, Eq, Hash)]
pub enum SpaceUnit {
    Angstrom,
    Attometer,
    Centimeter,
    Decimeter,
    Exameter,
    Femtometer,
    Foot,
    Gigameter,
    Hectometer,
    Inch,
    Kilometer,
    Megameter,
    Meter,
    Micrometer,
    Mile,
    Millimeter,
    Nanometer,
    Parsec,
    Petameter,
    Picometer,
    Terameter,
    Yard,
    Yoctometer,
    Yottameter,
    Zeptometer,
    Zettameter,
    Other(String),
}

/// A unit for a time axis: a fixed set of recognized symbols plus a
/// fallback carrying an unrecognized unit string verbatim.
#[derive(Debug, Clone, PartialEq, Eq, Hash)]
pub enum TimeUnit {
    Attosecond,
    Centisecond,
    Day,
    Decisecond,
    Exasecond,
    Femtosecond,
    Gigasecond,
    Hectosecond,
    Hour,
    Kilosecond,
    Megasecond,
    Microsecond,
    Millisecond,
    Minute,
    Nanosecond,
    Parsec,
    Petasecond,
    Picosecond,
    Second,
    Terasecond,
    Yoctosecond,
    Yottasecond,
    Zeptosecond,
    Zettasecond,
    Other(String),
}

/// An axis of one of the three recognized kinds.
#[derive(Debug, Clone, PartialEq, Eq, Hash)]
pub enum CoreAxis {
    Space { name: String, unit: Option<SpaceUnit> },
    Time { name: String, unit: Option<TimeUnit> },
    Channel { name: String, unit: Option<String> },
}

/// An axis: either a recognized kind or a custom one with a free-form type tag.
#[derive(Debug, Clone, PartialEq, Eq, Hash)]
pub enum Axis {
    Core(CoreAxis),
    Custom { name: String, axis_type: Option<String>, unit: Option<String> },
}

impl CoreAxis {
    /// The axis name, as the specification sees it.
    pub open spec fn spec_name(&self) -> Seq<char> {
        match self {
            CoreAxis::Space { name, .. } => name@,
            CoreAxis::Time { name, .. } => name@,
            CoreAxis::Channel { name, .. } => name@,
        }
    }
}

impl Axis {
    /// The axis name, as the specification sees it.
    pub open spec fn spec_name(&self) -> Seq<char> {
        match self {
            Axis::Core(k) => k.spec_name(),
            Axis::Custom { name, .. } => name@,
        }
    }

    /// The name identifying this axis within an axes list.
    pub fn name(&self) -> (r: &str)
        ensures
            r@ == self.spec_name(),
    {
        match self {
            Axis::Core(k) => match k {
                CoreAxis::Space { name, .. } => name.as_str(),
                CoreAxis::Time { name, .. } => name.as_str(),
                CoreAxis::Channel { name, .. } => name.as_str(),
            },
            Axis::Custom { name, .. } => name.as_str(),
        }
    }
}

impl From<CoreAxis> for Axis {
    fn from(c: CoreAxis) -> (r: Axis) {
        Axis::Core(c)
    }
}

impl vstd::std_specs::convert::FromSpecImpl<CoreAxis> for Axis {
    open spec fn obeys_from_spec() -> bool {
        true
    }

    open spec fn from_spec(c: CoreAxis) -> Axis {
        Axis::Core(c)
    }
}

/// Whether the axis is a space axis.
pub open spec fn is_space(a: Axis) -> bool {
    a matches Axis::Core(CoreAxis::Space { .. })
}

/// Whether the axis is a time axis.
pub open spec fn is_time(a: Axis) -> bool {
    a matches Axis::Core(CoreAxis::Time { .. })
}

/// Whether the axis belongs to the "other" class: channel or custom.
pub open spec fn is_other(a: Axis) -> bool {
    a matches Axis::Core(CoreAxis::Channel { .. }) || a matches Axis::Custom { .. }
}

/// The position an axis class must take in a legal ordering:
/// time before channel-or-custom before space.
pub open spec fn class_rank(a: Axis) -> int {
    if is_time(a) {
        0
    } else if is_other(a) {
        1
    } else {
        2
    }
}

/// How many of the first `n` axes have class rank `r`.
pub open spec fn count_rank(s: Seq<Axis>, r: int, n: int) -> int
    decreases n,
{
    if n <= 0 {
        0
    } else {
        count_rank(s, r, n - 1) + if class_rank(s[n - 1]) == r {
            1int
        } else {
            0int
        }
    }
}

/// Whether the first `i` axes are ordered by class rank.
pub open spec fn prefix_ordered(s: Seq<Axis>, i: int) -> bool {
    forall|a: int, b: int| 0 <= a < b < i ==> class_rank(s[a]) <= class_rank(s[b])
}

/// Whether the whole sequence obeys the class ordering
/// `[time] [channel-or-custom] space...`.
pub open spec fn axes_ordered(s: Seq<Axis>) -> bool {
    prefix_ordered(s, s.len() as int)
}

/// Whether the names of the first `i` axes are pairwise distinct.
pub open spec fn prefix_names_unique(s: Seq<Axis>, i: int) -> bool {
    forall|a: int, b: int| 0 <= a < b < i ==> s[a].spec_name() != s[b].spec_name()
}

/// Whether all axis names in the sequence are pairwise distinct.
pub open spec fn names_unique(s: Seq<Axis>) -> bool {
    prefix_names_unique(s, s.len() as int)
}

/// Whether axis `i` repeats the name of an earlier axis.
pub open spec fn name_dup_at(s: Seq<Axis>, i: int) -> bool {
    exists|j: int| 0 <= j < i && s[j].spec_name() == s[i].spec_name()
}

/// A violation of the axes rules; the validator reports the first one found.
#[derive(Debug, Clone, PartialEq, Eq, Structural)]
pub enum InvalidAxes {
    /// The sequence length is outside `[2, 5]`; carries the length.
    Count(usize),
    /// Fewer than 2 or more than 3 space axes.
    NSpace,
    /// More than one time axis.
    NTime,
    /// More than one channel-or-custom axis.
    NOther,
    /// An axis appears before a class that must precede it is closed.
    Order,
    /// An axis name repeats an earlier one.
    NonUniqueName,
}

/// One step of the single-pass scan, from axis `i` on, given how many space
/// axes and whether a time or channel-or-custom axis were seen before `i`.
pub open spec fn spec_scan_axes(
    s: Seq<Axis>,
    i: int,
    spaces: int,
    has_time: bool,
    has_other: bool,
) -> Result<(), InvalidAxes>
    decreases s.len() - i,
{
    if i >= s.len() {
        if spaces < 2 {
            Err(InvalidAxes::NSpace)
        } else {
            Ok(())
        }
    } else if name_dup_at(s, i) {
        Err(InvalidAxes::NonUniqueName)
    } else if is_space(s[i]) {
        if spaces >= 3 {
            Err(InvalidAxes::NSpace)
        } else {
            spec_scan_axes(s, i + 1, spaces + 1, has_time, has_other)
        }
    } else if is_time(s[i]) {
        if spaces > 0 || has_other {
            Err(InvalidAxes::Order)
        } else if has_time {
            Err(InvalidAxes::NTime)
        } else {
            spec_scan_axes(s, i + 1, spaces, true, has_other)
        }
    } else {
        if spaces > 0 {
            Err(InvalidAxes::Order)
        } else if has_other {
            Err(InvalidAxes::NOther)
        } else {
            spec_scan_axes(s, i + 1, spaces, has_time, true)
        }
    }
}

/// The result of validating an axes sequence: the first violation in scan
/// order, after the length check.
pub open spec fn spec_validate_axes(s: Seq<Axis>) -> Result<(), InvalidAxes> {
    if s.len() < 2 || s.len() > 5 {
        Err(InvalidAxes::Count(s.len() as usize))
    } else {
        spec_scan_axes(s, 0, 0, false, false)
    }
}

/// The declarative characterization of a legal axes sequence:
/// `[optional time] [optional channel-or-custom] space{2,3}` with unique names.
pub open spec fn axes_wellformed(s: Seq<Axis>) -> bool {
    &&& 2 <= s.len() <= 5
    &&& 2 <= count_rank(s, 2, s.len() as int) <= 3
    &&& count_rank(s, 0, s.len() as int) <= 1
    &&& count_rank(s, 1, s.len() as int) <= 1
    &&& axes_ordered(s)
    &&& names_unique(s)
}

impl InvalidAxes {
    /// Validate an axes sequence: success exactly on well-formed sequences,
    /// and otherwise the first violation in scan order.
    #[verifier::loop_isolation(false)]
    pub fn validate(axes: &[Axis]) -> (r: Result<(), InvalidAxes>)
        ensures
            r == spec_validate_axes(axes@),
            r is Ok <==> axes_wellformed(axes@),
    {
        proof {
            lemma_axes_ok_iff(axes@);
        }
        if axes.len() < 2 || axes.len() > 5 {
            return Err(InvalidAxes::Count(axes.len()));
        }
        let ghost s = axes@;
        let mut space_count: usize = 0;
        let mut has_time = false;
        let mut has_other = false;
        let mut idx: usize = 0;
        while idx < axes.len()
            invariant
                idx <= axes.len(),
                2 <= s.len() <= 5,
                s == axes@,
                space_count <= 3,
                spec_scan_axes(s, idx as int, space_count as int, has_time, has_other)
                    == spec_scan_axes(s, 0, 0, false, false),
            decreases axes.len() - idx,
        {
            let a = &axes[idx];
            let mut j: usize = 0;
            let mut dup = false;
            while j < idx && !dup
                invariant
                    j <= idx < axes.len(),
                    s == axes@,
                    dup ==> name_dup_at(s, idx as int),
                    !dup ==> forall|k: int|
                        0 <= k < j ==> s[k].spec_name() != s[idx as int].spec_name(),
                decreases idx - j,
            {
                let same = str_eq(axes[j].name(), a.name());
                proof {
                    assert(same == (s[j as int].spec_name() == s[idx as int].spec_name()));
                }
                if same {
                    dup = true;
                    proof {
                        assert(0 <= j < idx && s[j as int].spec_name() == s[
                            idx as int
                        ].spec_name());
                    }
                }
                j = j + 1;
            }
            if dup {
                return Err(InvalidAxes::NonUniqueName);
            }
            assert(!name_dup_at(s, idx as int));
            match a {
                Axis::Core(CoreAxis::Space { .. }) => {
                    assert(is_space(s[idx as int]));
                    if space_count >= 3 {
                        return Err(InvalidAxes::NSpace);
                    }
                    space_count = space_count + 1;
                },
                Axis::Core(CoreAxis::Time { .. }) => {
                    assert(is_time(s[idx as int]));
                    if space_count > 0 || has_other {
                        return Err(InvalidAxes::Order);
                    }
                    if has_time {
                        return Err(InvalidAxes::NTime);
                    }
                    has_time = true;
                },
                Axis::Core(CoreAxis::Channel { .. }) => {
                    assert(is_other(s[idx as int]) && !is_space(s[idx as int]) && !is_time(
                        s[idx as int],
                    ));
                    if space_count > 0 {
                        return Err(InvalidAxes::Order);
                    }
                    if has_other {
                        return Err(InvalidAxes::NOther);
                    }
                    has_other = true;
                },
                Axis::Custom { .. } => {
                    assert(is_other(s[idx as int]) && !is_space(s[idx as int]) && !is_time(
                        s[idx as int],
                    ));
                    if space_count > 0 {
                        return Err(InvalidAxes::Order);
                    }
                    if has_other {
                        return Err(InvalidAxes::NOther);
                    }
                    has_other = true;
                },
            }
            idx = idx + 1;
        }
        if space_count < 2 {
            return Err(InvalidAxes::NSpace);
        }
        Ok(())
    }
}

/// Counting over a longer prefix never counts less.
proof fn lemma_count_rank_le(s: Seq<Axis>, r: int, n: int, m: int)
    requires
        0 <= n <= m,
    ensures
        count_rank(s, r, n) <= count_rank(s, r, m),
    decreases m,
{
    if m > n {
        lemma_count_rank_le(s, r, n, m - 1);
    }
}

/// A zero count means no axis of that rank stands in the prefix.
proof fn lemma_count_rank_zero(s: Seq<Axis>, r: int, n: int)
    requires
        count_rank(s, r, n) == 0,
    ensures
        forall|a: int| 0 <= a < n ==> class_rank(s[a]) != r,
    decreases n,
{
    if n > 0 {
        lemma_count_rank_le(s, r, 0, n - 1);
        lemma_count_rank_zero(s, r, n - 1);
    }
}

/// From a clean prefix, the scan succeeds exactly on sequences whose counts,
/// ordering and names obey the rules.
proof fn lemma_scan_ok_iff(s: Seq<Axis>, i: int, spaces: int, has_time: bool, has_other: bool)
    requires
        0 <= i <= s.len(),
        spaces == count_rank(s, 2, i),
        has_time == (count_rank(s, 0, i) > 0),
        has_other == (count_rank(s, 1, i) > 0),
        spaces <= 3,
        count_rank(s, 0, i) <= 1,
        count_rank(s, 1, i) <= 1,
        prefix_ordered(s, i),
        prefix_names_unique(s, i),
    ensures
        (spec_scan_axes(s, i, spaces, has_time, has_other) is Ok) <==> {
            &&& 2 <= count_rank(s, 2, s.len() as int) <= 3
            &&& count_rank(s, 0, s.len() as int) <= 1
            &&& count_rank(s, 1, s.len() as int) <= 1
            &&& axes_ordered(s)
            &&& names_unique(s)
        },
    decreases s.len() - i,
{
    let len = s.len() as int;
    if i >= len {
        assert(count_rank(s, 2, len) == spaces);
    } else if name_dup_at(s, i) {
        let j = choose|j: int| 0 <= j < i && s[j].spec_name() == s[i].spec_name();
        assert(!names_unique(s));
    } else if is_space(s[i]) {
        assert(class_rank(s[i]) == 2);
        if spaces >= 3 {
            lemma_count_rank_le(s, 2, i + 1, len);
            assert(count_rank(s, 2, len) >= 4);
        } else {
            assert(forall|a: int| 0 <= a < i + 1 ==> class_rank(s[a]) <= class_rank(s[i]));
            lemma_scan_ok_iff(s, i + 1, spaces + 1, has_time, has_other);
        }
    } else if is_time(s[i]) {
        assert(class_rank(s[i]) == 0);
        if spaces > 0 || has_other {
            if spaces > 0 {
                assert(exists|a: int| 0 <= a < i && class_rank(s[a]) == 2) by {
                    if forall|a: int| 0 <= a < i ==> class_rank(s[a]) != 2 {
                        lemma_count_rank_zero_rev(s, 2, i);
                    }
                }
                let a = choose|a: int| 0 <= a < i && class_rank(s[a]) == 2;
                assert(!axes_ordered(s));
            } else {
                assert(exists|a: int| 0 <= a < i && class_rank(s[a]) == 1) by {
                    if forall|a: int| 0 <= a < i ==> class_rank(s[a]) != 1 {
                        lemma_count_rank_zero_rev(s, 1, i);
                    }
                }
                let a = choose|a: int| 0 <= a < i && class_rank(s[a]) == 1;
                assert(!axes_ordered(s));
            }
        } else if has_time {
            lemma_count_rank_le(s, 0, i + 1, len);
            assert(count_rank(s, 0, len) >= 2);
        } else {
            lemma_count_rank_le(s, 2, 0, i);
            lemma_count_rank_le(s, 1, 0, i);
            lemma_count_rank_le(s, 0, 0, i);
            assert(prefix_ordered(s, i + 1)) by {
                lemma_count_rank_zero(s, 2, i);
                lemma_count_rank_zero(s, 1, i);
                lemma_count_rank_zero(s, 0, i);
            }
            lemma_scan_ok_iff(s, i + 1, spaces, true, has_other);
        }
    } else {
        assert(is_other(s[i]));
        assert(class_rank(s[i]) == 1);
        if spaces > 0 {
            assert(exists|a: int| 0 <= a < i && class_rank(s[a]) == 2) by {
                if forall|a: int| 0 <= a < i ==> class_rank(s[a]) != 2 {
                    lemma_count_rank_zero_rev(s, 2, i);
                }
            }
            let a = choose|a: int| 0 <= a < i && class_rank(s[a]) == 2;
            assert(!axes_ordered(s));
        } else if has_other {
            lemma_count_rank_le(s, 1, i + 1, len);
            assert(count_rank(s, 1, len) >= 2);
        } else {
            lemma_count_rank_le(s, 2, 0, i);
            lemma_count_rank_le(s, 1, 0, i);
            assert(prefix_ordered(s, i + 1)) by {
                lemma_count_rank_zero(s, 2, i);
            }
            lemma_scan_ok_iff(s, i + 1, spaces, has_time, true);
        }
    }
}

/// If no axis of rank `r` stands in the prefix, the count is zero.
proof fn lemma_count_rank_zero_rev(s: Seq<Axis>, r: int, n: int)
    requires
        forall|a: int| 0 <= a < n ==> class_rank(s[a]) != r,
    ensures
        count_rank(s, r, n) == 0,
    decreases n,
{
    if n > 0 {
        lemma_count_rank_zero_rev(s, r, n - 1);
    }
}

/// An axes sequence validates successfully exactly when it is well-formed.
pub proof fn lemma_axes_ok_iff(s: Seq<Axis>)
    ensures
        (spec_validate_axes(s) is Ok) <==> axes_wellformed(s),
{
    if 2 <= s.len() <= 5 {
        lemma_scan_ok_iff(s, 0, 0, false, false);
    }
}

/// If no axis between `n` and `m` has rank `r`, the two counts agree.
proof fn lemma_count_rank_same(s: Seq<Axis>, r: int, n: int, m: int)
    requires
        0 <= n <= m,
        forall|a: int| n <= a < m ==> class_rank(s[a]) != r,
    ensures
        count_rank(s, r, m) == count_rank(s, r, n),
    decreases m,
{
    if m > n {
        lemma_count_rank_same(s, r, n, m - 1);
    }
}

/// The three prefix counts of a clean prefix, all at once.
proof fn lemma_prefix_counts(s: Seq<Axis>, i: int)
    requires
        0 <= i,
    ensures
        count_rank(s, 0, i) >= 0,
        count_rank(s, 1, i) >= 0,
        count_rank(s, 2, i) >= 0,
{
    lemma_count_rank_le(s, 0, 0, i);
    lemma_count_rank_le(s, 1, 0, i);
    lemma_count_rank_le(s, 2, 0, i);
}

/// A sequence whose only violated rule is its length yields the count error.
pub proof fn lemma_axes_err_count(s: Seq<Axis>)
    requires
        !(2 <= s.len() <= 5),
    ensures
        spec_validate_axes(s) == Err::<(), InvalidAxes>(InvalidAxes::Count(s.len() as usize)),
{
}

/// Scan of a sequence whose only violated rule is a second time axis.
proof fn lemma_scan_ntime(s: Seq<Axis>, i: int, spaces: int, has_time: bool, has_other: bool)
    requires
        0 <= i <= s.len(),
        spaces == count_rank(s, 2, i),
        has_time == (count_rank(s, 0, i) > 0),
        has_other == (count_rank(s, 1, i) > 0),
        count_rank(s, 0, i) <= 1,
        axes_ordered(s),
        names_unique(s),
        count_rank(s, 1, s.len() as int) <= 1,
        count_rank(s, 2, s.len() as int) <= 3,
        count_rank(s, 0, s.len() as int) >= 2,
    ensures
        spec_scan_axes(s, i, spaces, has_time, has_other) == Err::<(), InvalidAxes>(
            InvalidAxes::NTime,
        ),
    decreases s.len() - i,
{
    let len = s.len() as int;
    lemma_prefix_counts(s, i);
    if i >= len {
        assert(false);
    } else if name_dup_at(s, i) {
        let j = choose|j: int| 0 <= j < i && s[j].spec_name() == s[i].spec_name();
        assert(false);
    } else if is_space(s[i]) {
        assert(forall|a: int| i <= a < len ==> class_rank(s[a]) != 0);
        lemma_count_rank_same(s, 0, i, len);
        assert(false);
    } else if is_time(s[i]) {
        assert(forall|a: int| 0 <= a < i ==> class_rank(s[a]) == 0);
        lemma_count_rank_zero_rev(s, 2, i);
        lemma_count_rank_zero_rev(s, 1, i);
        if !has_time {
            lemma_scan_ntime(s, i + 1, spaces, true, has_other);
        }
    } else {
        assert(forall|a: int| i <= a < len ==> class_rank(s[a]) != 0);
        lemma_count_rank_same(s, 0, i, len);
        assert(false);
    }
}

/// A sequence whose only violated rule is a second time axis yields `NTime`.
pub proof fn lemma_axes_err_ntime(s: Seq<Axis>)
    requires
        2 <= s.len() <= 5,
        axes_ordered(s),
        names_unique(s),
        count_rank(s, 1, s.len() as int) <= 1,
        count_rank(s, 2, s.len() as int) <= 3,
        count_rank(s, 0, s.len() as int) >= 2,
    ensures
        spec_validate_axes(s) == Err::<(), InvalidAxes>(InvalidAxes::NTime),
{
    lemma_scan_ntime(s, 0, 0, false, false);
}

/// Scan of a sequence whose only violated rule is a second channel-or-custom axis.
proof fn lemma_scan_nother(s: Seq<Axis>, i: int, spaces: int, has_time: bool, has_other: bool)
    requires
        0 <= i <= s.len(),
        spaces == count_rank(s, 2, i),
        has_time == (count_rank(s, 0, i) > 0),
        has_other == (count_rank(s, 1, i) > 0),
        count_rank(s, 1, i) <= 1,
        axes_ordered(s),
        names_unique(s),
        count_rank(s, 0, s.len() as int) <= 1,
        count_rank(s, 2, s.len() as int) <= 3,
        count_rank(s, 1, s.len() as int) >= 2,
    ensures
        spec_scan_axes(s, i, spaces, has_time, has_other) == Err::<(), InvalidAxes>(
            InvalidAxes::NOther,
        ),
    decreases s.len() - i,
{
    let len = s.len() as int;
    lemma_prefix_counts(s, i);
    if i >= len {
        assert(false);
    } else if name_dup_at(s, i) {
        let j = choose|j: int| 0 <= j < i && s[j].spec_name() == s[i].spec_name();
        assert(false);
    } else if is_space(s[i]) {
        assert(forall|a: int| i <= a < len ==> class_rank(s[a]) != 1);
        lemma_count_rank_same(s, 1, i, len);
        assert(false);
    } else if is_time(s[i]) {
        assert(forall|a: int| 0 <= a < i ==> class_rank(s[a]) == 0);
        lemma_count_rank_zero_rev(s, 2, i);
        lemma_count_rank_zero_rev(s, 1, i);
        if has_time {
            lemma_count_rank_le(s, 0, i + 1, len);
            assert(false);
        } else {
            lemma_scan_nother(s, i + 1, spaces, true, has_other);
        }
    } else {
        assert(forall|a: int| 0 <= a < i ==> class_rank(s[a]) <= 1);
        lemma_count_rank_zero_rev(s, 2, i);
        if !has_other {
            lemma_scan_nother(s, i + 1, spaces, has_time, true);
        }
    }
}

/// A sequence whose only violated rule is a second channel-or-custom axis
/// yields `NOther`.
pub proof fn lemma_axes_err_nother(s: Seq<Axis>)
    requires
        2 <= s.len() <= 5,
        axes_ordered(s),
        names_unique(s),
        count_rank(s, 0, s.len() as int) <= 1,
        count_rank(s, 2, s.len() as int) <= 3,
        count_rank(s, 1, s.len() as int) >= 2,
    ensures
        spec_validate_axes(s) == Err::<(), InvalidAxes>(InvalidAxes::NOther),
{
    lemma_scan_nother(s, 0, 0, false, false);
}

/// Scan of a sequence whose only violated rule is its space-axis count.
proof fn lemma_scan_nspace(s: Seq<Axis>, i: int, spaces: int, has_time: bool, has_other: bool)
    requires
        0 <= i <= s.len(),
        spaces == count_rank(s, 2, i),
        has_time == (count_rank(s, 0, i) > 0),
        has_other == (count_rank(s, 1, i) > 0),
        count_rank(s, 2, i) <= 3,
        axes_ordered(s),
        names_unique(s),
        count_rank(s, 0, s.len() as int) <= 1,
        count_rank(s, 1, s.len() as int) <= 1,
        count_rank(s, 2, s.len() as int) < 2 || count_rank(s, 2, s.len() as int) > 3,
    ensures
        spec_scan_axes(s, i, spaces, has_time, has_other) == Err::<(), InvalidAxes>(
            InvalidAxes::NSpace,
        ),
    decreases s.len() - i,
{
    let len = s.len() as int;
    lemma_prefix_counts(s, i);
    lemma_count_rank_le(s, 2, i, len);
    if i >= len {
    } else if name_dup_at(s, i) {
        let j = choose|j: int| 0 <= j < i && s[j].spec_name() == s[i].spec_name();
        assert(false);
    } else if is_space(s[i]) {
        if spaces < 3 {
            lemma_scan_nspace(s, i + 1, spaces + 1, has_time, has_other);
        }
    } else if is_time(s[i]) {
        assert(forall|a: int| 0 <= a < i ==> class_rank(s[a]) == 0);
        lemma_count_rank_zero_rev(s, 2, i);
        lemma_count_rank_zero_rev(s, 1, i);
        if has_time {
            lemma_count_rank_le(s, 0, i + 1, len);
            assert(false);
        } else {
            lemma_scan_nspace(s, i + 1, spaces, true, has_other);
        }
    } else {
        assert(forall|a: int| 0 <= a < i ==> class_rank(s[a]) <= 1);
        lemma_count_rank_zero_rev(s, 2, i);
        if has_other {
            lemma_count_rank_le(s, 1, i + 1, len);
            assert(false);
        } else {
            lemma_scan_nspace(s, i + 1, spaces, has_time, true);
        }
    }
}

/// A sequence whose only violated rule is its space-axis count yields `NSpace`.
pub proof fn lemma_axes_err_nspace(s: Seq<Axis>)
    requires
        2 <= s.len() <= 5,
        axes_ordered(s),
        names_unique(s),
        count_rank(s, 0, s.len() as int) <= 1,
        count_rank(s, 1, s.len() as int) <= 1,
        count_rank(s, 2, s.len() as int) < 2 || count_rank(s, 2, s.len() as int) > 3,
    ensures
        spec_validate_axes(s) == Err::<(), InvalidAxes>(InvalidAxes::NSpace),
{
    lemma_scan_nspace(s, 0, 0, false, false);
}

/// Scan of a sequence whose only violated rule is the class ordering.
proof fn lemma_scan_order(s: Seq<Axis>, i: int, spaces: int, has_time: bool, has_other: bool)
    requires
        0 <= i <= s.len(),
        spaces == count_rank(s, 2, i),
        has_time == (count_rank(s, 0, i) > 0),
        has_other == (count_rank(s, 1, i) > 0),
        prefix_ordered(s, i),
        names_unique(s),
        count_rank(s, 0, s.len() as int) <= 1,
        count_rank(s, 1, s.len() as int) <= 1,
        count_rank(s, 2, s.len() as int) <= 3,
        !axes_ordered(s),
    ensures
        spec_scan_axes(s, i, spaces, has_time, has_other) == Err::<(), InvalidAxes>(
            InvalidAxes::Order,
        ),
    decreases s.len() - i,
{
    let len = s.len() as int;
    lemma_prefix_counts(s, i);
    if i >= len {
        assert(false);
    } else if name_dup_at(s, i) {
        let j = choose|j: int| 0 <= j < i && s[j].spec_name() == s[i].spec_name();
        assert(false);
    } else if is_space(s[i]) {
        assert(prefix_ordered(s, i + 1));
        lemma_count_rank_le(s, 2, i + 1, len);
        lemma_scan_order(s, i + 1, spaces + 1, has_time, has_other);
    } else if is_time(s[i]) {
        if spaces > 0 || has_other {
        } else {
            lemma_count_rank_zero(s, 2, i);
            lemma_count_rank_zero(s, 1, i);
            assert(prefix_ordered(s, i + 1));
            if has_time {
                lemma_count_rank_le(s, 0, i + 1, len);
                assert(false);
            } else {
                lemma_scan_order(s, i + 1, spaces, true, has_other);
            }
        }
    } else {
        if spaces > 0 {
        } else if has_other {
            lemma_count_rank_le(s, 1, i + 1, len);
            assert(false);
        } else {
            lemma_count_rank_zero(s, 2, i);
            assert(prefix_ordered(s, i + 1));
            lemma_scan_order(s, i + 1, spaces, has_time, true);
        }
    }
}

/// A sequence whose only violated rule is the class ordering yields `Order`.
pub proof fn lemma_axes_err_order(s: Seq<Axis>)
    requires
        2 <= s.len() <= 5,
        names_unique(s),
        count_rank(s, 0, s.len() as int) <= 1,
        count_rank(s, 1, s.len() as int) <= 1,
        count_rank(s, 2, s.len() as int) <= 3,
        !axes_ordered(s),
    ensures
        spec_validate_axes(s) == Err::<(), InvalidAxes>(InvalidAxes::Order),
{
    lemma_scan_order(s, 0, 0, false, false);
}

/// Scan of a sequence whose only violated rule is a repeated name.
proof fn lemma_scan_nonunique(s: Seq<Axis>, i: int, spaces: int, has_time: bool, has_other: bool)
    requires
        0 <= i <= s.len(),
        spaces == count_rank(s, 2, i),
        has_time == (count_rank(s, 0, i) > 0),
        has_other == (count_rank(s, 1, i) > 0),
        prefix_names_unique(s, i),
        axes_ordered(s),
        count_rank(s, 0, s.len() as int) <= 1,
        count_rank(s, 1, s.len() as int) <= 1,
        count_rank(s, 2, s.len() as int) <= 3,
        !names_unique(s),
    ensures
        spec_scan_axes(s, i, spaces, has_time, has_other) == Err::<(), InvalidAxes>(
            InvalidAxes::NonUniqueName,
        ),
    decreases s.len() - i,
{
    let len = s.len() as int;
    lemma_prefix_counts(s, i);
    if i >= len {
        assert(false);
    } else if name_dup_at(s, i) {
    } else if is_space(s[i]) {
        lemma_count_rank_le(s, 2, i + 1, len);
        lemma_scan_nonunique(s, i + 1, spaces + 1, has_time, has_other);
    } else if is_time(s[i]) {
        assert(forall|a: int| 0 <= a < i ==> class_rank(s[a]) == 0);
        lemma_count_rank_zero_rev(s, 2, i);
        lemma_count_rank_zero_rev(s, 1, i);
        if has_time {
            lemma_count_rank_le(s, 0, i + 1, len);
            assert(false);
        } else {
            lemma_scan_nonunique(s, i + 1, spaces, true, has_other);
        }
    } else {
        assert(forall|a: int| 0 <= a < i ==> class_rank(s[a]) <= 1);
        lemma_count_rank_zero_rev(s, 2, i);
        if has_other {
            lemma_count_rank_le(s, 1, i + 1, len);
            assert(false);
        } else {
            lemma_scan_nonunique(s, i + 1, spaces, has_time, true);
        }
    }
}

/// A sequence whose only violated rule is name uniqueness yields `NonUniqueName`.
pub proof fn lemma_axes_err_nonunique(s: Seq<Axis>)
    requires
        2 <= s.len() <= 5,
        axes_ordered(s),
        count_rank(s, 0, s.len() as int) <= 1,
        count_rank(s, 1, s.len() as int) <= 1,
        count_rank(s, 2, s.len() as int) <= 3,
        !names_unique(s),
    ensures
        spec_validate_axes(s) == Err::<(), InvalidAxes>(InvalidAxes::NonUniqueName),
{
    lemma_scan_nonunique(s, 0, 0, false, false);
}

} // verus!
