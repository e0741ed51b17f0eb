//! An append-only series of [`DataPoint`]s for one statistic.

use super::data_point::DataPoint;
use std::collections::BTreeMap;
use vstd::std_specs::cmp::OrdSpec;
use vstd::std_specs::iter::IteratorSpec;
use crate::text::{decimal, decimal_text, pad, padded, repeated};
use vstd::prelude::*;

verus! {

/// The unit a series carries until its first point names one.
pub open spec fn unknown_unit() -> Seq<char> {
    "Unknown"@
}

/// What a [`TimeSeries`] holds, as mathematical values.
pub struct TimeSeriesView {
    pub statistic_label: Seq<char>,
    pub unit: Seq<char>,
    pub series: Map<usize, usize>,
}

impl TimeSeriesView {
    /// The empty series with the given label.
    pub open spec fn empty(statistic_label: Seq<char>) -> TimeSeriesView {
        TimeSeriesView { statistic_label, unit: unknown_unit(), series: Map::empty() }
    }

    /// The series after one more point was recorded. The first point fixes the
    /// unit; a point at a timestamp already present replaces the earlier value.
    pub open spec fn with_point(self, timestamp: usize, value: usize, unit: Seq<char>) -> TimeSeriesView {
        TimeSeriesView {
            statistic_label: self.statistic_label,
            unit: if self.unit == unknown_unit() {
                unit
            } else {
                self.unit
            },
            series: self.series.insert(timestamp, value),
        }
    }

    /// `timestamp` is the greatest timestamp of the series.
    pub open spec fn is_latest(self, timestamp: usize) -> bool {
        &&& self.series.contains_key(timestamp)
        &&& forall|other: usize| self.series.contains_key(other) ==> other <= timestamp
    }
}

/// `points` are the points of `series`, each once, in ascending order of
/// timestamp.
pub open spec fn is_points_of(points: Seq<(usize, usize)>, series: Map<usize, usize>) -> bool {
    &&& forall|i: int, j: int|
        0 <= i < j < points.len() ==> (#[trigger] points[i]).0 < (#[trigger] points[j]).0
    &&& forall|i: int|
        0 <= i < points.len() ==> series.contains_key((#[trigger] points[i]).0)
            && series[points[i].0] == points[i].1
    &&& forall|timestamp: usize|
        series.contains_key(timestamp) ==> exists|i: int|
            0 <= i < points.len() && (#[trigger] points[i]).0 == timestamp
}

/// The head of the table of a series: the label between two rules as long as
/// the label, and a heading that names the unit.
pub open spec fn heading(series: TimeSeriesView) -> Seq<char> {
    Seq::<char>::empty() + repeated('=', series.statistic_label.len()) + "\n"@
        + series.statistic_label + "\n"@ + repeated('=', series.statistic_label.len()) + "\n"@
        + "Timestamp | "@ + series.unit + "\n"@
}

/// The rows of the first `upto` points: the timestamp, filled up to nine
/// places, and the value.
pub open spec fn rows(points: Seq<(usize, usize)>, upto: int) -> Seq<char>
    decreases upto,
{
    if upto <= 0 {
        Seq::empty()
    } else {
        rows(points, upto - 1) + padded(decimal_text(points[upto - 1].0 as nat), 9) + " | "@
            + decimal_text(points[upto - 1].1 as nat) + "\n"@
    }
}

/// The table of a series with the given points.
pub open spec fn table(series: TimeSeriesView, points: Seq<(usize, usize)>) -> Seq<char> {
    heading(series) + rows(points, points.len() as int)
}

/// A label for the series, the unit of measurement, and the recorded values
/// ordered by timestamp.
pub struct TimeSeries {
    pub statistic_label: String,
    pub unit: String,
    pub series: BTreeMap<usize, usize>,
}

impl View for TimeSeries {
    type V = TimeSeriesView;

    open spec fn view(&self) -> TimeSeriesView {
        TimeSeriesView {
            statistic_label: self.statistic_label@,
            unit: self.unit@,
            series: self.series@,
        }
    }
}

impl TimeSeries {
    /// The points of the series in ascending order of timestamp.
    pub fn points(&self) -> (all: Vec<(usize, usize)>)
        ensures
            is_points_of(all@, self@.series),
    {
        let mut all: Vec<(usize, usize)> = Vec::new();
        let ghost whole = self.series.iter().remaining();
        for entry in it: self.series.iter()
            invariant
                it.seq() == whole,
                all@.len() == it.index(),
                forall|i: int|
                    0 <= i < all@.len() ==> (#[trigger] all@[i]) == (*whole[i].0, *whole[i].1),
        {
            all.push((*entry.0, *entry.1));
        }
        proof {
            let keys = whole.map_values(|kv: (&usize, &usize)| *kv.0);
            vstd::std_specs::btree::axiom_increasing_seq_meaning(keys);
            assert(all@.len() == whole.len());

            assert forall|i: int, j: int| 0 <= i < j < all@.len() implies (#[trigger] all@[i]).0 < (
            #[trigger] all@[j]).0 by {
                assert(keys[i] == all@[i].0);
                assert(keys[j] == all@[j].0);
                assert(keys[i].cmp_spec(&keys[j]) is Less);
            }
            assert forall|timestamp: usize| self@.series.contains_key(timestamp) implies exists|
                i: int,
            |
                0 <= i < all@.len() && (#[trigger] all@[i]).0 == timestamp by {
                let pair = (&timestamp, &self.series@[timestamp]);
                assert(whole.contains(pair));
                let i = choose|i: int| 0 <= i < whole.len() && whole[i] == pair;
                assert(all@[i].0 == timestamp);
            }
        }
        all
    }

    /// Create an empty series. Its unit is "Unknown" until a point is added.
    pub fn new(statistic_label: String) -> (created: TimeSeries)
        ensures
            created@ == TimeSeriesView::empty(statistic_label@),
    {
        TimeSeries { statistic_label, unit: "Unknown".to_string(), series: BTreeMap::new() }
    }

    /// Add a point to the series. The first point added fixes the unit of the
    /// series.
    pub fn add_data_point(&mut self, data_point: &DataPoint)
        ensures
            final(self)@ == old(self)@.with_point(
                data_point.spec_timestamp(),
                data_point.spec_value(),
                data_point.spec_unit(),
            ),
    {
        let unknown = "Unknown".to_string();
        if self.unit == unknown {
            self.unit = data_point.get_unit().to_string();
        }
        self.series.insert(data_point.get_timestamp(), data_point.get_value());
    }

    /// The value at the greatest timestamp: for a run that records a value at
    /// every step this is the final result. The series has to hold a point.
    pub fn get_last_value(&self) -> (value: usize)
        requires
            !self@.series.dom().is_empty(),
        ensures
            exists|timestamp: usize|
                self@.is_latest(timestamp) && self@.series[timestamp] == value,
    {
        let all = self.points();
        proof {
            let held = choose|timestamp: usize| self@.series.dom().contains(timestamp);
            assert(self@.series.contains_key(held));
        }
        let last = all[all.len() - 1];
        proof {
            assert forall|other: usize| self@.series.contains_key(other) implies other
                <= last.0 by {
                let i = choose|i: int| 0 <= i < all@.len() && (#[trigger] all@[i]).0 == other;
                if i < all@.len() - 1 {
                    assert(all@[i].0 < all@[all@.len() - 1].0);
                }
            }
            assert(self@.is_latest(last.0));
        }
        last.1
    }

    /// The series as text: the label between two rules, a heading that names
    /// the unit, and a row for every point in ascending order of timestamp.
    pub fn to_text(&self) -> (text: String)
        ensures
            exists|points: Seq<(usize, usize)>|
                is_points_of(points, self@.series) && text@ == #[trigger] table(self@, points),
    {
        let mut rule = String::new();
        let mut drawn: usize = 0;
        let width = self.statistic_label.as_str().unicode_len();
        assert(rule@ =~= repeated('=', 0));
        while drawn < width
            invariant
                drawn <= width,
                rule@ == repeated('=', drawn as nat),
            decreases width - drawn,
        {
            let ghost before = rule@;
            rule = rule.concat("=");
            proof {
                reveal_strlit("=");
                assert(rule@ =~= repeated('=', drawn as nat + 1));
            }
            drawn += 1;
        }
        let mut output = String::new();
        output = output.concat(rule.as_str()).concat("\n").concat(self.statistic_label.as_str()).concat(
            "\n",
        ).concat(rule.as_str()).concat("\n").concat("Timestamp | ").concat(self.unit.as_str()).concat(
            "\n",
        );
        let all = self.points();
        let mut index: usize = 0;
        assert(output@ =~= heading(self@) + rows(all@, 0));
        while index < all.len()
            invariant
                index <= all@.len(),
                output@ == heading(self@) + rows(all@, index as int),
            decreases all@.len() - index,
        {
            let point = all[index];
            let stamp = pad(decimal(point.0), 9);
            output = output.concat(stamp.as_str()).concat(" | ").concat(
                decimal(point.1).as_str(),
            ).concat("\n");
            assert(output@ =~= heading(self@) + rows(all@, index as int + 1));
            index += 1;
        }
        assert(output@ == table(self@, all@));
        output
    }
}

} // verus!
