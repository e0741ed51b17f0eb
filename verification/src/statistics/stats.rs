//! All statistics of a run: one [`TimeSeries`] per label.

use super::data_point::DataPoint;
use super::timeseries::{TimeSeries, TimeSeriesView};
use vstd::prelude::*;

verus! {

/// The index of the first series labelled `label`, or the number of series
/// where none carries that label.
pub open spec fn first_labelled(all: Seq<TimeSeriesView>, label: Seq<char>) -> int
    decreases all.len(),
{
    if all.len() == 0 {
        0
    } else if all[0].statistic_label == label {
        0
    } else {
        1 + first_labelled(all.drop_first(), label)
    }
}

/// `first_labelled` is within bounds, names a series with the label when it is
/// below the length, and passes over no series with the label.
pub proof fn lemma_first_labelled(all: Seq<TimeSeriesView>, label: Seq<char>)
    ensures
        0 <= first_labelled(all, label) <= all.len(),
        first_labelled(all, label) < all.len() ==> all[first_labelled(all, label)].statistic_label
            == label,
        forall|i: int|
            0 <= i < first_labelled(all, label) ==> (#[trigger] all[i]).statistic_label != label,
    decreases all.len(),
{
    if all.len() != 0 && all[0].statistic_label != label {
        let rest = all.drop_first();
        lemma_first_labelled(rest, label);
        assert forall|i: int| 0 <= i < first_labelled(all, label) implies (#[trigger] all[i]).statistic_label
            != label by {
            if i > 0 {
                assert(all[i] == rest[i - 1]);
            }
        }
    }
}

/// An index whose series carries the label, with none before it that does, is
/// `first_labelled`.
pub proof fn lemma_first_labelled_is(all: Seq<TimeSeriesView>, label: Seq<char>, index: int)
    requires
        0 <= index <= all.len(),
        index < all.len() ==> all[index].statistic_label == label,
        forall|i: int| 0 <= i < index ==> (#[trigger] all[i]).statistic_label != label,
    ensures
        first_labelled(all, label) == index,
{
    lemma_first_labelled(all, label);
    let first = first_labelled(all, label);
    if first < index {
        assert(all[first].statistic_label != label);
    }
}

/// The recorder after `(timestamp, value, unit)` was recorded under `label`:
/// the first series with that label gains the point, or a new series holding
/// only that point is appended.
pub open spec fn recorded(
    all: Seq<TimeSeriesView>,
    label: Seq<char>,
    timestamp: usize,
    value: usize,
    unit: Seq<char>,
) -> Seq<TimeSeriesView> {
    let index = first_labelled(all, label);
    if index < all.len() {
        all.update(index, all[index].with_point(timestamp, value, unit))
    } else {
        all.push(TimeSeriesView::empty(label).with_point(timestamp, value, unit))
    }
}

/// A series labelled `label` is there and holds a point.
pub open spec fn has_points(all: Seq<TimeSeriesView>, label: Seq<char>) -> bool {
    &&& first_labelled(all, label) < all.len()
    &&& !all[first_labelled(all, label)].series.dom().is_empty()
}

/// Recording keeps the labels of the series that are there, in their places.
proof fn lemma_recorded_labels(
    all: Seq<TimeSeriesView>,
    label: Seq<char>,
    timestamp: usize,
    value: usize,
    unit: Seq<char>,
    other: Seq<char>,
)
    ensures
        first_labelled(all, other) < all.len() ==> first_labelled(
            recorded(all, label, timestamp, value, unit),
            other,
        ) == first_labelled(all, other),
        first_labelled(recorded(all, label, timestamp, value, unit), label) == first_labelled(
            all,
            label,
        ),
{
    let after = recorded(all, label, timestamp, value, unit);
    lemma_first_labelled(all, label);
    lemma_first_labelled(all, other);
    let position = first_labelled(all, other);
    if position < all.len() {
        assert forall|i: int| 0 <= i < position implies (#[trigger] after[i]).statistic_label
            != other by {
            assert(all[i].statistic_label != other);
        }
        lemma_first_labelled_is(after, other, position);
    }
    let place = first_labelled(all, label);
    assert forall|i: int| 0 <= i < place implies (#[trigger] after[i]).statistic_label != label by {
        assert(all[i].statistic_label != label);
    }
    lemma_first_labelled_is(after, label, place);
}

/// What was recorded under a label is there: the series of that label holds
/// the value at the timestamp.
pub proof fn lemma_recorded_has_points(
    all: Seq<TimeSeriesView>,
    label: Seq<char>,
    timestamp: usize,
    value: usize,
    unit: Seq<char>,
)
    ensures
        has_points(recorded(all, label, timestamp, value, unit), label),
        recorded(all, label, timestamp, value, unit)[first_labelled(
            recorded(all, label, timestamp, value, unit),
            label,
        )].series.contains_key(timestamp),
        recorded(all, label, timestamp, value, unit)[first_labelled(
            recorded(all, label, timestamp, value, unit),
            label,
        )].series[timestamp] == value,
{
    lemma_recorded_labels(all, label, timestamp, value, unit, label);
    lemma_first_labelled(all, label);
    let after = recorded(all, label, timestamp, value, unit);
    let place = first_labelled(all, label);
    assert(after[place].series.contains_key(timestamp));
    assert(after[place].series.dom().contains(timestamp));
}

/// Recording under one label leaves the series of every other label as it
/// is, and takes no point away from any series.
pub proof fn lemma_recorded_keeps_points(
    all: Seq<TimeSeriesView>,
    label: Seq<char>,
    timestamp: usize,
    value: usize,
    unit: Seq<char>,
    other: Seq<char>,
)
    requires
        has_points(all, other),
    ensures
        has_points(recorded(all, label, timestamp, value, unit), other),
        other != label ==> recorded(all, label, timestamp, value, unit)[first_labelled(
            recorded(all, label, timestamp, value, unit),
            other,
        )] == all[first_labelled(all, other)],
{
    lemma_recorded_labels(all, label, timestamp, value, unit, other);
    lemma_first_labelled(all, label);
    lemma_first_labelled(all, other);
    if other == label {
        lemma_recorded_has_points(all, label, timestamp, value, unit);
    }
}

/// A collection of time series keyed by label. A series comes into being
/// with the first point recorded under its label.
pub struct Stats {
    pub all_series: Vec<TimeSeries>,
}

impl View for Stats {
    type V = Seq<TimeSeriesView>;

    open spec fn view(&self) -> Seq<TimeSeriesView> {
        self.all_series@.map_values(|series: TimeSeries| series@)
    }
}

impl Stats {
    /// Create a recorder without any series.
    pub fn new() -> (created: Stats)
        ensures
            created@ == Seq::<TimeSeriesView>::empty(),
            created.all_series@.len() == 0,
    {
        let created = Stats { all_series: Vec::new() };
        assert(created@ =~= Seq::<TimeSeriesView>::empty());
        created
    }

    /// The position of the first series labelled `label`, or the number of
    /// series if none carries that label.
    pub fn find_series(&self, label: &String) -> (index: usize)
        ensures
            index == first_labelled(self@, label@),
            index <= self.all_series@.len(),
    {
        let mut index: usize = 0;
        while index < self.all_series.len()
            invariant
                index <= self.all_series@.len(),
                forall|i: int| 0 <= i < index ==> (#[trigger] self@[i]).statistic_label != label@,
            decreases self.all_series@.len() - index,
        {
            if self.all_series[index].statistic_label == *label {
                proof {
                    lemma_first_labelled_is(self@, label@, index as int);
                }
                return index;
            }
            index += 1;
        }
        proof {
            lemma_first_labelled_is(self@, label@, index as int);
        }
        index
    }

    /// Record a point under `label`. If a series with that label exists the
    /// point is added to it; otherwise a new series is created for it.
    pub fn add_statistic(&mut self, data_point: DataPoint, label: String)
        ensures
            final(self)@ == recorded(
                old(self)@,
                label@,
                data_point.spec_timestamp(),
                data_point.spec_value(),
                data_point.spec_unit(),
            ),
    {
        let index = self.find_series(&label);
        if index < self.all_series.len() {
            self.all_series[index].add_data_point(&data_point);
            assert(final(self)@ =~= recorded(
                old(self)@,
                label@,
                data_point.spec_timestamp(),
                data_point.spec_value(),
                data_point.spec_unit(),
            ));
        } else {
            let mut new_series = TimeSeries::new(label);
            new_series.add_data_point(&data_point);
            self.all_series.push(new_series);
            assert(final(self)@ =~= recorded(
                old(self)@,
                label@,
                data_point.spec_timestamp(),
                data_point.spec_value(),
                data_point.spec_unit(),
            ));
        }
    }

    /// The first series recorded under `label`, if there is one.
    pub fn get_series_by_name(&self, label: String) -> (found: Option<&TimeSeries>)
        ensures
            found is None <==> first_labelled(self@, label@) == self@.len(),
            found matches Some(series) ==> {
                &&& first_labelled(self@, label@) < self@.len()
                &&& *series == self.all_series@[first_labelled(self@, label@)]
            },
    {
        let index = self.find_series(&label);
        if index < self.all_series.len() {
            Some(&self.all_series[index])
        } else {
            None
        }
    }
}

impl Default for Stats {
    fn default() -> (created: Stats)
        ensures
            created@ == Seq::<TimeSeriesView>::empty(),
    {
        Stats::new()
    }
}

} // verus!
