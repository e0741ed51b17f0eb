//! A single timestamped measurement.

use vstd::prelude::*;

verus! {

/// One measurement: when it was taken, what was measured, and in which unit.
/// Write once, read many: a point is never changed after `DataPoint::new`.
pub struct DataPoint {
    timestamp: usize,
    value: usize,
    unit: String,
}

impl DataPoint {
    pub closed spec fn spec_timestamp(&self) -> usize {
        self.timestamp
    }

    pub closed spec fn spec_value(&self) -> usize {
        self.value
    }

    pub closed spec fn spec_unit(&self) -> Seq<char> {
        self.unit@
    }

    /// Create a new data point.
    pub fn new(timestamp: usize, value: usize, unit: String) -> (point: DataPoint)
        ensures
            point.spec_timestamp() == timestamp,
            point.spec_value() == value,
            point.spec_unit() == unit@,
    {
        DataPoint { timestamp, value, unit }
    }

    /// The logical time at which the point was taken.
    pub fn get_timestamp(&self) -> (timestamp: usize)
        ensures
            timestamp == self.spec_timestamp(),
    {
        self.timestamp
    }

    /// The measured value.
    pub fn get_value(&self) -> (value: usize)
        ensures
            value == self.spec_value(),
    {
        self.value
    }

    /// The unit of the measured value.
    pub fn get_unit(&self) -> (unit: &str)
        ensures
            unit@ == self.spec_unit(),
    {
        self.unit.as_str()
    }
}

} // verus!
