//! Passengers grouped by the stop they want to reach.

use super::passenger::{
    all_waited, passenger_views, passengers_facts, passengers_of_facts, Passenger, PassengerView,
};
use crate::json::{GroupFacts, GroupRecord};
use vstd::prelude::*;

verus! {

/// What a [`PassengerGroup`] holds, as mathematical values.
pub struct PassengerGroupView {
    pub destination: Seq<char>,
    pub passengers: Seq<PassengerView>,
}

/// The passengers bound for one destination.
#[derive(Debug)]
pub struct PassengerGroup {
    pub destination: String,
    pub passengers: Vec<Passenger>,
}

impl View for PassengerGroup {
    type V = PassengerGroupView;

    open spec fn view(&self) -> PassengerGroupView {
        PassengerGroupView {
            destination: self.destination@,
            passengers: passenger_views(self.passengers@),
        }
    }
}

/// Some groups as the records that are written to JSON.
pub open spec fn groups_facts(groups: Seq<PassengerGroupView>) -> Seq<GroupFacts> {
    groups.map_values(
        |group: PassengerGroupView| (group.destination, passengers_facts(group.passengers)),
    )
}

/// The position of the first group bound for `destination`, or the number of
/// groups if there is none.
pub open spec fn group_position(groups: Seq<PassengerGroupView>, destination: Seq<char>) -> int
    decreases groups.len(),
{
    if groups.len() == 0 {
        0
    } else if groups[0].destination == destination {
        0
    } else {
        1 + group_position(groups.drop_first(), destination)
    }
}

/// The passengers bound for `destination`: none where no group is.
pub open spec fn bound_for(groups: Seq<PassengerGroupView>, destination: Seq<char>) -> Seq<
    PassengerView,
> {
    let position = group_position(groups, destination);
    if position < groups.len() {
        groups[position].passengers
    } else {
        Seq::empty()
    }
}

/// The number of passengers in all groups.
pub open spec fn head_count(groups: Seq<PassengerGroupView>) -> nat
    decreases groups.len(),
{
    if groups.len() == 0 {
        0
    } else {
        head_count(groups.drop_last()) + groups.last().passengers.len()
    }
}

/// The sum of the wait times of some passengers.
pub open spec fn wait_sum(passengers: Seq<PassengerView>) -> nat
    decreases passengers.len(),
{
    if passengers.len() == 0 {
        0
    } else {
        wait_sum(passengers.drop_last()) + passengers.last().wait_time as nat
    }
}

/// The sum of the wait times of the passengers in all groups.
pub open spec fn wait_total(groups: Seq<PassengerGroupView>) -> nat
    decreases groups.len(),
{
    if groups.len() == 0 {
        0
    } else {
        wait_total(groups.drop_last()) + wait_sum(groups.last().passengers)
    }
}

/// No two groups are bound for the same destination.
pub open spec fn distinct_destinations(groups: Seq<PassengerGroupView>) -> bool {
    forall|i: int, j: int|
        0 <= i < j < groups.len() ==> (#[trigger] groups[i]).destination != (
        #[trigger] groups[j]).destination
}

/// The groups after a group came in as a whole: it takes the place of the
/// group bound for the same destination, as an entry of a map does, or comes
/// last where no group is bound for it.
pub open spec fn with_whole_group(
    groups: Seq<PassengerGroupView>,
    group: PassengerGroupView,
) -> Seq<PassengerGroupView> {
    if group_position(groups, group.destination) < groups.len() {
        with_group(groups, group.destination, group.passengers)
    } else {
        groups.push(group)
    }
}

/// The groups that the first `upto` records read from JSON stand for.
pub open spec fn groups_read(facts: Seq<GroupFacts>, upto: int) -> Seq<PassengerGroupView>
    decreases upto,
{
    if upto <= 0 {
        Seq::empty()
    } else {
        with_whole_group(
            groups_read(facts, upto - 1),
            PassengerGroupView {
                destination: facts[upto - 1].0,
                passengers: passengers_of_facts(facts[upto - 1].1),
            },
        )
    }
}

/// The groups that some records read from JSON stand for. Of several records
/// for one destination the last counts.
pub open spec fn groups_of_facts(facts: Seq<GroupFacts>) -> Seq<PassengerGroupView> {
    groups_read(facts, facts.len() as int)
}

/// A group that comes in as a whole leaves no two groups bound for the same
/// destination.
pub proof fn lemma_with_whole_group(groups: Seq<PassengerGroupView>, group: PassengerGroupView)
    requires
        distinct_destinations(groups),
    ensures
        distinct_destinations(with_whole_group(groups, group)),
{
    lemma_group_position(groups, group.destination);
    let after = with_whole_group(groups, group);
    assert forall|i: int, j: int| 0 <= i < j < after.len() implies (#[trigger] after[i]).destination
        != (#[trigger] after[j]).destination by {
        if j < groups.len() {
            assert(groups[i].destination != groups[j].destination);
        } else {
            assert(groups[i].destination != group.destination);
        }
    }
}

/// What is read from records has no two groups bound for the same
/// destination.
pub proof fn lemma_groups_read_distinct(facts: Seq<GroupFacts>, upto: int)
    ensures
        distinct_destinations(groups_read(facts, upto)),
    decreases upto,
{
    if upto > 0 {
        lemma_groups_read_distinct(facts, upto - 1);
        lemma_with_whole_group(
            groups_read(facts, upto - 1),
            PassengerGroupView {
                destination: facts[upto - 1].0,
                passengers: passengers_of_facts(facts[upto - 1].1),
            },
        );
    }
}

/// The groups after `passenger` joined the group of their destination, which
/// comes into being with its first passenger.
pub open spec fn with_passenger(groups: Seq<PassengerGroupView>, passenger: PassengerView) -> Seq<
    PassengerGroupView,
> {
    let position = group_position(groups, passenger.destination);
    if position < groups.len() {
        groups.update(
            position,
            PassengerGroupView {
                destination: groups[position].destination,
                passengers: groups[position].passengers.push(passenger),
            },
        )
    } else {
        groups.push(
            PassengerGroupView {
                destination: passenger.destination,
                passengers: seq![passenger],
            },
        )
    }
}

/// The groups with the passengers bound for `destination` replaced by
/// `passengers`; unchanged where no group is bound for it.
pub open spec fn with_group(
    groups: Seq<PassengerGroupView>,
    destination: Seq<char>,
    passengers: Seq<PassengerView>,
) -> Seq<PassengerGroupView> {
    let position = group_position(groups, destination);
    if position < groups.len() {
        groups.update(
            position,
            PassengerGroupView { destination: groups[position].destination, passengers },
        )
    } else {
        groups
    }
}

/// The groups after `timestamp` was added to the wait time of everybody.
pub open spec fn groups_waited(groups: Seq<PassengerGroupView>, timestamp: usize) -> Seq<
    PassengerGroupView,
> {
    groups.map_values(
        |group: PassengerGroupView|
            PassengerGroupView {
                destination: group.destination,
                passengers: all_waited(group.passengers, timestamp),
            },
    )
}

/// Replacing the passengers of the group bound for a destination leaves the
/// groups where they are: the new passengers are then the ones bound for it,
/// and the groups bound for other destinations keep theirs.
pub proof fn lemma_with_group(
    groups: Seq<PassengerGroupView>,
    destination: Seq<char>,
    passengers: Seq<PassengerView>,
    other: Seq<char>,
)
    ensures
        group_position(with_group(groups, destination, passengers), other) == group_position(
            groups,
            other,
        ),
        with_group(groups, destination, passengers).len() == groups.len(),
        group_position(groups, destination) < groups.len() ==> bound_for(
            with_group(groups, destination, passengers),
            destination,
        ) == passengers,
        other != destination ==> bound_for(with_group(groups, destination, passengers), other)
            == bound_for(groups, other),
{
    lemma_with_group_position(groups, destination, passengers, other);
    lemma_with_group_position(groups, destination, passengers, destination);
    lemma_group_position(groups, destination);
    lemma_group_position(groups, other);
}

proof fn lemma_with_group_position(
    groups: Seq<PassengerGroupView>,
    destination: Seq<char>,
    passengers: Seq<PassengerView>,
    other: Seq<char>,
)
    ensures
        group_position(with_group(groups, destination, passengers), other) == group_position(
            groups,
            other,
        ),
{
    let changed = with_group(groups, destination, passengers);
    lemma_group_position(groups, destination);
    lemma_group_position(groups, other);
    let position = group_position(groups, other);
    assert forall|i: int| 0 <= i < position implies (#[trigger] changed[i]).destination
        != other by {
        assert(groups[i].destination != other);
    }
    lemma_group_position_is(changed, other, position);
}

/// `group_position` is within bounds, names a group for the destination where
/// it is below the length, and passes over no such group.
pub proof fn lemma_group_position(groups: Seq<PassengerGroupView>, destination: Seq<char>)
    ensures
        0 <= group_position(groups, destination) <= groups.len(),
        group_position(groups, destination) < groups.len() ==> groups[group_position(
            groups,
            destination,
        )].destination == destination,
        forall|i: int|
            0 <= i < group_position(groups, destination) ==> (#[trigger] groups[i]).destination
                != destination,
    decreases groups.len(),
{
    if groups.len() != 0 && groups[0].destination != destination {
        let rest = groups.drop_first();
        lemma_group_position(rest, destination);
        assert forall|i: int| 0 <= i < group_position(groups, destination) implies (
        #[trigger] groups[i]).destination != destination by {
            if i > 0 {
                assert(groups[i] == rest[i - 1]);
            }
        }
    }
}

/// A position whose group is bound for the destination, with none before it
/// that is, is `group_position`.
pub proof fn lemma_group_position_is(
    groups: Seq<PassengerGroupView>,
    destination: Seq<char>,
    position: int,
)
    requires
        0 <= position <= groups.len(),
        position < groups.len() ==> groups[position].destination == destination,
        forall|i: int| 0 <= i < position ==> (#[trigger] groups[i]).destination != destination,
    ensures
        group_position(groups, destination) == position,
{
    lemma_group_position(groups, destination);
    let first = group_position(groups, destination);
    if first < position {
        assert(groups[first].destination != destination);
    }
}

/// Replacing the passengers of one group changes the head count by the
/// difference in length.
pub proof fn lemma_head_count_update(
    groups: Seq<PassengerGroupView>,
    position: int,
    passengers: Seq<PassengerView>,
)
    requires
        0 <= position < groups.len(),
    ensures
        head_count(
            groups.update(
                position,
                PassengerGroupView { destination: groups[position].destination, passengers },
            ),
        ) + groups[position].passengers.len() == head_count(groups) + passengers.len(),
    decreases groups.len(),
{
    let changed = groups.update(
        position,
        PassengerGroupView { destination: groups[position].destination, passengers },
    );
    if position == groups.len() - 1 {
        assert(changed.drop_last() =~= groups.drop_last());
    } else {
        lemma_head_count_update(groups.drop_last(), position, passengers);
        assert(changed.drop_last() =~= groups.drop_last().update(
            position,
            PassengerGroupView { destination: groups[position].destination, passengers },
        ));
    }
}

/// One more passenger is one more head.
pub proof fn lemma_head_count_with_passenger(
    groups: Seq<PassengerGroupView>,
    passenger: PassengerView,
)
    ensures
        head_count(with_passenger(groups, passenger)) == head_count(groups) + 1,
{
    lemma_group_position(groups, passenger.destination);
    let position = group_position(groups, passenger.destination);
    if position < groups.len() {
        lemma_head_count_update(groups, position, groups[position].passengers.push(passenger));
    } else {
        lemma_head_count_push(
            groups,
            PassengerGroupView { destination: passenger.destination, passengers: seq![passenger] },
        );
    }
}

/// One more group adds its length to the head count.
pub proof fn lemma_head_count_push(groups: Seq<PassengerGroupView>, group: PassengerGroupView)
    ensures
        head_count(groups.push(group)) == head_count(groups) + group.passengers.len(),
{
    assert(groups.push(group).drop_last() =~= groups);
}

/// The sum of the wait times of some passengers, or the greatest number that
/// fits if it is more.
pub fn wait_time_of(passengers: &Vec<Passenger>) -> (total: usize)
    ensures
        total == crate::text::clip(wait_sum(passenger_views(passengers@))),
{
    let mut total: usize = 0;
    let mut index: usize = 0;
    let ghost views = passenger_views(passengers@);
    while index < passengers.len()
        invariant
            index <= passengers@.len(),
            views == passenger_views(passengers@),
            total == crate::text::clip(wait_sum(views.take(index as int))),
        decreases passengers@.len() - index,
    {
        assert(views.take(index as int + 1).drop_last() =~= views.take(index as int));
        total = total.saturating_add(passengers[index].wait_time as usize);
        index += 1;
    }
    assert(views.take(index as int) =~= views);
    total
}

/// Passengers grouped by destination. A group comes into being with the
/// first passenger bound for its destination. A map that is made by `new` or
/// `from_records` has no two groups bound for the same destination, and every
/// operation keeps it so.
#[derive(Debug)]
pub struct PassengerMap {
    pub groups: Vec<PassengerGroup>,
}

impl View for PassengerMap {
    type V = Seq<PassengerGroupView>;

    open spec fn view(&self) -> Seq<PassengerGroupView> {
        self.groups@.map_values(|group: PassengerGroup| group@)
    }
}

impl PassengerMap {
    /// No group, nobody.
    pub fn new() -> (created: PassengerMap)
        ensures
            created@ == Seq::<PassengerGroupView>::empty(),
    {
        let created = PassengerMap { groups: Vec::new() };
        assert(created@ =~= Seq::<PassengerGroupView>::empty());
        created
    }

    /// Remove every group.
    pub fn clear(&mut self)
        ensures
            final(self)@ == Seq::<PassengerGroupView>::empty(),
    {
        self.groups.clear();
        assert(self@ =~= Seq::<PassengerGroupView>::empty());
    }

    /// The position of the first group bound for `destination`.
    pub fn find_group(&self, destination: &String) -> (position: usize)
        ensures
            position == group_position(self@, destination@),
            position <= self.groups@.len(),
    {
        let mut position: usize = 0;
        while position < self.groups.len()
            invariant
                position <= self.groups@.len(),
                forall|i: int| 0 <= i < position ==> (#[trigger] self@[i]).destination != destination@,
            decreases self.groups@.len() - position,
        {
            if self.groups[position].destination == *destination {
                proof {
                    lemma_group_position_is(self@, destination@, position as int);
                }
                return position;
            }
            position += 1;
        }
        proof {
            lemma_group_position_is(self@, destination@, position as int);
        }
        position
    }

    /// Put `passenger` into the group of their destination.
    pub fn add_passenger(&mut self, passenger: Passenger)
        ensures
            final(self)@ == with_passenger(old(self)@, passenger@),
            head_count(final(self)@) == head_count(old(self)@) + 1,
            distinct_destinations(old(self)@) ==> distinct_destinations(final(self)@),
    {
        let position = self.find_group(&passenger.destination);
        proof {
            lemma_group_position(self@, passenger@.destination);
        }
        if position < self.groups.len() {
            proof {
                lemma_head_count_update(
                    self@,
                    position as int,
                    self@[position as int].passengers.push(passenger@),
                );
            }
            self.groups[position].passengers.push(passenger);
            assert(self@ =~= with_passenger(old(self)@, passenger@)) by {
                assert(passenger_views(self.groups@[position as int].passengers@) =~= old(
                    self,
                )@[position as int].passengers.push(passenger@));
            }
        } else {
            let mut passengers: Vec<Passenger> = Vec::new();
            let destination = passenger.destination.clone();
            passengers.push(passenger);
            proof {
                lemma_head_count_push(
                    self@,
                    PassengerGroupView {
                        destination: passenger@.destination,
                        passengers: seq![passenger@],
                    },
                );
            }
            self.groups.push(PassengerGroup { destination, passengers });
            assert(self@ =~= with_passenger(old(self)@, passenger@)) by {
                assert(passenger_views(seq![passenger]) =~= seq![passenger@]);
            }
        }
    }

    /// The number of passengers bound for `destination`.
    pub fn count_for(&self, destination: &String) -> (count: usize)
        ensures
            count == bound_for(self@, destination@).len(),
    {
        let position = self.find_group(destination);
        if position < self.groups.len() {
            self.groups[position].passengers.len()
        } else {
            0
        }
    }

    /// Take out the passenger who joined the group bound for `destination`
    /// last, if the group has anybody.
    pub fn pop_for(&mut self, destination: &String) -> (left: Option<Passenger>)
        ensures
            left is None <==> bound_for(old(self)@, destination@).len() == 0,
            left is None ==> final(self)@ == old(self)@,
            left matches Some(passenger) ==> {
                &&& passenger@ == bound_for(old(self)@, destination@).last()
                &&& final(self)@ == with_group(
                    old(self)@,
                    destination@,
                    bound_for(old(self)@, destination@).drop_last(),
                )
                &&& head_count(final(self)@) + 1 == head_count(old(self)@)
            },
            distinct_destinations(old(self)@) ==> distinct_destinations(final(self)@),
    {
        let position = self.find_group(destination);
        if position < self.groups.len() {
            proof {
                lemma_head_count_update(
                    self@,
                    position as int,
                    self@[position as int].passengers.drop_last(),
                );
            }
            let left = self.groups[position].passengers.pop();
            proof {
                if left is Some {
                    assert(passenger_views(self.groups@[position as int].passengers@) =~= old(
                        self,
                    )@[position as int].passengers.drop_last());
                    assert(self@ =~= with_group(
                        old(self)@,
                        destination@,
                        bound_for(old(self)@, destination@).drop_last(),
                    ));
                } else {
                    assert(self@ =~= old(self)@);
                }
            }
            left
        } else {
            None
        }
    }

    /// Take out everybody bound for `destination`. The group stays, with
    /// nobody in it.
    pub fn take_for(&mut self, destination: &String) -> (left: Vec<Passenger>)
        ensures
            passenger_views(left@) == bound_for(old(self)@, destination@),
            final(self)@ == with_group(old(self)@, destination@, Seq::empty()),
            head_count(final(self)@) + left@.len() == head_count(old(self)@),
            distinct_destinations(old(self)@) ==> distinct_destinations(final(self)@),
    {
        let position = self.find_group(destination);
        let mut left: Vec<Passenger> = Vec::new();
        if position < self.groups.len() {
            proof {
                lemma_head_count_update(self@, position as int, Seq::empty());
            }
            left.append(&mut self.groups[position].passengers);
            assert(passenger_views(left@) =~= bound_for(old(self)@, destination@));
            assert(self@ =~= with_group(old(self)@, destination@, Seq::empty())) by {
                assert(passenger_views(self.groups@[position as int].passengers@) =~= Seq::<
                    PassengerView,
                >::empty());
            }
        } else {
            assert(passenger_views(left@) =~= bound_for(old(self)@, destination@));
        }
        left
    }

    /// Add `timestamp` to the wait time of everybody.
    pub fn wait_all(&mut self, timestamp: usize)
        ensures
            final(self)@ == groups_waited(old(self)@, timestamp),
    {
        let mut index: usize = 0;
        while index < self.groups.len()
            invariant
                index <= self.groups@.len(),
                self.groups@.len() == old(self).groups@.len(),
                forall|i: int|
                    0 <= i < index ==> (#[trigger] self@[i]) == (PassengerGroupView {
                        destination: old(self)@[i].destination,
                        passengers: all_waited(old(self)@[i].passengers, timestamp),
                    }),
                forall|i: int|
                    index <= i < self.groups@.len() ==> (#[trigger] self@[i]) == old(self)@[i],
            decreases self.groups@.len() - index,
        {
            let ghost before = self@;
            let ghost groups_before = self.groups@;
            Passenger::wait_all(&mut self.groups[index].passengers, timestamp);
            proof {
                assert forall|i: int| 0 <= i < self.groups@.len() && i != index implies (
                #[trigger] self@[i]) == before[i] by {
                    assert(self.groups@[i] == groups_before[i]);
                }
                assert(self.groups@[index as int].destination == groups_before[index as int].destination);
                assert(self@[index as int].passengers == all_waited(
                    before[index as int].passengers,
                    timestamp,
                ));
            }
            index += 1;
        }
        assert(self@ =~= groups_waited(old(self)@, timestamp));
    }

    /// The groups as records, in order.
    pub fn to_records(&self) -> (records: Vec<GroupRecord>)
        ensures
            records.deep_view() == groups_facts(self@),
    {
        let mut records: Vec<GroupRecord> = Vec::new();
        let mut index: usize = 0;
        while index < self.groups.len()
            invariant
                index <= self.groups@.len(),
                records@.len() == index,
                forall|i: int|
                    0 <= i < index ==> (#[trigger] records@[i]).deep_view() == (
                        self@[i].destination,
                        passengers_facts(self@[i].passengers),
                    ),
            decreases self.groups@.len() - index,
        {
            let group = &self.groups[index];
            records.push((group.destination.clone(), Passenger::to_records(&group.passengers)));
            index += 1;
        }
        assert(records.deep_view() =~= groups_facts(self@));
        records
    }

    /// The groups that some records stand for. Of several records for one
    /// destination the last counts, so that no two groups are bound for the
    /// same destination.
    pub fn from_records(records: &Vec<GroupRecord>) -> (created: PassengerMap)
        ensures
            created@ == groups_of_facts(records.deep_view()),
            distinct_destinations(created@),
    {
        let mut created = PassengerMap::new();
        let mut index: usize = 0;
        while index < records.len()
            invariant
                index <= records@.len(),
                created@ == groups_read(records.deep_view(), index as int),
            decreases records@.len() - index,
        {
            let record = &records[index];
            let ghost before = created@;
            let ghost groups_before = created.groups@;
            let ghost group = PassengerGroupView {
                destination: record.0@,
                passengers: passengers_of_facts(record.1.deep_view()),
            };
            assert(records.deep_view()[index as int] == record.deep_view());
            let position = created.find_group(&record.0);
            let passengers = Passenger::from_records(&record.1);
            if position < created.groups.len() {
                created.groups[position].passengers = passengers;
                proof {
                    lemma_group_position(before, group.destination);
                    assert forall|i: int|
                        0 <= i < created.groups@.len() && i != position implies (
                    #[trigger] created@[i]) == before[i] by {
                        assert(created.groups@[i] == groups_before[i]);
                    }
                    assert(created.groups@[position as int].destination
                        == groups_before[position as int].destination);
                    assert(created@ =~= with_whole_group(before, group));
                }
            } else {
                created.groups.push(PassengerGroup { destination: record.0.clone(), passengers });
                assert(created@ =~= with_whole_group(before, group));
            }
            index += 1;
        }
        proof {
            lemma_groups_read_distinct(records.deep_view(), records@.len() as int);
        }
        created
    }

    /// The sum of the wait times of everybody in all groups, or the greatest
    /// number that fits if it is more.
    pub fn wait_time(&self) -> (total: usize)
        ensures
            total == crate::text::clip(wait_total(self@)),
    {
        let mut total: usize = 0;
        let mut position: usize = 0;
        while position < self.groups.len()
            invariant
                position <= self.groups@.len(),
                total == crate::text::clip(wait_total(self@.take(position as int))),
            decreases self.groups@.len() - position,
        {
            assert(self@.take(position as int + 1).drop_last() =~= self@.take(position as int));
            let waited = wait_time_of(&self.groups[position].passengers);
            total = total.saturating_add(waited);
            position += 1;
        }
        assert(self@.take(position as int) =~= self@);
        total
    }

    /// The number of passengers in all groups, or the greatest number that
    /// fits if there are more.
    pub fn count(&self) -> (count: usize)
        ensures
            count == crate::text::clip(head_count(self@)),
    {
        let mut count: usize = 0;
        let mut position: usize = 0;
        while position < self.groups.len()
            invariant
                position <= self.groups@.len(),
                count == crate::text::clip(head_count(self@.take(position as int))),
            decreases self.groups@.len() - position,
        {
            assert(self@.take(position as int + 1).drop_last() =~= self@.take(position as int));
            count = count.saturating_add(self.groups[position].passengers.len());
            position += 1;
        }
        assert(self@.take(position as int) =~= self@);
        count
    }
}

/// Groups of which no two are bound for the same destination are the same
/// groups after they were written to records and read back.
pub proof fn lemma_groups_facts_round_trip(groups: Seq<PassengerGroupView>)
    requires
        distinct_destinations(groups),
    ensures
        groups_of_facts(groups_facts(groups)) == groups,
{
    lemma_groups_read_back(groups, groups.len() as int);
    assert(groups.take(groups.len() as int) =~= groups);
}

proof fn lemma_groups_read_back(groups: Seq<PassengerGroupView>, upto: int)
    requires
        distinct_destinations(groups),
        0 <= upto <= groups.len(),
    ensures
        groups_read(groups_facts(groups), upto) == groups.take(upto),
    decreases upto,
{
    if upto > 0 {
        lemma_groups_read_back(groups, upto - 1);
        let read = groups.take(upto - 1);
        let group = groups[upto - 1];
        assert(passengers_of_facts(passengers_facts(group.passengers)) =~= group.passengers);
        assert forall|i: int| 0 <= i < read.len() implies (#[trigger] read[i]).destination
            != group.destination by {
            assert(groups[i].destination != groups[upto - 1].destination);
        }
        lemma_group_position_is(read, group.destination, read.len() as int);
        assert(read.push(group) =~= groups.take(upto));
    } else {
        assert(groups.take(0) =~= Seq::<PassengerGroupView>::empty());
    }
}

impl Clone for PassengerMap {
    fn clone(&self) -> (copy: PassengerMap)
        ensures
            copy@ == self@,
    {
        let mut groups: Vec<PassengerGroup> = Vec::new();
        let mut index: usize = 0;
        while index < self.groups.len()
            invariant
                index <= self.groups@.len(),
                groups@.len() == index,
                forall|i: int| 0 <= i < index ==> (#[trigger] groups@[i])@ == self.groups@[i]@,
            decreases self.groups@.len() - index,
        {
            let group = &self.groups[index];
            groups.push(
                PassengerGroup {
                    destination: group.destination.clone(),
                    passengers: Passenger::clone_all(&group.passengers),
                },
            );
            index += 1;
        }
        let copy = PassengerMap { groups };
        assert(copy@ =~= self@);
        copy
    }
}

} // verus!
