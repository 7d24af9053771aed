//! What was sent and received lately.

use vstd::prelude::*;

verus! {

/// The most transfers that are remembered.
pub const MAX_TRANSFER_HISTORY: usize = 100;

/// Which way a file went.
#[derive(Clone, Copy, Debug, PartialEq, Eq, Structural)]
pub enum TransferDirection {
    Sent,
    Received,
}

/// A transfer that has come to its end.
pub struct TransferEvent {
    pub direction: TransferDirection,
    pub file_name: String,
    pub peer_name: String,
    pub bytes: u64,
    pub saved_path: Option<String>,
    pub timestamp_ms: u128,
}

/// A transfer that has come to its end, by its texts.
#[verifier::ext_equal]
pub struct EventView {
    pub direction: TransferDirection,
    pub file_name: Seq<char>,
    pub peer_name: Seq<char>,
    pub bytes: u64,
    pub saved_path: Option<Seq<char>>,
    pub timestamp_ms: u128,
}

impl View for TransferEvent {
    type V = EventView;

    open spec fn view(&self) -> EventView {
        EventView {
            direction: self.direction,
            file_name: self.file_name@,
            peer_name: self.peer_name@,
            bytes: self.bytes,
            saved_path: match self.saved_path {
                Some(path) => Some(path@),
                None => None,
            },
            timestamp_ms: self.timestamp_ms,
        }
    }
}

impl Clone for TransferEvent {
    fn clone(&self) -> (copy: Self)
        ensures
            copy@ == self@,
    {
        TransferEvent {
            direction: self.direction,
            file_name: self.file_name.clone(),
            peer_name: self.peer_name.clone(),
            bytes: self.bytes,
            saved_path: match &self.saved_path {
                Some(path) => Some(path.clone()),
                None => None,
            },
            timestamp_ms: self.timestamp_ms,
        }
    }
}

/// A list of transfers by their texts.
pub open spec fn event_views(events: Seq<TransferEvent>) -> Seq<EventView> {
    Seq::new(events.len(), |index: int| events[index]@)
}

/// The last transfers of a list, as many as are remembered.
pub open spec fn latest(events: Seq<EventView>) -> Seq<EventView> {
    if events.len() > MAX_TRANSFER_HISTORY {
        events.skip(events.len() - MAX_TRANSFER_HISTORY)
    } else {
        events
    }
}

/// The transfers that are remembered, the oldest first.
pub struct TransferHistory {
    events: Vec<TransferEvent>,
}

impl View for TransferHistory {
    type V = Seq<EventView>;

    closed spec fn view(&self) -> Seq<EventView> {
        event_views(self.events@)
    }
}

impl TransferHistory {
    /// No more transfers are remembered than may be.
    pub open spec fn wf(&self) -> bool {
        self@.len() <= MAX_TRANSFER_HISTORY
    }

    /// A history without transfers.
    pub fn new() -> (history: TransferHistory)
        ensures
            history.wf(),
            history@ == Seq::<EventView>::empty(),
    {
        let history = TransferHistory { events: Vec::new() };
        assert(history@ =~= Seq::<EventView>::empty());
        history
    }

    /// The history that a list of transfers leaves, the oldest first.
    pub fn from_events(events: Vec<TransferEvent>) -> (history: TransferHistory)
        ensures
            history.wf(),
            history@ == latest(event_views(events@)),
    {
        let mut events: Vec<TransferEvent> = events;
        let ghost all = events@;
        if events.len() > MAX_TRANSFER_HISTORY {
            let overflow: usize = events.len() - MAX_TRANSFER_HISTORY;
            events = events.split_off(overflow);
            assert(event_views(events@) =~= event_views(all).skip(overflow as int));
        }
        TransferHistory { events }
    }

    /// Remembers a transfer, and forgets the oldest ones if there are too many.
    pub fn push(&mut self, event: TransferEvent)
        requires
            old(self).wf(),
        ensures
            final(self).wf(),
            final(self)@ == latest(old(self)@.push(event@)),
    {
        let ghost before = self@;
        self.events.push(event);
        assert(self@ =~= before.push(event@));
        if self.events.len() > MAX_TRANSFER_HISTORY {
            let ghost long = self.events@;
            self.events.remove(0);
            assert(self.events@ =~= long.skip(1));
            assert(self@ =~= before.push(event@).skip(1));
        }
    }

    /// Forgets all transfers.
    pub fn clear(&mut self)
        ensures
            final(self).wf(),
            final(self)@ == Seq::<EventView>::empty(),
    {
        self.events.clear();
        assert(self@ =~= Seq::<EventView>::empty());
    }

    /// The transfers, the oldest first.
    pub fn events(&self) -> (list: Vec<TransferEvent>)
        ensures
            event_views(list@) == self@,
    {
        let mut list: Vec<TransferEvent> = Vec::new();
        let mut index: usize = 0;
        assert(event_views(list@) =~= self@.take(0));
        while index < self.events.len()
            invariant
                index <= self.events@.len(),
                event_views(list@) == self@.take(index as int),
            decreases self.events@.len() - index,
        {
            let ghost before = list@;
            let event = self.events[index].clone();
            list.push(event);
            assert(event_views(list@) =~= event_views(before).push(event@));
            assert(self@.take(index + 1) =~= self@.take(index as int).push(self@[index as int]));
            index = index + 1;
        }
        assert(self@.take(self@.len() as int) =~= self@);
        list
    }

    /// The transfers, the newest first.
    pub fn newest_first(&self) -> (list: Vec<TransferEvent>)
        ensures
            event_views(list@) == self@.reverse(),
    {
        let mut list: Vec<TransferEvent> = Vec::new();
        let mut left: usize = self.events.len();
        assert(event_views(list@) =~= self@.reverse().take(0));
        while left > 0
            invariant
                left <= self.events@.len(),
                event_views(list@) == self@.reverse().take(self.events@.len() - left),
            decreases left,
        {
            let ghost before = list@;
            let ghost done = self.events@.len() - left;
            let event = self.events[left - 1].clone();
            list.push(event);
            assert(event_views(list@) =~= event_views(before).push(event@));
            assert(self@.reverse().take(done + 1) =~= self@.reverse().take(done).push(
                self@.reverse()[done],
            ));
            left = left - 1;
        }
        assert(self@.reverse().take(self@.len() as int) =~= self@.reverse());
        list
    }
}

/// What is remembered of many transfers is the last of them, in their order, however many came
/// before: remembering them one by one comes to the same as keeping the latest of the whole list.
pub proof fn law_history_keeps_the_latest(events: Seq<EventView>, more: EventView)
    ensures
        latest(latest(events).push(more)) == latest(events.push(more)),
        latest(events).len() <= MAX_TRANSFER_HISTORY,
        latest(events.push(more)).last() == more,
{
    assert(latest(latest(events).push(more)) =~= latest(events.push(more)));
}

/// A history that was saved is the same once it is loaded again.
pub proof fn law_saved_history_is_loaded_back(events: Seq<EventView>)
    ensures
        latest(latest(events)) == latest(events),
{
}

/// What is said of a transfer is what stands in its fields.
pub proof fn law_transfer_is_remembered_as_it_is(event: TransferEvent)
    ensures
        event@.direction == event.direction,
        event@.file_name == event.file_name@,
        event@.peer_name == event.peer_name@,
        event@.bytes == event.bytes,
        event.saved_path is None ==> event@.saved_path is None,
        event.saved_path matches Some(path) ==> event@.saved_path == Some(path@),
        event@.timestamp_ms == event.timestamp_ms,
{
}

/// Of a list of transfers all are remembered if they are not more than a hundred, and otherwise the
/// last hundred, in their order.
pub proof fn law_last_hundred_transfers_are_remembered(events: Seq<EventView>, index: int)
    ensures
        events.len() <= 100 ==> latest(events) == events,
        events.len() > 100 ==> latest(events).len() == 100,
        events.len() > 100 && 0 <= index < 100 ==> latest(events)[index] == events[events.len()
            - 100 + index],
{
}

/// The views of a list of transfers are those of its transfers, in their order.
pub proof fn law_transfers_are_listed_in_order(events: Seq<TransferEvent>, index: int)
    requires
        0 <= index < events.len(),
    ensures
        event_views(events).len() == events.len(),
        event_views(events)[index] == events[index]@,
{
}

} // verus!
