use vstd::prelude::*;

verus! {

/// Why a send into a bounded channel did not happen; the item comes back.
#[derive(Debug, PartialEq, Eq)]
pub enum TrySendError<T> {
    /// The channel holds as many items as its capacity allows.
    Full(T),
    /// The receiving half is gone.
    Disconnected(T),
}

/// What a receive attempt on a bounded channel found.
#[derive(Debug, PartialEq, Eq)]
pub enum TryRecv<T> {
    Item(T),
    /// Nothing queued yet, but more may come.
    Empty,
    /// Nothing queued and the sending half is gone.
    Closed,
}

/// The queue of a bounded single-producer single-consumer channel.
/// A send never drops or overwrites an item: when the queue is full the
/// item is handed back and the producer has to wait.
pub struct BoundedQueue<T> {
    items: Vec<T>,
    capacity: usize,
    sender_closed: bool,
    receiver_dropped: bool,
}

impl<T> BoundedQueue<T> {
    /// The queued items, oldest first.
    pub closed spec fn items(&self) -> Seq<T> {
        self.items@
    }

    pub closed spec fn capacity_spec(&self) -> nat {
        self.capacity as nat
    }

    pub closed spec fn is_sender_closed(&self) -> bool {
        self.sender_closed
    }

    pub closed spec fn is_receiver_dropped(&self) -> bool {
        self.receiver_dropped
    }

    pub open spec fn wf(&self) -> bool {
        &&& self.capacity_spec() > 0
        &&& self.items().len() <= self.capacity_spec()
    }

    pub fn new(capacity: usize) -> (r: BoundedQueue<T>)
        requires
            capacity > 0,
        ensures
            r.wf(),
            r.capacity_spec() == capacity,
            r.items() == Seq::<T>::empty(),
            !r.is_sender_closed(),
            !r.is_receiver_dropped(),
    {
        BoundedQueue { items: Vec::new(), capacity, sender_closed: false, receiver_dropped: false }
    }

    pub fn len(&self) -> (r: usize)
        ensures
            r == self.items().len(),
    {
        self.items.len()
    }

    pub fn is_full(&self) -> (r: bool)
        ensures
            r == (self.items().len() >= self.capacity_spec()),
    {
        self.items.len() >= self.capacity
    }

    /// Queues `item` if there is room and a receiver.
    pub fn try_send(&mut self, item: T) -> (r: Result<(), TrySendError<T>>)
        requires
            old(self).wf(),
        ensures
            final(self).wf(),
            final(self).capacity_spec() == old(self).capacity_spec(),
            final(self).is_sender_closed() == old(self).is_sender_closed(),
            final(self).is_receiver_dropped() == old(self).is_receiver_dropped(),
            old(self).is_receiver_dropped() ==> r == Err::<(), TrySendError<T>>(
                TrySendError::Disconnected(item),
            ) && final(self).items() == old(self).items(),
            !old(self).is_receiver_dropped() && old(self).items().len()
                >= old(self).capacity_spec() ==> r == Err::<(), TrySendError<T>>(
                TrySendError::Full(item),
            ) && final(self).items() == old(self).items(),
            !old(self).is_receiver_dropped() && old(self).items().len()
                < old(self).capacity_spec() ==> r is Ok && final(self).items() == old(
                self,
            ).items().push(item),
    {
        if self.receiver_dropped {
            Err(TrySendError::Disconnected(item))
        } else if self.items.len() >= self.capacity {
            Err(TrySendError::Full(item))
        } else {
            self.items.push(item);
            Ok(())
        }
    }

    /// Takes the oldest queued item.
    pub fn try_recv(&mut self) -> (r: TryRecv<T>)
        requires
            old(self).wf(),
        ensures
            final(self).wf(),
            final(self).capacity_spec() == old(self).capacity_spec(),
            final(self).is_sender_closed() == old(self).is_sender_closed(),
            final(self).is_receiver_dropped() == old(self).is_receiver_dropped(),
            old(self).items().len() > 0 ==> r == TryRecv::Item(old(self).items()[0])
                && final(self).items() == old(self).items().skip(1),
            old(self).items().len() == 0 ==> final(self).items() == old(self).items() && (
            if old(self).is_sender_closed() {
                r is Closed
            } else {
                r is Empty
            }),
    {
        if self.items.len() > 0 {
            let item = self.items.remove(0);
            assert(self.items@ =~= old(self).items@.skip(1));
            TryRecv::Item(item)
        } else if self.sender_closed {
            TryRecv::Closed
        } else {
            TryRecv::Empty
        }
    }

    /// The sending half is gone; queued items can still be received.
    pub fn close_sender(&mut self)
        ensures
            final(self).is_sender_closed(),
            final(self).is_receiver_dropped() == old(self).is_receiver_dropped(),
            final(self).items() == old(self).items(),
            final(self).capacity_spec() == old(self).capacity_spec(),
    {
        self.sender_closed = true;
    }

    /// The receiving half is gone; queued items are discarded and later sends fail.
    pub fn drop_receiver(&mut self)
        requires
            old(self).wf(),
        ensures
            final(self).wf(),
            final(self).is_receiver_dropped(),
            final(self).is_sender_closed() == old(self).is_sender_closed(),
            final(self).items() == Seq::<T>::empty(),
            final(self).capacity_spec() == old(self).capacity_spec(),
    {
        self.receiver_dropped = true;
        self.items = Vec::new();
    }
}

} // verus!
