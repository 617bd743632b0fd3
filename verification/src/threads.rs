//! The walk over the threads of the system that stops, or starts again, every
//! other thread of the process.

use vstd::prelude::*;

verus! {

/// What the walk wants done next.
#[derive(Clone, Copy, Debug, PartialEq, Eq, Structural)]
pub enum Request {
    /// Take a snapshot of the threads.
    Snapshot,
    /// Read the first thread of the snapshot.
    First,
    /// Open the thread.
    Open { id: u32 },
    /// Start the open thread again.
    Resume,
    /// Stop the open thread.
    Suspend,
    /// Close the open thread.
    CloseThread,
    /// Read the next thread of the snapshot.
    Next,
    /// Close the snapshot.
    CloseSnapshot,
    /// Nothing: the walk is over.
    Done,
}

/// What came of it.
#[derive(Clone, Copy, Debug, PartialEq, Eq, Structural)]
pub enum Event {
    /// Whether the snapshot was taken.
    Snapshot { taken: bool },
    /// A thread and its process.
    Entry { thread: u32, process: u32 },
    /// The snapshot has no further thread.
    NoEntry,
    /// Whether the thread was opened.
    Opened { open: bool },
    /// It was done.
    Acknowledged,
}

/// A walk.
#[derive(Clone, Copy, Debug, PartialEq, Eq, Structural)]
pub struct ThreadWalk {
    /// Whether threads are started again, not stopped.
    pub resume: bool,
    pub current_thread: u32,
    pub current_process: u32,
    pub request: Request,
}

/// Whether the event answers the request.
pub open spec fn answers(request: Request, event: Event) -> bool {
    match request {
        Request::Snapshot => event is Snapshot,
        Request::First | Request::Next => event is Entry || event is NoEntry,
        Request::Open { id: _ } => event is Opened,
        Request::Resume | Request::Suspend | Request::CloseThread | Request::CloseSnapshot => event
            is Acknowledged,
        Request::Done => false,
    }
}

/// Whether the thread is another one of this process.
pub open spec fn concerns(walk: ThreadWalk, thread: u32, process: u32) -> bool {
    thread != walk.current_thread && process == walk.current_process
}

/// What the walk wants done after the event.
pub open spec fn next_request(walk: ThreadWalk, event: Event) -> Request {
    match (walk.request, event) {
        (Request::Snapshot, Event::Snapshot { taken }) => if taken {
            Request::First
        } else {
            Request::Done
        },
        (Request::Open { id: _ }, Event::Opened { open }) => if !open {
            Request::Next
        } else if walk.resume {
            Request::Resume
        } else {
            Request::Suspend
        },
        (_, Event::Entry { thread, process }) => if concerns(walk, thread, process) {
            Request::Open { id: thread }
        } else {
            Request::Next
        },
        (_, Event::NoEntry) => Request::CloseSnapshot,
        (Request::Resume, _) => Request::CloseThread,
        (Request::Suspend, _) => Request::CloseThread,
        (Request::CloseThread, _) => Request::Next,
        _ => Request::Done,
    }
}

/// The walk after the event.
pub open spec fn after(walk: ThreadWalk, event: Event) -> ThreadWalk {
    ThreadWalk { request: next_request(walk, event), ..walk }
}

impl ThreadWalk {
    /// The start of a walk.
    pub fn new(resume: bool, current_thread: u32, current_process: u32) -> (r: ThreadWalk)
        ensures
            r == (ThreadWalk {
                resume,
                current_thread,
                current_process,
                request: Request::Snapshot,
            }),
    {
        ThreadWalk { resume, current_thread, current_process, request: Request::Snapshot }
    }

    /// Takes the answer to the request, and makes the next one.
    pub fn step(&mut self, event: Event)
        requires
            answers(old(self).request, event),
        ensures
            *final(self) == after(*old(self), event),
    {
        let request = match event {
            Event::Snapshot { taken } => if taken {
                Request::First
            } else {
                Request::Done
            },
            Event::Entry { thread, process } => if thread != self.current_thread && process
                == self.current_process {
                Request::Open { id: thread }
            } else {
                Request::Next
            },
            Event::NoEntry => Request::CloseSnapshot,
            Event::Opened { open } => if !open {
                Request::Next
            } else if self.resume {
                Request::Resume
            } else {
                Request::Suspend
            },
            Event::Acknowledged => match self.request {
                Request::Resume => Request::CloseThread,
                Request::Suspend => Request::CloseThread,
                Request::CloseThread => Request::Next,
                _ => Request::Done,
            },
        };
        self.request = request;
    }
}

/// The walk after all the events.
pub open spec fn after_all(walk: ThreadWalk, events: Seq<Event>) -> ThreadWalk
    decreases events.len(),
{
    if events.len() == 0 {
        walk
    } else {
        after(after_all(walk, events.drop_last()), events.last())
    }
}

/// Whether each event answers the request that the walk has made by then.
pub open spec fn run(walk: ThreadWalk, events: Seq<Event>) -> bool
    decreases events.len(),
{
    events.len() > 0 ==> run(walk, events.drop_last()) && answers(
        after_all(walk, events.drop_last()).request,
        events.last(),
    )
}

/// How many of the events had the answer `event` to the request `request`.
pub open spec fn count(
    walk: ThreadWalk,
    events: Seq<Event>,
    of: spec_fn(Request, Event) -> bool,
) -> nat
    decreases events.len(),
{
    if events.len() == 0 {
        0
    } else {
        count(walk, events.drop_last(), of) + (if of(
            after_all(walk, events.drop_last()).request,
            events.last(),
        ) {
            1nat
        } else {
            0nat
        })
    }
}

/// A snapshot was taken.
pub open spec fn snapshot_taken() -> spec_fn(Request, Event) -> bool {
    |r: Request, e: Event| e == Event::Snapshot { taken: true }
}

/// A snapshot was closed.
pub open spec fn snapshot_closed() -> spec_fn(Request, Event) -> bool {
    |r: Request, e: Event| r == Request::CloseSnapshot
}

/// A thread was opened.
pub open spec fn thread_opened() -> spec_fn(Request, Event) -> bool {
    |r: Request, e: Event| e == Event::Opened { open: true }
}

/// A thread was closed.
pub open spec fn thread_closed() -> spec_fn(Request, Event) -> bool {
    |r: Request, e: Event| r == Request::CloseThread
}

/// A thread was stopped or started again.
pub open spec fn thread_changed() -> spec_fn(Request, Event) -> bool {
    |r: Request, e: Event| r == Request::Resume || r == Request::Suspend
}

proof fn lemma_balance(walk: ThreadWalk, events: Seq<Event>)
    requires
        walk.request == Request::Snapshot,
        run(walk, events),
    ensures
        count(walk, events, snapshot_taken()) == count(walk, events, snapshot_closed()) + (
        match after_all(walk, events).request {
            Request::Snapshot | Request::Done => 0int,
            _ => 1int,
        }),
        count(walk, events, thread_opened()) == count(walk, events, thread_closed()) + (
        match after_all(walk, events).request {
            Request::Resume | Request::Suspend | Request::CloseThread => 1int,
            _ => 0int,
        }),
        count(walk, events, thread_opened()) == count(walk, events, thread_changed()) + (
        match after_all(walk, events).request {
            Request::Resume | Request::Suspend => 1int,
            _ => 0int,
        }),
        after_all(walk, events).resume == walk.resume,
        after_all(walk, events).current_thread == walk.current_thread,
        after_all(walk, events).current_process == walk.current_process,
        walk.resume ==> after_all(walk, events).request != Request::Suspend,
        !walk.resume ==> after_all(walk, events).request != Request::Resume,
        after_all(walk, events).request is Open ==> after_all(walk, events).request->id
            != walk.current_thread,
    decreases events.len(),
{
    if events.len() > 0 {
        lemma_balance(walk, events.drop_last());
    }
}

/// A walk that is over has closed every snapshot that it took and every thread
/// that it opened, and has changed each thread that it opened once.
pub proof fn law_walk_closes_what_it_opens(walk: ThreadWalk, events: Seq<Event>)
    requires
        walk.request == Request::Snapshot,
        run(walk, events),
        after_all(walk, events).request == Request::Done,
    ensures
        count(walk, events, snapshot_taken()) == count(walk, events, snapshot_closed()),
        count(walk, events, thread_opened()) == count(walk, events, thread_closed()),
        count(walk, events, thread_opened()) == count(walk, events, thread_changed()),
{
    lemma_balance(walk, events);
}

/// A walk never touches its own thread, and never stops threads where it is to
/// start them again, nor starts them where it is to stop them.
pub proof fn law_walk_spares_its_own_thread(walk: ThreadWalk, events: Seq<Event>)
    requires
        walk.request == Request::Snapshot,
        run(walk, events),
    ensures
        after_all(walk, events).request != (Request::Open { id: walk.current_thread }),
        walk.resume ==> after_all(walk, events).request != Request::Suspend,
        !walk.resume ==> after_all(walk, events).request != Request::Resume,
{
    lemma_balance(walk, events);
}

/// A thread of the snapshot is opened exactly where it is another thread of the
/// same process.
pub proof fn law_other_threads_of_the_process(walk: ThreadWalk, thread: u32, process: u32)
    requires
        answers(walk.request, Event::Entry { thread, process }),
    ensures
        after(walk, Event::Entry { thread, process }).request == (if thread != walk.current_thread
            && process == walk.current_process {
            Request::Open { id: thread }
        } else {
            Request::Next
        }),
{
}

/// How a walk goes on: from a snapshot to its first thread, from a thread that was
/// opened to stopping it or starting it again, from there to closing it, and from
/// a thread that was closed or could not be opened to the next one; from the end
/// of the snapshot to closing it, and that ends the walk. A walk without a
/// snapshot is over at once.
pub proof fn law_walk_goes_on(walk: ThreadWalk)
    ensures
        walk.request == Request::Snapshot ==> after(walk, Event::Snapshot { taken: true }).request
            == Request::First && after(walk, Event::Snapshot { taken: false }).request
            == Request::Done,
        walk.request == Request::First || walk.request == Request::Next ==> after(
            walk,
            Event::NoEntry,
        ).request == Request::CloseSnapshot,
        walk.request is Open ==> after(walk, Event::Opened { open: false }).request
            == Request::Next && after(walk, Event::Opened { open: true }).request == (
        if walk.resume {
            Request::Resume
        } else {
            Request::Suspend
        }),
        walk.request == Request::Resume || walk.request == Request::Suspend ==> after(
            walk,
            Event::Acknowledged,
        ).request == Request::CloseThread,
        walk.request == Request::CloseThread ==> after(walk, Event::Acknowledged).request
            == Request::Next,
        walk.request == Request::CloseSnapshot ==> after(walk, Event::Acknowledged).request
            == Request::Done,
{
}

/// A step keeps what the walk is for: whether it starts threads again, and which
/// thread and process it runs in.
pub proof fn law_walk_keeps_its_purpose(walk: ThreadWalk, event: Event)
    ensures
        after(walk, event).resume == walk.resume,
        after(walk, event).current_thread == walk.current_thread,
        after(walk, event).current_process == walk.current_process,
{
}

/// Another thread of the process was read from the snapshot.
pub open spec fn other_thread(walk: ThreadWalk) -> spec_fn(Request, Event) -> bool {
    |r: Request, e: Event|
        e matches Event::Entry { thread, process } && thread != walk.current_thread && process
            == walk.current_process
}

/// A thread was asked to be opened.
pub open spec fn thread_asked() -> spec_fn(Request, Event) -> bool {
    |r: Request, e: Event| r is Open
}

/// Opening a thread was refused.
pub open spec fn thread_refused() -> spec_fn(Request, Event) -> bool {
    |r: Request, e: Event| e == Event::Opened { open: false }
}

proof fn lemma_progress(walk: ThreadWalk, events: Seq<Event>)
    requires
        walk.request == Request::Snapshot,
        run(walk, events),
    ensures
        after_all(walk, events).current_thread == walk.current_thread,
        after_all(walk, events).current_process == walk.current_process,
        count(walk, events, other_thread(walk)) == count(walk, events, thread_asked()) + (
        if after_all(walk, events).request is Open {
            1int
        } else {
            0int
        }),
        count(walk, events, thread_asked()) == count(walk, events, thread_opened()) + count(
            walk,
            events,
            thread_refused(),
        ),
        after_all(walk, events).request == Request::Snapshot ==> events.len() == 0,
        after_all(walk, events).request == Request::CloseSnapshot ==> events.len() > 0
            && events.last() == Event::NoEntry,
        after_all(walk, events).request == Request::Done ==> (events.len() == 1 && events[0]
            == Event::Snapshot { taken: false }) || (events.len() >= 2 && events[events.len() - 2]
            == Event::NoEntry),
    decreases events.len(),
{
    if events.len() > 0 {
        lemma_progress(walk, events.drop_last());
        if events.len() > 1 {
            assert(events.drop_last().last() == events[events.len() - 2]);
        }
    }
}

/// A walk that is over without having been refused the snapshot has read the
/// snapshot to its end, and has changed every other thread of the process that it
/// read, but for those that it was refused to open.
pub proof fn law_walk_reaches_every_thread(walk: ThreadWalk, events: Seq<Event>)
    requires
        walk.request == Request::Snapshot,
        run(walk, events),
        after_all(walk, events).request == Request::Done,
    ensures
        events[0] != (Event::Snapshot { taken: false }) ==> events.len() >= 2
            && events[events.len() - 2] == Event::NoEntry,
        count(walk, events, other_thread(walk)) == count(walk, events, thread_changed()) + count(
            walk,
            events,
            thread_refused(),
        ),
{
    lemma_progress(walk, events);
    law_walk_closes_what_it_opens(walk, events);
    if events[0] == (Event::Snapshot { taken: false }) {
    } else if events.len() == 1 {
        assert(events[0] == Event::Snapshot { taken: false });
    }
}

/// Every answer to what was asked for is taken, whatever it says.
pub proof fn law_answers_are_taken(taken: bool, thread: u32, process: u32, id: u32, open: bool)
    ensures
        answers(Request::Snapshot, Event::Snapshot { taken }),
        answers(Request::First, Event::Entry { thread, process }),
        answers(Request::First, Event::NoEntry),
        answers(Request::Next, Event::Entry { thread, process }),
        answers(Request::Next, Event::NoEntry),
        answers(Request::Open { id }, Event::Opened { open }),
        answers(Request::Resume, Event::Acknowledged),
        answers(Request::Suspend, Event::Acknowledged),
        answers(Request::CloseThread, Event::Acknowledged),
        answers(Request::CloseSnapshot, Event::Acknowledged),
{
}

} // verus!
