//! What the device makes of the events on its files.
//!
//! Each queue has a file that the driver's notifications arrive on, and one more file says that
//! the device was activated. The files themselves are not looked at here, only their numbers.
use crate::control::ControlRun;
use crate::device::Snd;
use crate::error::Error;
use crate::transmit::TransmitRun;
use crate::vring::{used_queue_signal, Signal};
use vstd::prelude::*;

verus! {

/// The event set of a file that is ready to be read, and nothing else.
pub const EVENT_IN: u32 = 1;

/// An event to be waited for: the event set, and the data by which it is known.
#[derive(Clone, Copy, Debug, PartialEq, Eq, Structural)]
pub struct EpollEvent {
    /// The file.
    pub fd: i32,
    /// The event set.
    pub event_set: u32,
    /// The data, which is the number of the file.
    pub data: u64,
}

/// A call of the manager that waits for events.
#[derive(Clone, Copy, Debug, PartialEq, Eq, Structural)]
pub enum ManagerCall {
    /// Wait for this event from now on.
    Register(EpollEvent),
    /// No longer wait for events on this file.
    Unregister(i32),
}

/// The numbers of the files that events come from.
#[derive(Clone, Copy, Debug, PartialEq, Eq, Structural)]
pub struct EventFiles {
    /// That of the control queue.
    pub ctl: i32,
    /// That of the event queue.
    pub evt: i32,
    /// That of the transmit queue.
    pub txq: i32,
    /// That of the receive queue.
    pub rxq: i32,
    /// The one that says that the device was activated.
    pub activate: i32,
}

/// What an event is about.
#[derive(Clone, Copy, Debug, PartialEq, Eq, Structural)]
pub enum EventSource {
    /// The control queue.
    Control,
    /// The event queue.
    Event,
    /// The transmit queue.
    Transmit,
    /// The receive queue.
    Receive,
    /// The activation.
    Activate,
    /// Nothing that the device knows.
    Unexpected,
    /// Nothing yet: the device is not activated.
    Spurious,
}

/// What an event is about, given the number of its file.
pub open spec fn source_of(activated: bool, files: EventFiles, fd: i32) -> EventSource {
    if !activated {
        EventSource::Spurious
    } else if fd == files.ctl {
        EventSource::Control
    } else if fd == files.evt {
        EventSource::Event
    } else if fd == files.txq {
        EventSource::Transmit
    } else if fd == files.rxq {
        EventSource::Receive
    } else if fd == files.activate {
        EventSource::Activate
    } else {
        EventSource::Unexpected
    }
}

/// What came of an event on the file of a queue.
#[derive(Debug, PartialEq, Eq)]
pub enum QueueEvent {
    /// Nothing: the file is not just ready to be read.
    Unexpected,
    /// Nothing: the file could not be read.
    ReadFailed,
    /// The queue was dealt with.
    Processed {
        /// The errors, in order.
        errors: Vec<Error>,
        /// The interrupts to be raised, in order.
        signals: Vec<Signal>,
    },
}

/// Waits for the file with this number to be ready to be read.
pub open spec fn spec_input_event(fd: i32) -> EpollEvent {
    EpollEvent { fd, event_set: EVENT_IN, data: fd as u64 }
}

/// Makes the event for which the file with this number is waited.
fn input_event(fd: i32) -> (event: EpollEvent)
    ensures
        event == spec_input_event(fd),
{
    EpollEvent { fd, event_set: EVENT_IN, data: fd as u64 }
}

/// The calls that an activation leads to, in order.
pub open spec fn activation_calls(files: EventFiles) -> Seq<ManagerCall> {
    seq![
        ManagerCall::Register(spec_input_event(files.ctl)),
        ManagerCall::Register(spec_input_event(files.evt)),
        ManagerCall::Register(spec_input_event(files.txq)),
        ManagerCall::Register(spec_input_event(files.rxq)),
        ManagerCall::Unregister(files.activate),
    ]
}

/// Is this what comes of an event on the file of the control queue?
pub open spec fn control_event(
    before: Snd,
    after: Snd,
    event_set: u32,
    read: bool,
    res: QueueEvent,
) -> bool {
    match res {
        QueueEvent::Unexpected => event_set != EVENT_IN && after == before,
        QueueEvent::ReadFailed => event_set == EVENT_IN && !read && after == before,
        QueueEvent::Processed { errors, signals } => {
            &&& event_set == EVENT_IN
            &&& read
            &&& Snd::requests_processed(before, after, signals@.len() > 0, errors@)
            &&& signals@.len() <= 1
            &&& signals@.len() == 1 ==> signals@[0] == used_queue_signal(
                before.intc,
                before.irq_line,
            )
        },
    }
}

/// Is this what comes of an event on the file of the transmit queue?
pub open spec fn transmit_event(
    before: Snd,
    after: Snd,
    event_set: u32,
    read: bool,
    res: QueueEvent,
) -> bool {
    match res {
        QueueEvent::Unexpected => event_set != EVENT_IN && after == before,
        QueueEvent::ReadFailed => event_set == EVENT_IN && !read && after == before,
        QueueEvent::Processed { errors, signals } => {
            &&& event_set == EVENT_IN
            &&& read
            &&& Snd::transfers_processed(before, after, errors@, signals@)
        },
    }
}

/// Is this what comes of an event on the file of a queue that nothing is done with?
pub open spec fn idle_event(event_set: u32, read: bool, res: QueueEvent) -> bool {
    match res {
        QueueEvent::Unexpected => event_set != EVENT_IN,
        QueueEvent::ReadFailed => event_set == EVENT_IN && !read,
        QueueEvent::Processed { errors, signals } => {
            event_set == EVENT_IN && read && errors@.len() == 0 && signals@.len() == 0
        },
    }
}

/// Is the file of a queue to be read on this event set?
pub fn is_input(event_set: u32) -> (res: bool)
    ensures
        res == (event_set == EVENT_IN),
{
    event_set == EVENT_IN
}

impl Snd {
    /// Deals with an event on the file of the control queue. `read` tells whether the file could
    /// be read, which is tried only where it is ready for it.
    pub fn handle_ctl_event(&mut self, event_set: u32, read: bool) -> (res: QueueEvent)
        requires
            event_set == EVENT_IN && read ==> old(self).takes_requests(),
        ensures
            control_event(*old(self), *final(self), event_set, read, res),
            res is Unexpected <==> event_set != EVENT_IN,
            res is ReadFailed <==> event_set == EVENT_IN && !read,
            match res {
                QueueEvent::Processed { errors, signals } => {
                    let have_used = signals@.len() > 0;
                    &&& Snd::requests_processed(*old(self), *final(self), have_used, errors@)
                    &&& have_used ==> signals@ == seq![
                        used_queue_signal(old(self).intc, old(self).irq_line),
                    ]
                },
                _ => *final(self) == *old(self),
            },
    {
        if !is_input(event_set) {
            return QueueEvent::Unexpected;
        }
        if !read {
            return QueueEvent::ReadFailed;
        }
        let ControlRun { have_used, errors } = self.process_ctl_queue();
        let mut signals: Vec<Signal> = Vec::new();
        if have_used {
            signals.push(self.signal_used_queue());
        }
        QueueEvent::Processed { errors, signals }
    }

    /// Deals with an event on the file of the event queue.
    pub fn handle_evt_event(&mut self, event_set: u32, read: bool) -> (res: QueueEvent)
        ensures
            idle_event(event_set, read, res),
            *final(self) == *old(self),
            res is Unexpected <==> event_set != EVENT_IN,
            res is ReadFailed <==> event_set == EVENT_IN && !read,
            res matches QueueEvent::Processed { errors, signals } ==> errors@.len() == 0
                && signals@.len() == 0,
    {
        if !is_input(event_set) {
            return QueueEvent::Unexpected;
        }
        if !read {
            return QueueEvent::ReadFailed;
        }
        let mut signals: Vec<Signal> = Vec::new();
        if self.process_evt() {
            signals.push(self.signal_used_queue());
        }
        QueueEvent::Processed { errors: Vec::new(), signals }
    }

    /// Deals with an event on the file of the transmit queue.
    pub fn handle_txq_event(&mut self, event_set: u32, read: bool) -> (res: QueueEvent)
        requires
            event_set == EVENT_IN && read ==> old(self).takes_transfers(),
        ensures
            transmit_event(*old(self), *final(self), event_set, read, res),
            res is Unexpected <==> event_set != EVENT_IN,
            res is ReadFailed <==> event_set == EVENT_IN && !read,
            match res {
                QueueEvent::Processed { errors, signals } => Snd::transfers_processed(
                    *old(self),
                    *final(self),
                    errors@,
                    signals@,
                ),
                _ => *final(self) == *old(self),
            },
    {
        if !is_input(event_set) {
            return QueueEvent::Unexpected;
        }
        if !read {
            return QueueEvent::ReadFailed;
        }
        let TransmitRun { have_used, errors, signals } = self.process_txq_queue();
        let mut signals = signals;
        if have_used {
            signals.push(self.signal_used_queue());
        }
        QueueEvent::Processed { errors, signals }
    }

    /// Deals with an event on the file of the receive queue.
    pub fn handle_rxq_event(&mut self, event_set: u32, read: bool) -> (res: QueueEvent)
        ensures
            idle_event(event_set, read, res),
            *final(self) == *old(self),
            res is Unexpected <==> event_set != EVENT_IN,
            res is ReadFailed <==> event_set == EVENT_IN && !read,
            res matches QueueEvent::Processed { errors, signals } ==> errors@.len() == 0
                && signals@.len() == 0,
    {
        if !is_input(event_set) {
            return QueueEvent::Unexpected;
        }
        if !read {
            return QueueEvent::ReadFailed;
        }
        let mut signals: Vec<Signal> = Vec::new();
        if self.process_rxq() {
            signals.push(self.signal_used_queue());
        }
        QueueEvent::Processed { errors: Vec::new(), signals }
    }

    /// The calls that an activation leads to, in the order in which they are to be made, each
    /// whether or not the ones before it failed: the files of the queues are waited for, and the
    /// file that says that the device was activated is no longer.
    pub fn handle_activate_event(&self, files: &EventFiles) -> (calls: Vec<ManagerCall>)
        ensures
            calls@ == seq![
                ManagerCall::Register(spec_input_event(files.ctl)),
                ManagerCall::Register(spec_input_event(files.evt)),
                ManagerCall::Register(spec_input_event(files.txq)),
                ManagerCall::Register(spec_input_event(files.rxq)),
                ManagerCall::Unregister(files.activate),
            ],
            calls@ == activation_calls(*files),
    {
        let mut calls: Vec<ManagerCall> = Vec::new();
        calls.push(ManagerCall::Register(input_event(files.ctl)));
        calls.push(ManagerCall::Register(input_event(files.evt)));
        calls.push(ManagerCall::Register(input_event(files.txq)));
        calls.push(ManagerCall::Register(input_event(files.rxq)));
        calls.push(ManagerCall::Unregister(files.activate));
        calls
    }

    /// Tells what an event is about, given the number of its file.
    pub fn process(&self, fd: i32, files: &EventFiles) -> (source: EventSource)
        ensures
            source == source_of(self.device_state is Activated, *files, fd),
    {
        if !self.is_activated() {
            EventSource::Spurious
        } else if fd == files.ctl {
            EventSource::Control
        } else if fd == files.evt {
            EventSource::Event
        } else if fd == files.txq {
            EventSource::Transmit
        } else if fd == files.rxq {
            EventSource::Receive
        } else if fd == files.activate {
            EventSource::Activate
        } else {
            EventSource::Unexpected
        }
    }

    /// The events to be waited for before the activation.
    pub fn interest_list(&self, files: &EventFiles) -> (events: Vec<EpollEvent>)
        ensures
            events@ == seq![spec_input_event(files.activate)],
    {
        let mut events: Vec<EpollEvent> = Vec::new();
        events.push(input_event(files.activate));
        events
    }
}

} // verus!
