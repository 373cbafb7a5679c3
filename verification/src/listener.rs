//! The invalidation listener: what to do with each thing that the
//! notification channel reports.
//!
//! The channel names arenas that have changed. Delivery is best effort:
//! messages may be lost or repeated, and the link may go down. The listener
//! turns each message into an invalidation and each loss of the link into a
//! retry after a bounded, growing delay. It never gives up and never fails:
//! while the link is down, snapshots merely age.

use crate::arena::ArenaId;
use crate::error::Error;
use vstd::prelude::*;

verus! {

/// How long to wait before trying to reach the channel again: `base` when an
/// established link is lost, twice the delay before after each attempt that
/// fails, never more than `cap`.
#[derive(Debug, Clone, Copy, PartialEq, Eq, Structural)]
pub struct Backoff {
    pub base: u64,
    pub cap: u64,
}

/// The delay before the next attempt, after `failures` attempts in a row have
/// failed.
pub open spec fn backoff_delay(base: u64, cap: u64, failures: nat) -> nat
    decreases failures,
{
    if failures == 0 {
        if base <= cap {
            base as nat
        } else {
            cap as nat
        }
    } else {
        let before = backoff_delay(base, cap, (failures - 1) as nat);
        if 2 * before <= cap {
            2 * before
        } else {
            cap as nat
        }
    }
}

/// The delay never exceeds the cap, and never shrinks from one failed attempt
/// to the next.
pub proof fn lemma_backoff_bounded(base: u64, cap: u64, failures: nat)
    ensures
        backoff_delay(base, cap, failures) <= cap,
        backoff_delay(base, cap, failures) <= backoff_delay(base, cap, failures + 1),
    decreases failures,
{
    if failures > 0 {
        lemma_backoff_bounded(base, cap, (failures - 1) as nat);
    }
}

/// Once the delay has reached the cap, or is zero, it stays there.
proof fn lemma_backoff_settles(base: u64, cap: u64, reached: nat, failures: nat)
    requires
        reached <= failures,
        backoff_delay(base, cap, reached) == cap || backoff_delay(base, cap, reached) == 0,
    ensures
        backoff_delay(base, cap, failures) == backoff_delay(base, cap, reached),
    decreases failures - reached,
{
    if reached < failures {
        lemma_backoff_settles(base, cap, reached, (failures - 1) as nat);
    }
}

impl Backoff {
    /// The delay before the next attempt, after `failures` attempts in a row
    /// have failed.
    pub fn delay(&self, failures: u32) -> (delay: u64)
        ensures
            delay == backoff_delay(self.base, self.cap, failures as nat),
            delay <= self.cap,
    {
        let mut delay: u64 = if self.base <= self.cap {
            self.base
        } else {
            self.cap
        };
        let mut counted: u32 = 0;
        while counted < failures
            invariant
                counted <= failures,
                delay == backoff_delay(self.base, self.cap, counted as nat),
                delay <= self.cap,
            decreases failures - counted,
        {
            if delay == 0 || delay == self.cap {
                proof {
                    lemma_backoff_settles(self.base, self.cap, counted as nat, failures as nat);
                }
                return delay;
            }
            delay = if delay <= self.cap / 2 {
                2 * delay
            } else {
                self.cap
            };
            counted = counted + 1;
        }
        delay
    }
}

/// The state of the link to the notification channel.
#[derive(Debug, Clone, Copy, PartialEq, Eq, Structural)]
pub enum Link {
    /// Connected and listening.
    Up,
    /// Not connected. `failures` attempts to connect have failed since the
    /// link was last up, or since the listener was made.
    Down { failures: u32 },
}

/// What the channel reports.
pub enum Signal {
    /// The link is established.
    Connected,
    /// A message arrived; it names the arena that changed.
    Message(String),
    /// The link was lost, or an attempt to establish it failed.
    Disconnected,
}

/// What the listener's caller has to do next.
pub enum Command {
    /// Keep listening.
    Listen,
    /// Invalidate this arena in the cache, and keep listening.
    Invalidate(ArenaId),
    /// Wait for `delay`, then try to establish the link again.
    Retry { delay: u64 },
}

/// The link after `signal`.
pub open spec fn link_after(link: Link, signal: Signal) -> Link {
    match signal {
        Signal::Connected => Link::Up,
        Signal::Message(_) => link,
        Signal::Disconnected => match link {
            Link::Up => Link::Down { failures: 0 },
            Link::Down { failures } => Link::Down {
                failures: if failures < u32::MAX {
                    (failures + 1) as u32
                } else {
                    failures
                },
            },
        },
    }
}

/// Whether `command` is the answer to `signal` on `link` under `backoff`.
pub open spec fn answers(backoff: Backoff, link: Link, signal: Signal, command: Command) -> bool {
    match signal {
        Signal::Connected => command is Listen,
        Signal::Message(arena) => command matches Command::Invalidate(id) && id@ == arena@,
        Signal::Disconnected => command matches Command::Retry { delay } && link_after(
            link,
            signal,
        ) matches Link::Down { failures } && delay == backoff_delay(
            backoff.base,
            backoff.cap,
            failures as nat,
        ),
    }
}

/// The mathematical content of a [`Listener`].
pub ghost struct ListenerView {
    pub backoff: Backoff,
    pub link: Link,
}

/// The invalidation listener.
pub struct Listener {
    backoff: Backoff,
    link: Link,
}

impl View for Listener {
    type V = ListenerView;

    closed spec fn view(&self) -> ListenerView {
        ListenerView { backoff: self.backoff, link: self.link }
    }
}

impl Listener {
    /// A listener that is not connected yet.
    pub fn new(backoff: Backoff) -> (listener: Listener)
        ensures
            listener@ == (ListenerView { backoff: backoff, link: Link::Down { failures: 0 } }),
    {
        Listener { backoff, link: Link::Down { failures: 0 } }
    }

    /// The state of the link.
    pub fn link(&self) -> (link: Link)
        ensures
            link == self@.link,
    {
        self.link
    }

    /// Takes one report of the channel and says what to do next. A message
    /// invalidates the arena it names. A lost link or a failed attempt asks for
    /// another attempt after the backoff delay, which never exceeds the cap.
    pub fn on_signal(&mut self, signal: Signal) -> (command: Command)
        ensures
            final(self)@ == (ListenerView {
                backoff: old(self)@.backoff,
                link: link_after(old(self)@.link, signal),
            }),
            answers(old(self)@.backoff, old(self)@.link, signal, command),
            command matches Command::Retry { delay } ==> delay <= old(self)@.backoff.cap,
    {
        match signal {
            Signal::Connected => {
                self.link = Link::Up;
                Command::Listen
            },
            Signal::Message(arena) => Command::Invalidate(ArenaId(arena)),
            Signal::Disconnected => {
                let failures: u32 = match self.link {
                    Link::Up => 0,
                    Link::Down { failures } => if failures < u32::MAX {
                        failures + 1
                    } else {
                        failures
                    },
                };
                self.link = Link::Down { failures };
                Command::Retry { delay: self.backoff.delay(failures) }
            },
        }
    }

    /// Whether the link is up. While it is down, freshness is degraded, and
    /// nothing else: this failure is never passed on to a reader.
    pub fn status(&self) -> (status: Result<(), Error>)
        ensures
            status is Ok <==> self@.link is Up,
            status matches Err(e) ==> e == Error::ChannelDisconnected,
    {
        match self.link {
            Link::Up => Ok(()),
            Link::Down { .. } => Err(Error::ChannelDisconnected),
        }
    }
}

} // verus!
