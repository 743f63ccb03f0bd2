//! The limits a deployment sets: ledger capacity, idle bounds, sweep period.
use vstd::prelude::*;

verus! {

/// The configured limits. Idle bounds are in seconds, the sweep period in
/// milliseconds.
#[derive(Clone, Copy, Debug)]
pub struct Config {
    /// How often the idle sweep runs, in milliseconds.
    pub cleanup_poll_frequency: u64,
    /// How many messages a room's ledger keeps.
    pub max_messages: usize,
    /// How long a visitor outside an active room may stay silent, in seconds.
    pub max_idle_outside: u64,
    /// How long a visitor inside an active room may stay silent, in seconds.
    pub max_idle_inside: u64,
}

impl Config {
    /// Every limit is positive.
    pub open spec fn valid(self) -> bool {
        &&& self.cleanup_poll_frequency > 0
        &&& self.max_messages > 0
        &&& self.max_idle_outside > 0
        &&& self.max_idle_inside > 0
    }

    /// The idle bound outside an active room, in milliseconds.
    pub open spec fn outside_ms(self) -> nat {
        (self.max_idle_outside * 1_000) as nat
    }

    /// The idle bound inside an active room, in milliseconds.
    pub open spec fn inside_ms(self) -> nat {
        (self.max_idle_inside * 1_000) as nat
    }

    /// The limits used where nothing else is configured: a sweep every five
    /// seconds, a hundred messages per room, twenty seconds of silence outside
    /// an active room and five minutes inside one.
    pub open spec fn standard() -> Config {
        Config {
            cleanup_poll_frequency: 5_000,
            max_messages: 100,
            max_idle_outside: 20,
            max_idle_inside: 300,
        }
    }

    /// The limits as given, or `None` where one of them is zero.
    pub fn new(
        cleanup_poll_frequency: u64,
        max_messages: usize,
        max_idle_outside: u64,
        max_idle_inside: u64,
    ) -> (config: Option<Config>)
        ensures
            config == if (Config {
                cleanup_poll_frequency,
                max_messages,
                max_idle_outside,
                max_idle_inside,
            }).valid() {
                Some(
                    Config {
                        cleanup_poll_frequency,
                        max_messages,
                        max_idle_outside,
                        max_idle_inside,
                    },
                )
            } else {
                None
            },
    {
        if cleanup_poll_frequency > 0 && max_messages > 0 && max_idle_outside > 0
            && max_idle_inside > 0 {
            Some(Config { cleanup_poll_frequency, max_messages, max_idle_outside, max_idle_inside })
        } else {
            None
        }
    }

    /// Whether every limit is positive.
    pub fn is_valid(&self) -> (ok: bool)
        ensures
            ok == self.valid(),
    {
        self.cleanup_poll_frequency > 0 && self.max_messages > 0 && self.max_idle_outside > 0
            && self.max_idle_inside > 0
    }

    /// Whether `idle` milliseconds of silence exceed the bound outside an active room.
    pub fn stale_outside(&self, idle: u64) -> (stale: bool)
        ensures
            stale == (idle > self.outside_ms()),
    {
        exceeds(idle, self.max_idle_outside)
    }

    /// Whether `idle` milliseconds of silence exceed the bound inside an active room.
    pub fn stale_inside(&self, idle: u64) -> (stale: bool)
        ensures
            stale == (idle > self.inside_ms()),
    {
        exceeds(idle, self.max_idle_inside)
    }
}

impl Default for Config {
    /// The standard limits.
    fn default() -> (config: Config)
        ensures
            config == Config::standard(),
            config.valid(),
    {
        Config {
            cleanup_poll_frequency: 5_000,
            max_messages: 100,
            max_idle_outside: 20,
            max_idle_inside: 300,
        }
    }
}

/// Whether `millis` milliseconds are more than `seconds` seconds.
fn exceeds(millis: u64, seconds: u64) -> (more: bool)
    ensures
        more == (millis > seconds * 1_000),
{
    let whole: u64 = millis / 1_000;
    let rest: u64 = millis % 1_000;
    whole > seconds || (whole == seconds && rest > 0)
}

} // verus!
