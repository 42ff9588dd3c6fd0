//! Serial id generators, one per entity category, the clock and the
//! cancellation flag.

use vstd::prelude::*;
use std::sync::Arc;
use std::sync::atomic::AtomicBool;
use std::sync::atomic::Ordering;
use std::time::Duration;
use std::time::SystemTime;
use crate::entity::{
    id_of, kind_of, lemma_id_of, mask_of, prefix_bits_of, serial_of, span_of, EntityId, EntityKind,
    MASK_ENEMY, MASK_PLAYER, MASK_PROJECTILE, PREFIX_BITS_LONG_SERIAL, PREFIX_BITS_SHORT_SERIAL,
};

verus! {

/// The id that the allocation number `n`, counted from zero, returns from a
/// generator of `kind` whose counter started at `first`.
pub open spec fn nth_id(kind: EntityKind, first: u32, n: nat) -> u32 {
    id_of(kind, (first + n) as u32)
}

/// Sequential ids are distinct and tagged. Any two allocations that a
/// generator makes in a row return ids that differ, and each id carries the
/// prefix of the generator's category and lies in its id space.
pub proof fn law_sequential_ids(kind: EntityKind, first: u32, i: nat, j: nat)
    requires
        i < j,
        first + j <= u32::MAX,
        serial_of(kind, (first + i) as u32),
        serial_of(kind, (first + j) as u32),
    ensures
        nth_id(kind, first, i) != nth_id(kind, first, j),
        nth_id(kind, first, i) & prefix_bits_of(kind) == mask_of(kind),
        nth_id(kind, first, j) & prefix_bits_of(kind) == mask_of(kind),
        kind_of(nth_id(kind, first, i)) == kind,
        kind_of(nth_id(kind, first, j)) == kind,
{
    lemma_id_of(kind, (first + i) as u32);
    lemma_id_of(kind, (first + j) as u32);
}

/// Categories do not collide: an id of one category is never an id of
/// another, whatever the serials.
pub proof fn law_categories_disjoint(a: u32, kind_a: EntityKind, b: u32, kind_b: EntityKind)
    requires
        serial_of(kind_a, a),
        serial_of(kind_b, b),
        kind_a != kind_b,
    ensures
        kind_of(id_of(kind_a, a)) == kind_a,
        kind_of(id_of(kind_b, b)) == kind_b,
        id_of(kind_a, a) != id_of(kind_b, b),
{
    lemma_id_of(kind_a, a);
    lemma_id_of(kind_b, b);
}

/// A generator that is not used up hands out ids until its serials are: from
/// a counter that stands at a serial of the category, the next allocation is
/// possible, and after it the counter stands at a serial again or exactly at
/// the span of the category, where the generator is used up.
pub proof fn law_counter_stops_at_span(kind: EntityKind, serial: u32)
    requires
        serial_of(kind, serial),
    ensures
        serial < span_of(kind),
        serial + 1 <= span_of(kind),
        serial + 1 < span_of(kind) <==> serial_of(kind, (serial + 1) as u32),
{
    lemma_id_of(kind, serial);
    lemma_id_of(kind, (serial + 1) as u32);
}

/// A counter that hands out the ids of one category: consecutive serials
/// under the category's prefix. When the counter reaches a prefix bit the
/// serials are used up and no further id can be had.
pub trait SerialIdGenerator: Sized {
    /// The category of this generator.
    spec fn kind() -> EntityKind;

    /// The serial the next id will be built from.
    spec fn next_serial(&self) -> u32;

    /// A generator whose first id is built from the serial `first_id`.
    fn new(first_id: EntityId) -> (g: Self)
        ensures
            g.next_serial() == first_id.raw(),
    ;

    /// The category of this generator.
    fn category() -> (k: EntityKind)
        ensures
            k == Self::kind(),
    ;

    /// The serial the next id will be built from.
    fn peek_serial(&self) -> (s: u32)
        ensures
            s == self.next_serial(),
    ;

    /// Moves the counter on by one.
    fn advance(&mut self)
        requires
            old(self).next_serial() < u32::MAX,
        ensures
            final(self).next_serial() == old(self).next_serial() + 1,
    ;

    /// The prefix that the ids of this generator carry.
    fn mask_value() -> (m: u32)
        ensures
            m == mask_of(Self::kind()),
    {
        match Self::category() {
            EntityKind::Player => MASK_PLAYER,
            EntityKind::Enemy => MASK_ENEMY,
            EntityKind::Projectile => MASK_PROJECTILE,
        }
    }

    /// Whether the serials are used up: the counter has reached a prefix bit.
    fn is_exhausted(&self) -> (b: bool)
        ensures
            b == !serial_of(Self::kind(), self.next_serial()),
            b == (self.next_serial() >= span_of(Self::kind())),
    {
        let bits = match Self::category() {
            EntityKind::Player => PREFIX_BITS_SHORT_SERIAL,
            EntityKind::Enemy => PREFIX_BITS_SHORT_SERIAL,
            EntityKind::Projectile => PREFIX_BITS_LONG_SERIAL,
        };
        proof {
            lemma_id_of(Self::kind(), self.next_serial());
        }
        (self.peek_serial() & bits) != 0
    }

    /// Hands out the next id: the current serial under the category's
    /// prefix. The counter then stands one higher.
    fn get_next_id(&mut self) -> (id: EntityId)
        requires
            serial_of(Self::kind(), old(self).next_serial()),
        ensures
            id.raw() == id_of(Self::kind(), old(self).next_serial()),
            id.raw() == old(self).next_serial() + mask_of(Self::kind()),
            id.raw() & prefix_bits_of(Self::kind()) == mask_of(Self::kind()),
            id.spec_kind() == Self::kind(),
            final(self).next_serial() == old(self).next_serial() + 1,
    {
        let serial = self.peek_serial();
        proof {
            lemma_id_of(Self::kind(), serial);
        }
        self.advance();
        EntityId(serial | Self::mask_value())
    }
}

/// Generator of player ids (prefix `00`).
pub struct PlayerIdGenerator {
    next_id: u32,
}

/// Generator of enemy ids (prefix `01`).
pub struct EnemyIdGenerator {
    next_id: u32,
}

/// Generator of projectile ids (prefix `1x`).
pub struct ProjectileIdGenerator {
    next_id: u32,
}

impl SerialIdGenerator for PlayerIdGenerator {
    open spec fn kind() -> EntityKind {
        EntityKind::Player
    }

    closed spec fn next_serial(&self) -> u32 {
        self.next_id
    }

    fn new(first_id: EntityId) -> (g: PlayerIdGenerator) {
        PlayerIdGenerator { next_id: first_id.0 }
    }

    fn category() -> (k: EntityKind) {
        EntityKind::Player
    }

    fn peek_serial(&self) -> (s: u32) {
        self.next_id
    }

    fn advance(&mut self) {
        self.next_id = self.next_id + 1;
    }
}

impl SerialIdGenerator for EnemyIdGenerator {
    open spec fn kind() -> EntityKind {
        EntityKind::Enemy
    }

    closed spec fn next_serial(&self) -> u32 {
        self.next_id
    }

    fn new(first_id: EntityId) -> (g: EnemyIdGenerator) {
        EnemyIdGenerator { next_id: first_id.0 }
    }

    fn category() -> (k: EntityKind) {
        EntityKind::Enemy
    }

    fn peek_serial(&self) -> (s: u32) {
        self.next_id
    }

    fn advance(&mut self) {
        self.next_id = self.next_id + 1;
    }
}

impl SerialIdGenerator for ProjectileIdGenerator {
    open spec fn kind() -> EntityKind {
        EntityKind::Projectile
    }

    closed spec fn next_serial(&self) -> u32 {
        self.next_id
    }

    fn new(first_id: EntityId) -> (g: ProjectileIdGenerator) {
        ProjectileIdGenerator { next_id: first_id.0 }
    }

    fn category() -> (k: EntityKind) {
        EntityKind::Projectile
    }

    fn peek_serial(&self) -> (s: u32) {
        self.next_id
    }

    fn advance(&mut self) {
        self.next_id = self.next_id + 1;
    }
}

/// A flag that one side raises and the other polls. Returns the poll, which
/// says whether the flag has been raised, and the call that raises it. Both
/// can be called at any time and from any thread.
pub fn make_atomic_canceller() -> (pair: (impl Fn() -> bool, impl Fn() -> ()))
    ensures
        pair.0.requires(()),
        pair.1.requires(()),
{
    let cancel_flag = Arc::new(AtomicBool::new(false));
    let cancel_flag_receiver = cancel_flag.clone();
    let cancelled = move || -> (b: bool) { cancel_flag_receiver.load(Ordering::Relaxed) };
    let cancel = move || -> (u: ()) { cancel_flag.store(true, Ordering::Relaxed) };
    (cancelled, cancel)
}

/// The clock's time type. Nothing is known of a value but what the clock's
/// functions return for it.
#[verifier::external_type_specification]
#[verifier::external_body]
pub struct ExSystemTime(SystemTime);

/// `SystemTime::now`: reads the system clock. Two readings need not agree,
/// and nothing is claimed of either.
pub assume_specification[ SystemTime::now ]() -> (t: SystemTime)
;

/// `Duration::as_secs`: the whole seconds of a duration. Nothing is claimed
/// of the number.
pub assume_specification[ Duration::as_secs ](d: &Duration) -> (secs: u64)
;

/// `Duration::subsec_nanos`: the part of a duration below one second, in
/// nanoseconds, which is always less than one thousand million.
pub assume_specification[ Duration::subsec_nanos ](d: &Duration) -> (nanos: u32)
    ensures
        nanos < 1_000_000_000,
;

/// `SystemTime::duration_since`, taken from the Unix epoch: how long after
/// the epoch `t` lies, or nothing where `t` lies before it.
#[verifier::external_body]
fn since_unix_epoch(t: &SystemTime) -> (d: Option<Duration>)
{
    t.duration_since(SystemTime::UNIX_EPOCH).ok()
}

/// Seconds from the Unix epoch to the custom epoch, 2020-03-25 00:00:00 GMT.
pub const CUSTOM_EPOCH_OFFSET_SECS: u64 = 1_585_094_400;

/// Nanoseconds in one second.
pub const NANOS_PER_SEC: u32 = 1_000_000_000;

/// A length of time: whole seconds and the nanoseconds beyond them.
#[derive(Clone, Copy, Debug, PartialEq, Eq, Structural, Hash)]
pub struct TimeSpan {
    pub secs: u64,
    pub nanos: u32,
}

impl TimeSpan {
    /// The nanosecond part stays below one second.
    pub open spec fn wf(self) -> bool {
        self.nanos < NANOS_PER_SEC
    }

    /// The whole length in nanoseconds.
    pub open spec fn total_nanos(self) -> nat {
        (self.secs * NANOS_PER_SEC + self.nanos) as nat
    }

    /// The whole milliseconds of the length.
    pub open spec fn total_millis(self) -> nat {
        (self.secs * 1000 + self.nanos / 1_000_000) as nat
    }

    /// The length in whole milliseconds.
    pub fn as_millis(&self) -> (ms: u128)
        ensures
            ms == self.total_millis(),
    {
        let secs: u128 = self.secs as u128;
        let sub: u128 = (self.nanos / 1_000_000) as u128;
        secs * 1000 + sub
    }

    /// The length in nanoseconds.
    pub fn as_nanos(&self) -> (ns: u128)
        ensures
            ns == self.total_nanos(),
    {
        let secs: u128 = self.secs as u128;
        let sub: u128 = self.nanos as u128;
        secs * 1_000_000_000 + sub
    }
}

/// The time from the custom epoch to the instant that lies `unix` after the
/// Unix epoch, or nothing for an instant before the custom epoch.
pub open spec fn spec_since_custom_epoch(unix: TimeSpan) -> Option<TimeSpan> {
    if unix.secs >= CUSTOM_EPOCH_OFFSET_SECS {
        Some(TimeSpan { secs: (unix.secs - CUSTOM_EPOCH_OFFSET_SECS) as u64, nanos: unix.nanos })
    } else {
        None
    }
}

/// Moves a reading of the clock from the Unix epoch to the custom epoch.
pub fn since_custom_epoch(unix: TimeSpan) -> (r: Option<TimeSpan>)
    ensures
        r == spec_since_custom_epoch(unix),
        r matches Some(t) ==> (unix.wf() ==> t.wf()) && t.total_nanos() + CUSTOM_EPOCH_OFFSET_SECS
            * NANOS_PER_SEC == unix.total_nanos(),
{
    if unix.secs >= CUSTOM_EPOCH_OFFSET_SECS {
        Some(TimeSpan { secs: unix.secs - CUSTOM_EPOCH_OFFSET_SECS, nanos: unix.nanos })
    } else {
        None
    }
}

/// A length in nanoseconds cut to 64 bits, which hold about 584 years.
pub fn wrapped_nanos(span: TimeSpan) -> (ns: u64)
    ensures
        ns == span.total_nanos() % 0x1_0000_0000_0000_0000,
{
    let total: u128 = span.as_nanos();
    (total % 0x1_0000_0000_0000_0000u128) as u64
}

/// The time since the Unix epoch by the system clock, or nothing if the
/// clock stands before the epoch.
pub fn unix_time() -> (r: Option<TimeSpan>)
    ensures
        r matches Some(t) ==> t.wf(),
{
    let now = SystemTime::now();
    match since_unix_epoch(&now) {
        Some(d) => Some(TimeSpan { secs: d.as_secs(), nanos: d.subsec_nanos() }),
        None => None,
    }
}

/// The time since the custom epoch by the system clock, or nothing if the
/// clock stands before that epoch. It is a time since the Unix epoch moved
/// back by the offset of the custom epoch, so with the offset put back its
/// seconds still fit 64 bits.
pub fn custom_time() -> (r: Option<TimeSpan>)
    ensures
        r matches Some(t) ==> t.wf() && t.secs + CUSTOM_EPOCH_OFFSET_SECS <= u64::MAX,
{
    match unix_time() {
        Some(unix) => since_custom_epoch(unix),
        None => None,
    }
}

/// The nanoseconds since the custom epoch by the system clock, cut to 64
/// bits, or nothing if the clock stands before that epoch.
pub fn custom_time_ns() -> (r: Option<u64>)
{
    match custom_time() {
        Some(t) => Some(wrapped_nanos(t)),
        None => None,
    }
}

} // verus!
