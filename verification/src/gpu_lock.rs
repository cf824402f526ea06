//! An exclusive, lease-based lock for GPU-heavy work other than inference.
//!
//! It knows nothing of KV-cache slots: no hints, no several holders, no
//! seeding. Waiters are treated as the slot scheduler treats its own: a wake
//! signal hands nothing over, every waiter is woken when the lock becomes
//! free, and each attempts again for itself. Unlike a slot's holder, a lease
//! holder is not tied to a connection, so a lease that is held for too long
//! can be reaped.
//!
//! Points in time are nanoseconds since some fixed moment of the process.
use crate::wake::drain_into;
use std::collections::VecDeque;
use tokio::sync::oneshot;
use vstd::arithmetic::power::pow;
use vstd::prelude::*;

verus! {

/// Names one holding of the lock.
#[derive(Debug, Clone, Copy, PartialEq, Eq, Structural)]
pub struct LeaseId(u128);

#[derive(Debug, Clone, Copy, PartialEq, Eq, Structural)]
pub enum GpuLockError {
    Timeout,
    UnknownLease,
}

/// What happened to a caller that wants the lock.
#[derive(Debug)]
pub enum AcquireEvent {
    /// It asks for the lock, for the first time or after a wake signal.
    Attempt { waiter: oneshot::Sender<()>, now: u128 },
    /// Its deadline passed, or its wake signal was dropped unsent.
    Expired,
}

/// What the caller has to do next.
#[derive(Debug, Clone, Copy, PartialEq, Eq, Structural)]
pub enum AcquireStep {
    Granted(LeaseId),
    /// The caller is queued: it waits for its wake signal and attempts again.
    Queued,
    Failed(GpuLockError),
}

/// A lease that was taken away from its holder.
#[derive(Debug)]
pub struct Reaped {
    pub lease: LeaseId,
    pub held_for: u128,
    pub woken: Vec<oneshot::Sender<()>>,
}

#[derive(Debug, Clone, Copy, PartialEq, Eq, Structural)]
struct Held {
    lease: LeaseId,
    acquired_at: u128,
}

pub struct GpuLock {
    held: Option<Held>,
    waiters: VecDeque<oneshot::Sender<()>>,
    max_hold: u128,
}

// ---------------------------------------------------------------------------
// Lease ids
// ---------------------------------------------------------------------------

/// What a hexadecimal digit of either case is worth.
pub open spec fn hex_value(c: char) -> Option<nat> {
    if '0' as int <= c as int <= '9' as int {
        Some((c as int - '0' as int) as nat)
    } else if 'a' as int <= c as int <= 'f' as int {
        Some((c as int - 'a' as int + 10) as nat)
    } else if 'A' as int <= c as int <= 'F' as int {
        Some((c as int - 'A' as int + 10) as nat)
    } else {
        None
    }
}

/// What a string of hexadecimal digits is worth.
pub open spec fn hex_number(digits: Seq<char>) -> nat
    decreases digits.len(),
{
    if digits.len() == 0 {
        0
    } else {
        hex_number(digits.drop_last()) * 16 + hex_value(digits.last())->0
    }
}

/// The plain form of a UUID: 32 hexadecimal digits.
pub open spec fn plain_uuid(s: Seq<char>) -> Option<u128> {
    if s.len() == 32 && forall|i: int| 0 <= i < 32 ==> hex_value(#[trigger] s[i]) is Some {
        Some(hex_number(s) as u128)
    } else {
        None
    }
}

/// The hyphenated form, of digits in either case.
pub open spec fn hyphenated_uuid(s: Seq<char>) -> Option<u128> {
    if s.len() == 36 && s[8] == '-' && s[13] == '-' && s[18] == '-' && s[23] == '-' {
        plain_uuid(
            s.subrange(0, 8) + s.subrange(9, 13) + s.subrange(14, 18) + s.subrange(19, 23)
                + s.subrange(24, 36),
        )
    } else {
        None
    }
}

/// `s` starts with `prefix`, whatever the case of its ASCII letters.
pub open spec fn starts_with_in_any_case(s: Seq<char>, prefix: Seq<char>) -> bool {
    &&& prefix.len() <= s.len()
    &&& forall|i: int|
        0 <= i < prefix.len() ==> (#[trigger] s[i] == prefix[i] || 'A' as int <= s[i] as int
            <= 'Z' as int && s[i] as int + 32 == prefix[i] as int)
}

/// The UUID that a text stands for in one of four forms: plain, hyphenated, in
/// braces, or as a URN.
pub open spec fn uuid_of_text(text: Seq<char>) -> Option<u128> {
    if text.len() == 32 {
        plain_uuid(text)
    } else if text.len() == 36 {
        hyphenated_uuid(text)
    } else if text.len() == 38 && text[0] == '{' && text[37] == '}' {
        hyphenated_uuid(text.subrange(1, 37))
    } else if text.len() == 45 && starts_with_in_any_case(text, "urn:uuid:"@) {
        hyphenated_uuid(text.subrange(9, 45))
    } else {
        None
    }
}

/// The digit of `v` at place `k`, counted from the left of 32 hexadecimal
/// digits, in lower case.
pub open spec fn hex_digit(v: u128, k: int) -> char {
    let d = (v as int / pow(16, (31 - k) as nat)) % 16;
    if d < 10 {
        ('0' as int + d) as char
    } else {
        ('a' as int + d - 10) as char
    }
}

/// The hyphenated form of a UUID: groups of 8, 4, 4, 4 and 12 digits.
pub open spec fn hyphenated(v: u128) -> Seq<char> {
    Seq::new(
        36,
        |i: int|
            if i == 8 || i == 13 || i == 18 || i == 23 {
                '-'
            } else if i < 8 {
                hex_digit(v, i)
            } else if i < 13 {
                hex_digit(v, i - 1)
            } else if i < 18 {
                hex_digit(v, i - 2)
            } else if i < 23 {
                hex_digit(v, i - 3)
            } else {
                hex_digit(v, i - 4)
            },
    )
}

/// The version field says 4 (random) and the variant field RFC 9562.
pub open spec fn is_random_uuid(v: u128) -> bool {
    &&& (v as int / pow(2, 76)) % 16 == 4
    &&& (v as int / pow(2, 62)) % 4 == 2
}

/// Calls `uuid::Uuid::new_v4`: some random UUID, of which only the version and
/// the variant are fixed. The call panics if the operating system has no
/// random numbers to give.
#[verifier::external_body]
fn random_uuid() -> (r: u128)
    ensures
        is_random_uuid(r),
{
    uuid::Uuid::new_v4().as_u128()
}

/// Calls `uuid::Uuid::parse_str`, which reads the four forms and nothing else.
#[verifier::external_body]
fn parse_uuid(text: &str) -> (r: Option<u128>)
    ensures
        r == uuid_of_text(text@),
{
    match uuid::Uuid::parse_str(text) {
        Ok(uuid) => Some(uuid.as_u128()),
        Err(_) => None,
    }
}

/// Calls `to_string` of `uuid::Uuid`, whose `Display` writes the hyphenated
/// form in lower case.
#[verifier::external_body]
fn uuid_text(v: u128) -> (r: String)
    ensures
        r@ == hyphenated(v),
{
    uuid::Uuid::from_u128(v).to_string()
}

/// A call for a random UUID gave this one.
pub closed spec fn was_drawn(v: u128) -> bool {
    call_ensures(random_uuid, (), v)
}

impl View for LeaseId {
    type V = u128;

    closed spec fn view(&self) -> u128 {
        self.0
    }
}

impl vstd::std_specs::convert::FromSpecImpl<u128> for LeaseId {
    open spec fn obeys_from_spec() -> bool {
        true
    }

    closed spec fn from_spec(uuid: u128) -> Self {
        LeaseId(uuid)
    }
}

impl From<u128> for LeaseId {
    /// The lease that is named by this UUID value.
    fn from(uuid: u128) -> (r: Self)
        ensures
            r@ == uuid,
    {
        LeaseId(uuid)
    }
}

impl LeaseId {
    /// A fresh lease id.
    fn new() -> (r: Self)
        ensures
            was_drawn(r@),
            is_random_uuid(r@),
    {
        LeaseId(random_uuid())
    }

    /// The lease that a text names, or `None` if the text is no UUID.
    pub fn parse(text: &str) -> (r: Option<LeaseId>)
        ensures
            match r {
                Some(lease) => uuid_of_text(text@) == Some(lease@),
                None => uuid_of_text(text@) is None,
            },
    {
        match parse_uuid(text) {
            Some(uuid) => Some(LeaseId(uuid)),
            None => None,
        }
    }

    /// The lease id as clients see it.
    pub fn to_text(&self) -> (r: String)
        ensures
            r@ == hyphenated(self@),
    {
        uuid_text(self.0)
    }
}

// ---------------------------------------------------------------------------
// The lock
// ---------------------------------------------------------------------------

pub ghost struct HeldView {
    pub lease: u128,
    pub acquired_at: nat,
}

/// The lock as plain data.
#[verifier::ext_equal]
pub ghost struct GpuLockView {
    pub held: Option<HeldView>,
    pub queue: Seq<oneshot::Sender<()>>,
    pub max_hold: nat,
}

impl GpuLockView {
    /// Held under exactly this lease.
    pub open spec fn held_by(self, lease: u128) -> bool {
        self.held matches Some(h) && h.lease == lease
    }

    /// Held for longer than allowed, seen at `now`.
    pub open spec fn overdue(self, now: nat) -> bool {
        self.held matches Some(h) && now - h.acquired_at > self.max_hold
    }

    pub open spec fn granted(self, lease: u128, now: nat) -> GpuLockView {
        GpuLockView { held: Some(HeldView { lease, acquired_at: now }), ..self }
    }

    pub open spec fn enqueue(self, waiter: oneshot::Sender<()>) -> GpuLockView {
        GpuLockView { queue: self.queue.push(waiter), ..self }
    }

    /// Free, with nobody left waiting.
    pub open spec fn freed(self) -> GpuLockView {
        GpuLockView { held: None, queue: Seq::empty(), ..self }
    }
}

impl GpuLockError {
    /// The error as it is shown to clients.
    pub fn message(&self) -> (r: String)
        ensures
            r@ == match *self {
                GpuLockError::Timeout => "timed out waiting for the GPU lock"@,
                GpuLockError::UnknownLease => "lease not found, already released, or expired"@,
            },
    {
        match self {
            GpuLockError::Timeout => String::from_str("timed out waiting for the GPU lock"),
            GpuLockError::UnknownLease => String::from_str(
                "lease not found, already released, or expired",
            ),
        }
    }
}

impl View for GpuLock {
    type V = GpuLockView;

    closed spec fn view(&self) -> GpuLockView {
        GpuLockView {
            held: match self.held {
                Some(h) => Some(HeldView { lease: h.lease@, acquired_at: h.acquired_at as nat }),
                None => None,
            },
            queue: self.waiters@,
            max_hold: self.max_hold as nat,
        }
    }
}

impl GpuLock {
    /// A free lock whose leases may be held for `max_hold` nanoseconds.
    pub fn new(max_hold: u128) -> (r: Self)
        ensures
            r@ == (GpuLockView { held: None, queue: Seq::empty(), max_hold: max_hold as nat }),
    {
        GpuLock { held: None, waiters: VecDeque::new(), max_hold }
    }

    /// Grants the lock under the given lease, unless it is held.
    pub fn grant(&mut self, lease: LeaseId, now: u128) -> (r: bool)
        ensures
            r == (old(self)@.held is None),
            final(self)@ == (if r {
                old(self)@.granted(lease@, now as nat)
            } else {
                old(self)@
            }),
    {
        if self.held.is_some() {
            return false;
        }
        self.held = Some(Held { lease, acquired_at: now });
        true
    }

    /// One step of a caller that wants the lock.
    ///
    /// An attempt either gets the lock, under a fresh lease, or queues the
    /// caller. A wake signal grants nothing: the woken caller attempts again,
    /// against whatever the state is by then, so a signal to a caller that is
    /// gone does no harm.
    pub fn acquire(&mut self, event: AcquireEvent) -> (r: AcquireStep)
        ensures
            match event {
                AcquireEvent::Attempt { waiter, now } => if old(self)@.held is None {
                    &&& r matches AcquireStep::Granted(lease)
                    &&& was_drawn(lease@)
                    &&& is_random_uuid(lease@)
                    &&& final(self)@ == old(self)@.granted(lease@, now as nat)
                } else {
                    &&& r == AcquireStep::Queued
                    &&& final(self)@ == old(self)@.enqueue(waiter)
                },
                AcquireEvent::Expired => {
                    &&& r == AcquireStep::Failed(GpuLockError::Timeout)
                    &&& final(self)@ == old(self)@
                },
            },
    {
        match event {
            AcquireEvent::Attempt { waiter, now } => {
                if self.held.is_none() {
                    let lease = LeaseId::new();
                    self.grant(lease, now);
                    return AcquireStep::Granted(lease);
                }
                self.waiters.push_back(waiter);
                AcquireStep::Queued
            },
            AcquireEvent::Expired => AcquireStep::Failed(GpuLockError::Timeout),
        }
    }

    /// Frees the lock and takes everyone out of the queue.
    fn free(&mut self) -> (woken: Vec<oneshot::Sender<()>>)
        ensures
            final(self)@ == old(self)@.freed(),
            woken@ == old(self)@.queue,
    {
        self.held = None;
        let mut woken: Vec<oneshot::Sender<()>> = Vec::new();
        drain_into(&mut self.waiters, &mut woken);
        assert(woken@ =~= old(self)@.queue);
        woken
    }

    /// Releases `lease`, and hands back everyone who has to be woken for it.
    /// A lease that is not the current holder's (released already, reaped, or
    /// never issued) is an error and changes nothing.
    pub fn release(&mut self, lease: LeaseId) -> (r: Result<
        Vec<oneshot::Sender<()>>,
        GpuLockError,
    >)
        ensures
            match r {
                Ok(woken) => {
                    &&& old(self)@.held_by(lease@)
                    &&& final(self)@ == old(self)@.freed()
                    &&& woken@ == old(self)@.queue
                },
                Err(e) => {
                    &&& !old(self)@.held_by(lease@)
                    &&& e == GpuLockError::UnknownLease
                    &&& final(self)@ == old(self)@
                },
            },
    {
        let current = match &self.held {
            Some(h) => h.lease == lease,
            None => false,
        };
        if current {
            Ok(self.free())
        } else {
            Err(GpuLockError::UnknownLease)
        }
    }

    /// Frees the lock if its holder has had it for longer than allowed: the
    /// safety valve against a client that crashed or went away without a
    /// release. Says whose lease was taken and who has to be woken for it.
    pub fn reap_expired(&mut self, now: u128) -> (r: Option<Reaped>)
        ensures
            match r {
                Some(reaped) => {
                    &&& old(self)@.overdue(now as nat)
                    &&& final(self)@ == old(self)@.freed()
                    &&& reaped.lease@ == old(self)@.held->0.lease
                    &&& reaped.held_for == now - old(self)@.held->0.acquired_at
                    &&& reaped.woken@ == old(self)@.queue
                },
                None => {
                    &&& !old(self)@.overdue(now as nat)
                    &&& final(self)@ == old(self)@
                },
            },
    {
        match self.held {
            Some(h) => {
                let held_for: u128 = if now > h.acquired_at {
                    now - h.acquired_at
                } else {
                    0
                };
                if held_for > self.max_hold {
                    let woken = self.free();
                    Some(Reaped { lease: h.lease, held_for, woken })
                } else {
                    None
                }
            },
            None => None,
        }
    }

    pub fn is_held(&self) -> (r: bool)
        ensures
            r == (self@.held is Some),
    {
        self.held.is_some()
    }
}

/// A lease counts as drawn only if the random UUIDs gave it.
proof fn law_only_a_random_uuid_is_drawn(v: u128)
    ensures
        was_drawn(v) ==> call_ensures(random_uuid, (), v),
{
}

} // verus!
