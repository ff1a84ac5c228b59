//! What a frame gets from chance and from the clock: its identifier and the time
//! at which it was made.
use crate::frame::FrameId;
use vstd::prelude::*;

verus! {

/// The bits of `id` are those of a random UUID: version 4, variant `10`.
pub open spec fn is_random_uuid(id: FrameId) -> bool {
    &&& (id >> 76u32) & 0xf == 4
    &&& (id >> 62u32) & 0x3 == 2
}

/// What a frame gets from chance and from the clock.
#[derive(Clone, Copy, Debug)]
pub struct Stamp {
    pub id: FrameId,
    pub created_ms: i64,
}

impl Stamp {
    /// The identifier was drawn for the stamp and the clock read for it, and what
    /// holds of all of these holds of it.
    pub open spec fn fresh(self) -> bool {
        &&& id_drawn(self.id)
        &&& is_random_uuid(self.id)
        &&& exists|nanos: Option<u128>| #[trigger]
            clock_read(nanos) && self.created_ms == epoch_millis_spec(nanos)
        &&& self.created_ms >= 0
    }

    /// A new identifier and the current time.
    pub fn now() -> (stamp: Stamp)
        ensures
            stamp.fresh(),
    {
        let mut draws = Draws::new();
        draws.stamp()
    }
}

/// Makes stamps, and keeps record of the identifiers that were drawn for them.
///
/// Whoever makes several frames stamps each of them through the same record. So
/// each identifier in it was drawn for the one frame that has it. Two draws that
/// give the same identifier are left to chance.
pub struct Draws {
    ids: Ghost<Seq<FrameId>>,
}

impl View for Draws {
    type V = Seq<FrameId>;

    closed spec fn view(&self) -> Seq<FrameId> {
        self.ids@
    }
}

impl Draws {
    /// Nothing was drawn yet.
    #[must_use]
    pub fn new() -> (draws: Self)
        ensures
            draws@ == Seq::<FrameId>::empty(),
    {
        Draws { ids: Ghost(Seq::empty()) }
    }

    /// Draws a new identifier, and puts it on a stamp with the current time.
    pub fn stamp(&mut self) -> (stamp: Stamp)
        ensures
            stamp.fresh(),
            final(self)@ == old(self)@.push(stamp.id),
    {
        let id = new_frame_id();
        assert(id_drawn(id));
        self.ids = Ghost(self.ids@.push(id));
        Stamp { id, created_ms: now_millis() }
    }
}

/// `uuid::Uuid::new_v4`: a random UUID, taken as the 128-bit integer that
/// `as_u128` makes of it.
///
/// Which one it is rests on chance. Claimed of every one of them: the version
/// bits say 4 and the variant bits `10`, since `new_v4` sets both. It does not
/// return where the system has no randomness to give.
#[verifier::external_body]
fn new_frame_id() -> (id: FrameId)
    ensures
        is_random_uuid(id),
{
    uuid::Uuid::new_v4().as_u128()
}

/// `id` came from drawing a new identifier.
pub closed spec fn id_drawn(id: FrameId) -> bool {
    call_ensures(new_frame_id, (), id)
}

/// `std::time::SystemTime::elapsed`, of the Unix epoch: how long ago it was, in
/// nanoseconds; nothing if the clock stands before it.
///
/// The result rests on the clock, so nothing is claimed of it.
#[verifier::external_body]
fn elapsed_since_epoch() -> (nanos: Option<u128>) {
    std::time::UNIX_EPOCH.elapsed().ok().map(|d| d.as_nanos())
}

/// Whole milliseconds in `nanos`, which is nothing when the clock stands before
/// the Unix epoch: 0 then, and `i64::MAX` where they do not fit.
pub open spec fn epoch_millis_spec(nanos: Option<u128>) -> int {
    match nanos {
        None => 0,
        Some(n) => if n as int / 1_000_000 > i64::MAX {
            i64::MAX as int
        } else {
            n as int / 1_000_000
        },
    }
}

/// The whole milliseconds in what the clock gave.
pub fn epoch_millis(nanos: Option<u128>) -> (millis: i64)
    ensures
        millis == epoch_millis_spec(nanos),
{
    match nanos {
        None => 0,
        Some(n) => {
            let whole: u128 = n / 1_000_000;
            if whole > 0x7fff_ffff_ffff_ffff {
                i64::MAX
            } else {
                whole as i64
            }
        },
    }
}

/// The clock was asked how long ago the Unix epoch was, and this came back.
pub closed spec fn clock_read(nanos: Option<u128>) -> bool {
    call_ensures(elapsed_since_epoch, (), nanos)
}

/// The current time as milliseconds since the Unix epoch: the whole milliseconds
/// in what the clock gave.
pub fn now_millis() -> (millis: i64)
    ensures
        exists|nanos: Option<u128>| #[trigger]
            clock_read(nanos) && millis == epoch_millis_spec(nanos),
        millis >= 0,
{
    let nanos = elapsed_since_epoch();
    assert(clock_read(nanos));
    epoch_millis(nanos)
}

// ---- Laws ----

/// An identifier that was drawn came from the generator, and a reading of the
/// clock from the clock.
proof fn law_stamps_are_of_calls(id: FrameId, nanos: Option<u128>)
    ensures
        id_drawn(id) ==> call_ensures(new_frame_id, (), id),
        clock_read(nanos) ==> call_ensures(elapsed_since_epoch, (), nanos),
{
}

} // verus!
