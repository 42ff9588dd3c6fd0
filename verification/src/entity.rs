//! Entity identifiers: a category prefix in the high bits above a serial number.

use vstd::prelude::*;

verus! {

/// Width of the identifier space in bits.
pub const ENTITY_ID_BITS: u32 = 32;

/// Category prefix of player ids: high bits `00`.
pub const MASK_PLAYER: u32 = 0x0000_0000;

/// Category prefix of enemy ids: high bits `01`.
pub const MASK_ENEMY: u32 = 0x4000_0000;

/// Category prefix of projectile ids: high bits `1x`, where the second bit
/// belongs to the serial number.
pub const MASK_PROJECTILE: u32 = 0x8000_0000;

/// The bits that tell players and enemies from the rest: the two highest.
pub const PREFIX_BITS_SHORT_SERIAL: u32 = 0xC000_0000;

/// The bit that tells projectiles from the rest: the highest.
pub const PREFIX_BITS_LONG_SERIAL: u32 = 0x8000_0000;

/// The category an identifier belongs to, read off its high bits.
#[derive(Clone, Copy, Debug, PartialEq, Eq, Structural, Hash)]
pub enum EntityKind {
    Player,
    Enemy,
    Projectile,
}

/// A tagged entity identifier.
#[derive(Clone, Copy, Debug, PartialEq, Eq, Structural, Hash)]
pub struct EntityId(pub u32);

/// The category whose id space holds `raw`: players own `[0, 2^30)`, enemies
/// `[2^30, 2^31)` and projectiles `[2^31, 2^32)`.
pub open spec fn kind_of(raw: u32) -> EntityKind {
    if raw < MASK_ENEMY {
        EntityKind::Player
    } else if raw < MASK_PROJECTILE {
        EntityKind::Enemy
    } else {
        EntityKind::Projectile
    }
}

/// The prefix that ids of `kind` carry.
pub open spec fn mask_of(kind: EntityKind) -> u32 {
    match kind {
        EntityKind::Player => MASK_PLAYER,
        EntityKind::Enemy => MASK_ENEMY,
        EntityKind::Projectile => MASK_PROJECTILE,
    }
}

/// The bits of an id of `kind` that hold its prefix and that its serial may
/// therefore never reach.
pub open spec fn prefix_bits_of(kind: EntityKind) -> u32 {
    match kind {
        EntityKind::Player => PREFIX_BITS_SHORT_SERIAL,
        EntityKind::Enemy => PREFIX_BITS_SHORT_SERIAL,
        EntityKind::Projectile => PREFIX_BITS_LONG_SERIAL,
    }
}

/// Number of serials that `kind` has: `2^30` for players and for enemies,
/// `2^31` for projectiles.
pub open spec fn span_of(kind: EntityKind) -> int {
    match kind {
        EntityKind::Player => 0x4000_0000,
        EntityKind::Enemy => 0x4000_0000,
        EntityKind::Projectile => 0x8000_0000,
    }
}

/// A serial number with the category prefix `mask` laid over it.
pub open spec fn tagged(serial: u32, mask: u32) -> u32 {
    serial | mask
}

/// Whether `serial` keeps clear of every bit of `bits`.
pub open spec fn clear_of(serial: u32, bits: u32) -> bool {
    serial & bits == 0
}

/// Whether `serial` is a serial of `kind`: it keeps clear of the prefix bits.
pub open spec fn serial_of(kind: EntityKind, serial: u32) -> bool {
    clear_of(serial, prefix_bits_of(kind))
}

/// The id of `kind` with the serial `serial`.
pub open spec fn id_of(kind: EntityKind, serial: u32) -> u32 {
    tagged(serial, mask_of(kind))
}

impl EntityId {
    /// The raw integer behind the identifier.
    pub open spec fn raw(self) -> u32 {
        self.0
    }

    /// The category of this identifier.
    pub open spec fn spec_kind(self) -> EntityKind {
        kind_of(self.0)
    }

    /// Reads the category off the high bits.
    pub fn kind(id: EntityId) -> (k: EntityKind)
        ensures
            k == id.spec_kind(),
    {
        let raw: u32 = id.0;
        assert((raw & 0x8000_0000u32 != 0) <==> raw >= 0x8000_0000u32) by (bit_vector);
        assert((raw & 0xC000_0000u32 == 0) <==> raw < 0x4000_0000u32) by (bit_vector);
        if raw & PREFIX_BITS_LONG_SERIAL != 0 {
            EntityKind::Projectile
        } else if raw & PREFIX_BITS_SHORT_SERIAL == 0 {
            EntityKind::Player
        } else {
            EntityKind::Enemy
        }
    }

    /// Whether the identifier lies in the player id space.
    pub fn is_player(id: EntityId) -> (b: bool)
        ensures
            b == (id.spec_kind() == EntityKind::Player),
            b == (id.raw() < MASK_ENEMY),
    {
        let raw: u32 = id.0;
        assert((raw & 0xC000_0000u32 == 0) <==> raw < 0x4000_0000u32) by (bit_vector);
        raw & PREFIX_BITS_SHORT_SERIAL == 0
    }
}

/// The serials of a category are the numbers below its span. Tagging one
/// adds the prefix to it, the prefix can be read back from the id, and the id
/// lies in the id space of the category.
pub proof fn lemma_id_of(kind: EntityKind, serial: u32)
    ensures
        serial_of(kind, serial) <==> serial < span_of(kind),
        serial_of(kind, serial) ==> {
            &&& id_of(kind, serial) == serial + mask_of(kind)
            &&& id_of(kind, serial) & prefix_bits_of(kind) == mask_of(kind)
            &&& kind_of(id_of(kind, serial)) == kind
        },
{
    assert(serial & 0xC000_0000u32 == 0 <==> serial < 0x4000_0000u32) by (bit_vector);
    assert(serial & 0x8000_0000u32 == 0 <==> serial < 0x8000_0000u32) by (bit_vector);
    assert(serial & 0xC000_0000u32 == 0 ==> (serial | 0u32) == serial && (serial | 0u32)
        & 0xC000_0000u32 == 0) by (bit_vector);
    assert(serial & 0xC000_0000u32 == 0 ==> (serial | 0x4000_0000u32) == serial + 0x4000_0000u32
        && (serial | 0x4000_0000u32) & 0xC000_0000u32 == 0x4000_0000u32) by (bit_vector);
    assert(serial & 0x8000_0000u32 == 0 ==> (serial | 0x8000_0000u32) == serial + 0x8000_0000u32
        && (serial | 0x8000_0000u32) & 0x8000_0000u32 == 0x8000_0000u32) by (bit_vector);
}

} // verus!
