//! The byte layout of the frame's light and occluder fields, the two
//! storage buffers the shape shader reads its lights and shadow casters
//! from.
//!
//! Each field is a fixed header followed by an unsized array of records.
//! The GPU binds each field with a minimum binding size of its header plus
//! one `vec4`, so a field buffer is never sized below that, even in a
//! frame with no lights or no occluders.

use vstd::prelude::*;

verus! {

/// The byte size of the light field's header: the light count (a `u32`),
/// 12 padding bytes, and the scene's ambient color (a `vec4`).
pub const LIGHT_FIELD_HEADER: usize = 32;

/// The byte size of one light record: three `vec4<f32>`s,
/// `(x, y, radius, intensity)`, `(r, g, b, penumbra)` and
/// `(dir_x, dir_y, cos_half, feather)`.
pub const LIGHT_RECORD: usize = 48;

/// The light field's minimum binding size: its header plus one `vec4`.
pub const LIGHT_FIELD_BUFFER_MIN: usize = 48;

/// The byte size of the occluder field's header: the occluder count (a
/// `u32`) and 12 padding bytes.
pub const OCCLUDER_FIELD_HEADER: usize = 16;

/// The byte size of one occluder record: three `vec4<f32>`s, the inverse
/// transform's matrix, its translation and the local center, and the half
/// extents.
pub const OCCLUDER_RECORD: usize = 48;

/// The occluder field's minimum binding size: its header plus one `vec4`.
pub const OCCLUDER_FIELD_BUFFER_MIN: usize = 32;

/// The byte size of a field buffer holding a `header`-byte header and
/// `count` records of `record` bytes each, but never less than `min`.
pub open spec fn field_size(header: int, record: int, min: int, count: int) -> int {
    let packed = header + count * record;
    if packed >= min {
        packed
    } else {
        min
    }
}

/// The byte size of the light field buffer for a frame with `count`
/// lights: the header plus one record per light, floored at the minimum
/// binding size.
pub fn light_field_buffer_size(count: u32) -> (size: u64)
    ensures
        size == field_size(LIGHT_FIELD_HEADER as int, LIGHT_RECORD as int, LIGHT_FIELD_BUFFER_MIN as int, count as int),
        size >= LIGHT_FIELD_BUFFER_MIN,
        size >= LIGHT_FIELD_HEADER + count * LIGHT_RECORD,
{
    assert(count as u64 * LIGHT_RECORD as u64 <= 0xFFFF_FFFFu64 * 48) by (nonlinear_arith)
        requires
            count <= 0xFFFF_FFFFu64,
            LIGHT_RECORD == 48,
    ;
    let packed = LIGHT_FIELD_HEADER as u64 + count as u64 * LIGHT_RECORD as u64;
    if packed >= LIGHT_FIELD_BUFFER_MIN as u64 {
        packed
    } else {
        LIGHT_FIELD_BUFFER_MIN as u64
    }
}

/// The byte size of the occluder field buffer for a frame with `count`
/// occluders: the header plus one record per occluder, floored at the
/// minimum binding size.
pub fn occluder_field_buffer_size(count: u32) -> (size: u64)
    ensures
        size == field_size(OCCLUDER_FIELD_HEADER as int, OCCLUDER_RECORD as int, OCCLUDER_FIELD_BUFFER_MIN as int, count as int),
        size >= OCCLUDER_FIELD_BUFFER_MIN,
        size >= OCCLUDER_FIELD_HEADER + count * OCCLUDER_RECORD,
{
    assert(count as u64 * OCCLUDER_RECORD as u64 <= 0xFFFF_FFFFu64 * 48) by (nonlinear_arith)
        requires
            count <= 0xFFFF_FFFFu64,
            OCCLUDER_RECORD == 48,
    ;
    let packed = OCCLUDER_FIELD_HEADER as u64 + count as u64 * OCCLUDER_RECORD as u64;
    if packed >= OCCLUDER_FIELD_BUFFER_MIN as u64 {
        packed
    } else {
        OCCLUDER_FIELD_BUFFER_MIN as u64
    }
}

/// A field buffer grows with its record count: more lights or occluders
/// never need a smaller buffer.
pub proof fn lemma_field_size_monotonic(header: int, record: int, min: int, a: int, b: int)
    requires
        0 <= record,
        0 <= a <= b,
    ensures
        field_size(header, record, min, a) <= field_size(header, record, min, b),
{
    vstd::arithmetic::mul::lemma_mul_inequality(a, b, record);
}

/// The size of a grow-only field buffer of `current` bytes after a frame
/// that needs `needed` bytes: the buffer is replaced by one of exactly
/// `needed` bytes when it is too small, and kept otherwise.
pub open spec fn kept_size(current: int, needed: int) -> int {
    if needed > current {
        needed
    } else {
        current
    }
}

/// The size of a grow-only field buffer that starts at `initial` bytes,
/// after frames needing `needs[0]`, `needs[1]`, ... bytes in turn.
pub open spec fn size_after_frames(initial: int, needs: Seq<int>) -> int
    decreases needs.len(),
{
    if needs.len() == 0 {
        initial
    } else {
        kept_size(size_after_frames(initial, needs.drop_last()), needs.last())
    }
}

/// The new size for a grow-only field buffer of `current` bytes in a frame
/// that needs `needed` bytes: `Some(needed)` when the buffer must be
/// replaced by a bigger one, `None` when it already holds `needed` bytes
/// and is reused, lighter frames writing a shorter slice of it.
pub fn grown_buffer_size(current: u64, needed: u64) -> (grown: Option<u64>)
    ensures
        grown == (if needed > current { Some(needed) } else { None::<u64> }),
        match grown {
            Some(size) => size == kept_size(current as int, needed as int),
            None => current == kept_size(current as int, needed as int),
        },
{
    if needed > current {
        Some(needed)
    } else {
        None
    }
}

/// A grow-only buffer holds the peak so far: after any run of frames it is
/// at least its initial size and at least every frame's need, and it is
/// either its initial size or exactly one of the needs.
pub proof fn lemma_buffer_holds_the_peak(initial: int, needs: Seq<int>)
    ensures
        size_after_frames(initial, needs) >= initial,
        forall|i: int| 0 <= i < needs.len() ==> size_after_frames(initial, needs) >= #[trigger] needs[i],
        size_after_frames(initial, needs) == initial
            || exists|i: int| 0 <= i < needs.len() && size_after_frames(initial, needs) == #[trigger] needs[i],
    decreases needs.len(),
{
    if needs.len() > 0 {
        let prefix = needs.drop_last();
        lemma_buffer_holds_the_peak(initial, prefix);
        assert forall|i: int| 0 <= i < needs.len() implies size_after_frames(initial, needs) >= #[trigger] needs[i] by {
            if i < needs.len() - 1 {
                assert(needs[i] == prefix[i]);
            }
        }
        if size_after_frames(initial, needs) != initial {
            if size_after_frames(initial, needs) == needs.last() {
                assert(needs[needs.len() - 1] == needs.last());
            } else {
                let j = choose|j: int| 0 <= j < prefix.len() && size_after_frames(initial, prefix) == #[trigger] prefix[j];
                assert(needs[j] == prefix[j]);
            }
        }
    }
}

} // verus!
