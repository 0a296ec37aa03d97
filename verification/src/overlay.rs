//! The desktop lyrics overlay: the extended window style that makes it let
//! mouse events through or catch them.
use vstd::prelude::*;

verus! {

/// The extended style bit that lets mouse events through.
pub const WS_EX_TRANSPARENT: u32 = 0x0000_0020;

/// The extended style bit of layered (per-pixel transparent) windows.
pub const WS_EX_LAYERED: u32 = 0x0008_0000;

/// The extended style of the overlay: `WS_EX_TRANSPARENT` set when it lets
/// clicks through and cleared otherwise, `WS_EX_LAYERED` always set, every
/// other bit kept.
pub fn click_through_style(old: u32, transparent: bool) -> (r: u32)
    ensures
        (r & WS_EX_LAYERED) == WS_EX_LAYERED,
        transparent ==> (r & WS_EX_TRANSPARENT) == WS_EX_TRANSPARENT,
        !transparent ==> (r & WS_EX_TRANSPARENT) == 0,
        (r & !(WS_EX_TRANSPARENT | WS_EX_LAYERED)) == (old & !(WS_EX_TRANSPARENT | WS_EX_LAYERED)),
{
    let s = if transparent {
        old | WS_EX_TRANSPARENT
    } else {
        old & !WS_EX_TRANSPARENT
    };
    let r = s | WS_EX_LAYERED;
    assert((r & 0x0008_0000u32) == 0x0008_0000u32) by (bit_vector)
        requires
            r == s | 0x0008_0000u32,
    ;
    if transparent {
        assert((r & 0x20u32) == 0x20u32) by (bit_vector)
            requires
                r == (old | 0x20u32) | 0x0008_0000u32,
        ;
        assert((r & !(0x20u32 | 0x0008_0000u32)) == (old & !(0x20u32 | 0x0008_0000u32))) by (bit_vector)
            requires
                r == (old | 0x20u32) | 0x0008_0000u32,
        ;
    } else {
        assert((r & 0x20u32) == 0) by (bit_vector)
            requires
                r == (old & !0x20u32) | 0x0008_0000u32,
        ;
        assert((r & !(0x20u32 | 0x0008_0000u32)) == (old & !(0x20u32 | 0x0008_0000u32))) by (bit_vector)
            requires
                r == (old & !0x20u32) | 0x0008_0000u32,
        ;
    }
    r
}

/// Whether the overlay lets clicks through while it is dragged: never during
/// a drag, always after one.
pub fn drag_click_through(dragging: bool) -> (r: bool)
    ensures
        r == !dragging,
{
    !dragging
}

} // verus!
