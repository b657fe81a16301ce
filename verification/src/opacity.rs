//! Coupled opacity and visibility state.
//!
//! The setters are the only way the engine changes these fields, and they
//! keep alpha and the visibility flag in lockstep: a positive alpha implies
//! visible, and alpha zero implies hidden.

use vstd::prelude::*;

use crate::units::{UNIT, clamp_unit, spec_clamp_unit};

verus! {

/// Alpha (a fixed-point fraction of [`UNIT`]) together with a visibility
/// flag.
#[derive(Debug, Clone, Copy, PartialEq, Eq, Structural)]
pub struct Opacity {
    pub visible: bool,
    pub alpha: u64,
}

impl Opacity {
    /// Alpha stays inside `[0, UNIT]` and is positive exactly when the
    /// object is visible.
    pub open spec fn inv(self) -> bool {
        self.alpha <= UNIT && (self.visible <==> self.alpha > 0)
    }

    /// Fully opaque when `visible`, hidden otherwise.
    pub fn new(visible: bool) -> (r: Opacity)
        ensures
            r.visible == visible,
            r.alpha == if visible {
                UNIT
            } else {
                0u64
            },
            r.inv(),
    {
        if visible {
            Opacity { visible: true, alpha: UNIT }
        } else {
            Opacity { visible: false, alpha: 0 }
        }
    }

    /// Make fully opaque and visible.
    pub fn show(&mut self)
        ensures
            *final(self) == (Opacity { visible: true, alpha: UNIT }),
    {
        self.visible = true;
        self.alpha = UNIT;
    }

    /// Make fully transparent and hidden.
    pub fn conceal(&mut self)
        ensures
            *final(self) == (Opacity { visible: false, alpha: 0u64 }),
    {
        self.visible = false;
        self.alpha = 0;
    }

    /// Set alpha, coupling visibility: any alpha at or below zero hides the
    /// object, a positive alpha shows it (clamped to [`UNIT`]).
    pub fn set_opacity(&mut self, alpha: i64)
        ensures
            *final(self) == spec_set_opacity(alpha as int),
            final(self).inv(),
            alpha <= 0 ==> !final(self).visible && final(self).alpha == 0,
            alpha > 0 ==> final(self).visible && final(self).alpha == spec_clamp_unit(alpha as int),
    {
        if alpha > 0 {
            self.visible = true;
            self.alpha = clamp_unit(alpha);
        } else {
            self.conceal();
        }
    }
}

/// The opacity produced by setting `alpha`: hidden at or below zero,
/// visible with clamped alpha above zero.
pub open spec fn spec_set_opacity(alpha: int) -> Opacity {
    if alpha > 0 {
        Opacity { visible: true, alpha: spec_clamp_unit(alpha) as u64 }
    } else {
        Opacity { visible: false, alpha: 0u64 }
    }
}

} // verus!
