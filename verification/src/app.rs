//! Viewport state machine: canvas geometry, sampling scale, quality mode
//! and the dirty flag that drives lazy re-rendering.
//!
//! The visible rectangle of the mathematical plane and the iteration
//! exponent are floating-point quantities and are owned by the driver; the
//! driver reports every mutation of them through `mark_dirty`, so the
//! redraw discipline proved here covers those mutations as well.
use vstd::prelude::*;

verus! {

/// The integer core of the renderer's state.
///
/// `scale` is the side of a sampling block in pixels: the buffer generator
/// evaluates one sample per `scale`-by-`scale` block.  `fast` selects the
/// fixed-square iteration step instead of the generalized power.
/// `need_update` is the dirty flag: it is raised by construction and by
/// every mutation, and cleared exactly when a frame is handed out.
pub struct AppState {
    pub canvas_width: u32,
    pub canvas_height: u32,
    pub scale: u32,
    pub fast: bool,
    pub need_update: bool,
}

impl AppState {
    /// Well-formedness: positive canvas, positive block size, and a canvas
    /// small enough that the byte length `4 * width * height` of a frame
    /// fits the machine's indices.
    pub open spec fn wf(&self) -> bool {
        &&& 1 <= self.canvas_width
        &&& 1 <= self.canvas_height
        &&& 1 <= self.scale
        &&& (self.canvas_width as int) * (self.canvas_height as int) < 0x4000_0000
    }

    /// The state right after construction: 4-pixel blocks, precise power
    /// mode, and a frame owed.
    pub open spec fn initial(canvas_width: u32, canvas_height: u32) -> AppState {
        AppState {
            canvas_width,
            canvas_height,
            scale: 4,
            fast: false,
            need_update: true,
        }
    }

    /// Effect of `set_scale(n)`: quality level `n` selects block side `10 - n`.
    pub open spec fn scaled(self, n: u32) -> AppState {
        AppState { scale: (10 - n) as u32, need_update: true, ..self }
    }

    /// Effect of `toggle_fast`.
    pub open spec fn toggled(self) -> AppState {
        AppState { fast: !self.fast, need_update: true, ..self }
    }

    /// Effect of `mark_dirty`.
    pub open spec fn dirtied(self) -> AppState {
        AppState { need_update: true, ..self }
    }

    /// Effect of handing out a frame: the debt is paid, nothing else moves.
    pub open spec fn rendered(self) -> AppState {
        AppState { need_update: false, ..self }
    }

    pub fn new(canvas_width: u32, canvas_height: u32) -> (r: AppState)
        requires
            1 <= canvas_width,
            1 <= canvas_height,
            (canvas_width as int) * (canvas_height as int) < 0x4000_0000,
        ensures
            r == AppState::initial(canvas_width, canvas_height),
            r.wf(),
    {
        AppState {
            canvas_width,
            canvas_height,
            scale: 4,
            fast: false,
            need_update: true,
        }
    }

    /// Select quality level `n` (0 coarsest, 9 finest): the sampling block
    /// side becomes `10 - n`.  Levels above 9 would collapse the block to
    /// nothing, so they are ruled out here; the driver rejects them.
    pub fn set_scale(&mut self, n: u32)
        requires
            old(self).wf(),
            n <= 9,
        ensures
            *final(self) == old(self).scaled(n),
            final(self).wf(),
    {
        self.scale = 10 - n;
        self.need_update = true;
    }

    /// Flip between the fixed-square fast path and the generalized power.
    pub fn toggle_fast(&mut self)
        requires
            old(self).wf(),
        ensures
            *final(self) == old(self).toggled(),
            final(self).wf(),
    {
        self.fast = !self.fast;
        self.need_update = true;
    }

    /// Raise the dirty flag.  The driver calls this whenever it mutates the
    /// quantities it owns (the visible rectangle under pan and zoom, the
    /// iteration exponent), so every mutation owes a fresh frame.
    pub fn mark_dirty(&mut self)
        requires
            old(self).wf(),
        ensures
            *final(self) == old(self).dirtied(),
            final(self).wf(),
    {
        self.need_update = true;
    }

    /// Whether a frame is owed.
    pub fn needs_update(&self) -> (r: bool)
        ensures
            r == self.need_update,
    {
        self.need_update
    }
}

/// Dirty-flag discipline: a freshly constructed state owes a frame; once a
/// frame is handed out nothing is owed until the next mutation, and any
/// mutation — scale, quality toggle, or a driver-side change reported
/// through `mark_dirty` — owes one again.
pub proof fn lemma_dirty_discipline(s: AppState, canvas_width: u32, canvas_height: u32, n: u32)
    ensures
        AppState::initial(canvas_width, canvas_height).need_update,
        !s.rendered().need_update,
        s.rendered().scaled(n).need_update,
        s.rendered().toggled().need_update,
        s.rendered().dirtied().need_update,
{
}

} // verus!
