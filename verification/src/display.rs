//! Display commands and their rendering into a window-sized pixel buffer.

use vstd::prelude::*;

verus! {

/// Columns of the logical display.
pub const DISPLAY_WIDTH: usize = 64;

/// Rows of the logical display.
pub const DISPLAY_HEIGHT: usize = 32;

/// Physical pixels per logical pixel, along both axes.
pub const SCALE: usize = 20;

/// Colour of a lit pixel.
pub const ON: u32 = 0x0000_FFFF;

/// Colour of a dark pixel.
pub const OFF: u32 = 0;

/// What the presentation side is asked to show.
#[derive(Clone, Copy, Debug, PartialEq, Eq)]
pub enum DisplayCommand {
    /// Blank the screen.
    ClearDisplay,
    /// Show this frame: 32 rows of 64 cells, row after row.
    Draw([bool; 2048]),
}

/// Mathematical model of a display command.
#[verifier::ext_equal]
pub enum DisplayCommandView {
    ClearDisplay,
    Draw(Seq<bool>),
}

impl View for DisplayCommand {
    type V = DisplayCommandView;

    open spec fn view(&self) -> DisplayCommandView {
        match self {
            DisplayCommand::ClearDisplay => DisplayCommandView::ClearDisplay,
            DisplayCommand::Draw(frame) => DisplayCommandView::Draw(frame@),
        }
    }
}

/// Colour of a cell.
pub open spec fn colour(lit: bool) -> u32 {
    if lit {
        ON
    } else {
        OFF
    }
}

/// The cell of the logical display that the physical pixel `k` shows, the
/// pixels counted row after row in an image 1280 wide.
pub open spec fn source_cell(k: int) -> int {
    (k / 1280 / 20) * 64 + (k % 1280) / 20
}

/// The picture of `frame`, each cell a square of `SCALE` by `SCALE` pixels,
/// laid over the start of `before`.
pub open spec fn scaled(frame: Seq<bool>, before: Seq<u32>) -> Seq<u32> {
    Seq::new(
        before.len(),
        |k: int|
            if k < 1280 * 640 {
                colour(frame[source_cell(k)])
            } else {
                before[k]
            },
    )
}

/// An event that can render itself into a pixel buffer.
pub trait UserEvent {
    /// Whether a buffer of `len` pixels is large enough for this event.
    spec fn fits(&self, len: nat) -> bool;

    /// The buffer after the event has been rendered into `before`.
    spec fn rendered(&self, before: Seq<u32>) -> Seq<u32>;

    /// The least number of pixels that a buffer must have for this event.
    fn room(&self) -> (n: usize)
        ensures
            forall|len: nat| #[trigger] self.fits(len) <==> len >= n,
    ;

    /// Renders the event into `b`.
    fn transform(&self, b: &mut [u32])
        requires
            self.fits(old(b)@.len()),
        ensures
            final(b)@ == self.rendered(old(b)@),
    ;
}

impl UserEvent for DisplayCommand {
    open spec fn fits(&self, len: nat) -> bool {
        self is Draw ==> len >= 1280 * 640
    }

    open spec fn rendered(&self, before: Seq<u32>) -> Seq<u32> {
        match self@ {
            DisplayCommandView::ClearDisplay => Seq::new(before.len(), |k: int| 0u32),
            DisplayCommandView::Draw(frame) => scaled(frame, before),
        }
    }

    fn room(&self) -> (n: usize) {
        match self {
            DisplayCommand::ClearDisplay => 0,
            DisplayCommand::Draw(_) => DISPLAY_WIDTH * SCALE * (DISPLAY_HEIGHT * SCALE),
        }
    }

    fn transform(&self, b: &mut [u32]) {
        match self {
            DisplayCommand::ClearDisplay => {
                let mut k: usize = 0;
                while k < b.len()
                    invariant
                        b@.len() == old(b)@.len(),
                        k <= b@.len(),
                        forall|j: int| 0 <= j < k ==> b@[j] == 0,
                    decreases b@.len() - k,
                {
                    b[k] = 0;
                    k += 1;
                }
                assert(b@ =~= self.rendered(old(b)@));
            },
            DisplayCommand::Draw(fb) => {
                let new_width: usize = DISPLAY_WIDTH * SCALE;
                let new_height: usize = DISPLAY_HEIGHT * SCALE;
                let mut new_y: usize = 0;
                while new_y < new_height
                    invariant
                        new_width == 1280,
                        new_height == 640,
                        new_y <= 640,
                        b@.len() == old(b)@.len(),
                        b@.len() >= 1280 * 640,
                        forall|j: int| 0 <= j < new_y * 1280 ==> b@[j] == colour(fb@[source_cell(j)]),
                        forall|j: int| new_y * 1280 <= j < b@.len() ==> b@[j] == old(b)@[j],
                    decreases 640 - new_y,
                {
                    let mut new_x: usize = 0;
                    while new_x < new_width
                        invariant
                            new_width == 1280,
                            new_y < 640,
                            new_x <= 1280,
                            b@.len() == old(b)@.len(),
                            b@.len() >= 1280 * 640,
                            forall|j: int|
                                0 <= j < new_y * 1280 + new_x ==> b@[j] == colour(
                                    fb@[source_cell(j)],
                                ),
                            forall|j: int|
                                new_y * 1280 + new_x <= j < b@.len() ==> b@[j] == old(b)@[j],
                        decreases 1280 - new_x,
                    {
                        let y: usize = new_y / SCALE;
                        let x: usize = new_x / SCALE;
                        let pixel = fb[y * DISPLAY_WIDTH + x];
                        let at: usize = new_y * new_width + new_x;
                        assert(source_cell(at as int) == y * 64 + x) by (nonlinear_arith)
                            requires
                                at == new_y * 1280 + new_x,
                                0 <= new_x < 1280,
                                0 <= new_y,
                                y == new_y / 20,
                                x == new_x / 20,
                        ;
                        b[at] = if pixel { ON } else { OFF };
                        new_x += 1;
                    }
                    new_y += 1;
                }
                assert(b@ =~= self.rendered(old(b)@));
            },
        }
    }
}

} // verus!
