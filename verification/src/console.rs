//! A minimal text console drawn into a 32-by-32 tile map.
//!
//! Intended for debug output only.  Each printable byte becomes one tile
//! holding its character code; control and non-ASCII bytes map to glyph 0.
//! Text wraps at the right edge; a newline moves the cursor to the start
//! of the next row.  Once the cursor has moved past the last row the
//! console is full and further output is dropped.  The tile map is
//! modelled as plain values here; loading the font and copying tiles into
//! video memory happen outside the library.

use vstd::prelude::*;
use vstd::string::StringSliceAdditionalSpecFns;

verus! {

/// The glyph a byte prints as: its character code for the printable ASCII
/// range, the placeholder glyph 0 for everything else.
pub open spec fn glyph_of(b: u8) -> u16 {
    if b < 32 || b > 126 {
        0
    } else {
        b as u16
    }
}

/// One byte of output applied to a console state `(column, row, tiles)`.
pub open spec fn console_step(x: u8, y: u8, tiles: Seq<u16>, b: u8) -> (u8, u8, Seq<u16>) {
    if b == 10 {
        (0u8, if y < 32 {
            (y + 1) as u8
        } else {
            32u8
        }, tiles)
    } else if y >= 32 {
        (x, y, tiles)
    } else {
        let t = tiles.update(y * 32 + x, glyph_of(b));
        if x + 1 >= 32 {
            (0u8, (y + 1) as u8, t)
        } else {
            ((x + 1) as u8, y, t)
        }
    }
}

/// A whole sequence of output bytes applied to a console state.
pub open spec fn console_run(x: u8, y: u8, tiles: Seq<u16>, bytes: Seq<u8>) -> (
    u8,
    u8,
    Seq<u16>,
)
    decreases bytes.len(),
{
    if bytes.len() == 0 {
        (x, y, tiles)
    } else {
        let s1 = console_step(x, y, tiles, bytes[0]);
        console_run(s1.0, s1.1, s1.2, bytes.subrange(1, bytes.len() as int))
    }
}

/// Running a sequence and then one more byte is one more step.
proof fn lemma_console_run_snoc(x: u8, y: u8, tiles: Seq<u16>, pre: Seq<u8>, b: u8)
    ensures
        console_run(x, y, tiles, pre.push(b)) == {
            let s1 = console_run(x, y, tiles, pre);
            console_step(s1.0, s1.1, s1.2, b)
        },
    decreases pre.len(),
{
    if pre.len() == 0 {
        assert(pre.push(b)[0] == b);
        assert(pre.push(b).subrange(1, 1) =~= Seq::<u8>::empty());
        assert(pre =~= Seq::<u8>::empty());
        let s1 = console_step(x, y, tiles, b);
        assert(console_run(x, y, tiles, pre.push(b)) == console_run(
            s1.0,
            s1.1,
            s1.2,
            pre.push(b).subrange(1, 1),
        ));
        assert(console_run(s1.0, s1.1, s1.2, Seq::<u8>::empty()) == s1);
        assert(console_run(x, y, tiles, pre) == (x, y, tiles));
    } else {
        let s1 = console_step(x, y, tiles, pre[0]);
        let sub = pre.subrange(1, pre.len() as int);
        assert(pre.push(b)[0] == pre[0]);
        assert(pre.push(b).subrange(1, pre.len() as int + 1) =~= sub.push(b));
        assert(console_run(x, y, tiles, pre.push(b)) == console_run(
            s1.0,
            s1.1,
            s1.2,
            sub.push(b),
        ));
        lemma_console_run_snoc(s1.0, s1.1, s1.2, sub, b);
        assert(console_run(x, y, tiles, pre) == console_run(s1.0, s1.1, s1.2, sub));
    }
}

/// The debug text console: a cursor and the tile map it draws into.
pub struct Console {
    cursor_x: u8,
    cursor_y: u8,
    tiles: Vec<u16>,
}

impl Console {
    /// The cursor column.
    pub closed spec fn x(self) -> u8 {
        self.cursor_x
    }

    /// The cursor row; 32 marks a full console.
    pub closed spec fn y(self) -> u8 {
        self.cursor_y
    }

    /// The tile map, row by row.
    pub closed spec fn grid(self) -> Seq<u16> {
        self.tiles@
    }

    /// The cursor is on the grid (or just past its last row) and the
    /// tile map has its full size.
    pub closed spec fn wf(self) -> bool {
        &&& self.cursor_x < 32
        &&& self.cursor_y <= 32
        &&& self.tiles@.len() == 1024
    }

    /// A console cleared to spaces with the cursor at the top left.
    pub fn new() -> (r: Console)
        ensures
            r.wf(),
            r.x() == 0,
            r.y() == 0,
            r.grid() == Seq::<u16>::new(1024, |i: int| 32u16),
    {
        let mut tiles: Vec<u16> = Vec::new();
        while tiles.len() < 1024
            invariant
                tiles.len() <= 1024,
                forall|i: int| 0 <= i < tiles@.len() ==> tiles@[i] == 32u16,
            decreases 1024 - tiles.len(),
        {
            tiles.push(32u16);
        }
        proof {
            assert(tiles@ =~= Seq::<u16>::new(1024, |i: int| 32u16));
        }
        Console { cursor_x: 0, cursor_y: 0, tiles }
    }

    /// Prints some text: each byte advances the console by one
    /// [`console_step`].
    pub fn print(&mut self, txt: &str)
        requires
            old(self).wf(),
        ensures
            final(self).wf(),
            (final(self).x(), final(self).y(), final(self).grid()) == console_run(
                old(self).x(),
                old(self).y(),
                old(self).grid(),
                txt.spec_bytes(),
            ),
    {
        let bytes = txt.as_bytes();
        let ghost ox = self.cursor_x;
        let ghost oy = self.cursor_y;
        let ghost og = self.tiles@;
        let mut i: usize = 0;
        proof {
            assert(bytes@.subrange(0, 0) =~= Seq::<u8>::empty());
        }
        while i < bytes.len()
            invariant
                self.wf(),
                0 <= i <= bytes@.len(),
                (self.cursor_x, self.cursor_y, self.tiles@) == console_run(
                    ox,
                    oy,
                    og,
                    bytes@.subrange(0, i as int),
                ),
            decreases bytes@.len() - i,
        {
            let b = bytes[i];
            proof {
                lemma_console_run_snoc(ox, oy, og, bytes@.subrange(0, i as int), b);
                assert(bytes@.subrange(0, i as int).push(b) =~= bytes@.subrange(0, i + 1));
            }
            if b == 10 {
                self.cursor_x = 0;
                if self.cursor_y < 32 {
                    self.cursor_y = self.cursor_y + 1;
                }
            } else if self.cursor_y >= 32 {
                // Past the last row: the console is full, output is
                // dropped.
            } else {
                let g: u16 = if b < 32 || b > 126 {
                    0
                } else {
                    b as u16
                };
                let idx = (self.cursor_y as usize) * 32 + (self.cursor_x as usize);
                self.tiles.set(idx, g);
                if self.cursor_x + 1 >= 32 {
                    self.cursor_x = 0;
                    self.cursor_y = self.cursor_y + 1;
                } else {
                    self.cursor_x = self.cursor_x + 1;
                }
            }
            i = i + 1;
        }
        proof {
            assert(bytes@.subrange(0, bytes@.len() as int) =~= bytes@);
        }
    }

    /// A copy of the tile map, row by row, for the layer that loads it
    /// into video memory.
    pub fn grid_copy(&self) -> (r: Vec<u16>)
        ensures
            r@ == self.grid(),
    {
        let mut r: Vec<u16> = Vec::new();
        let mut i: usize = 0;
        while i < self.tiles.len()
            invariant
                0 <= i <= self.tiles@.len(),
                r@ == self.tiles@.subrange(0, i as int),
            decreases self.tiles@.len() - i,
        {
            r.push(self.tiles[i]);
            proof {
                assert(r@ =~= self.tiles@.subrange(0, i + 1));
            }
            i = i + 1;
        }
        proof {
            assert(r@ =~= self.tiles@);
        }
        r
    }

    /// The current position of the text cursor; `(0, 0)` is the top left.
    pub fn get_cursor_pos(&self) -> (pos: (u8, u8))
        ensures
            pos == (self.x(), self.y()),
    {
        (self.cursor_x, self.cursor_y)
    }

    /// Moves the text cursor; each coordinate is kept on the grid by
    /// masking it to the low five bits.
    pub fn set_cursor_pos(&mut self, x: u8, y: u8)
        requires
            old(self).wf(),
        ensures
            final(self).wf(),
            final(self).x() == x & 31,
            final(self).y() == y & 31,
            final(self).grid() == old(self).grid(),
    {
        proof {
            assert(x & 31 < 32 && y & 31 < 32) by (bit_vector);
        }
        self.cursor_x = x & 31;
        self.cursor_y = y & 31;
    }
}

} // verus!
