use vstd::prelude::*;
use crate::arch::{Fault, SystemMode};
use crate::arch::alu::{bit_mask, mask};

verus! {

/// An 8x8 tile decoded to colours, row by row.
#[derive(Clone, Debug)]
pub struct Tile {
    pub pixels: Vec<u32>,
}

/// The picture unit's face on the bus: video RAM and the LCD registers.
#[derive(Clone, Debug)]
pub struct Ppu {
    pub mode: SystemMode,
    pub vram: Vec<u8>,
    /// LCD Control (0xFF40)
    pub lcdc: u8,
    /// LCD Status (0xFF41)
    pub stat: u8,
    /// Scroll Y (0xFF42)
    pub scy: u8,
    /// Scroll X (0xFF43)
    pub scx: u8,
    /// LCD Y Coordinate (0xFF44), read-only
    pub ly: u8,
    /// LY Compare (0xFF45)
    pub lyc: u8,
    /// BG Palette Data (0xFF47)
    pub bgp: u8,
    /// Window Y Position (0xFF4A)
    pub wy: u8,
    /// Window X Position + 7 (0xFF4B)
    pub wx: u8,
}

pub struct PpuView {
    pub mode: SystemMode,
    pub vram: Seq<u8>,
    pub lcdc: u8,
    pub stat: u8,
    pub scy: u8,
    pub scx: u8,
    pub ly: u8,
    pub lyc: u8,
    pub bgp: u8,
    pub wy: u8,
    pub wx: u8,
}

impl View for Ppu {
    type V = PpuView;

    open spec fn view(&self) -> PpuView {
        PpuView {
            mode: self.mode,
            vram: self.vram@,
            lcdc: self.lcdc,
            stat: self.stat,
            scy: self.scy,
            scx: self.scx,
            ly: self.ly,
            lyc: self.lyc,
            bgp: self.bgp,
            wy: self.wy,
            wx: self.wx,
        }
    }
}

pub open spec fn ppu_read_spec(p: PpuView, addr: u16) -> Result<u8, Fault> {
    if 0x8000 <= addr <= 0x9FFF {
        Ok(p.vram[addr - 0x8000])
    } else if addr == 0xFF40 {
        Ok(p.lcdc)
    } else if addr == 0xFF41 {
        Ok(p.stat)
    } else if addr == 0xFF42 {
        Ok(p.scy)
    } else if addr == 0xFF43 {
        Ok(p.scx)
    } else if addr == 0xFF44 {
        Ok(p.ly)
    } else if addr == 0xFF45 {
        Ok(p.lyc)
    } else if addr == 0xFF47 {
        Ok(p.bgp)
    } else if addr == 0xFF4A {
        Ok(p.wy)
    } else if addr == 0xFF4B {
        Ok(p.wx)
    } else {
        Err(Fault::UnmappedRead(addr))
    }
}

/// LY (0xFF44) is read-only: a write to it is absorbed.
pub open spec fn ppu_write_spec(p: PpuView, addr: u16, data: u8) -> Result<PpuView, Fault> {
    if 0x8000 <= addr <= 0x9FFF {
        Ok(PpuView { vram: p.vram.update(addr - 0x8000, data), ..p })
    } else if addr == 0xFF40 {
        Ok(PpuView { lcdc: data, ..p })
    } else if addr == 0xFF41 {
        Ok(PpuView { stat: data, ..p })
    } else if addr == 0xFF42 {
        Ok(PpuView { scy: data, ..p })
    } else if addr == 0xFF43 {
        Ok(PpuView { scx: data, ..p })
    } else if addr == 0xFF44 {
        Ok(p)
    } else if addr == 0xFF45 {
        Ok(PpuView { lyc: data, ..p })
    } else if addr == 0xFF47 {
        Ok(PpuView { bgp: data, ..p })
    } else if addr == 0xFF4A {
        Ok(PpuView { wy: data, ..p })
    } else if addr == 0xFF4B {
        Ok(PpuView { wx: data, ..p })
    } else {
        Err(Fault::UnmappedWrite(addr))
    }
}

/// The picture unit at power-on: video RAM and registers zero, LY at 0x90.
pub open spec fn initial_ppu(mode: SystemMode) -> PpuView {
    PpuView {
        mode,
        vram: Seq::new(0x2000, |i: int| 0u8),
        lcdc: 0,
        stat: 0,
        scy: 0,
        scx: 0,
        ly: 0x90,
        lyc: 0,
        bgp: 0,
        wy: 0,
        wx: 0,
    }
}

impl Ppu {
    pub open spec fn wf(&self) -> bool {
        self.vram@.len() == 0x2000
    }

    pub fn new(mode: SystemMode) -> (r: Self)
        ensures
            r.wf(),
            r@ == initial_ppu(mode),
    {
        let r = Ppu {
            mode,
            vram: vec![0u8; 0x2000],
            lcdc: 0,
            stat: 0,
            scy: 0,
            scx: 0,
            ly: 0x90,
            lyc: 0,
            bgp: 0,
            wy: 0,
            wx: 0,
        };
        assert(r@.vram =~= Seq::new(0x2000, |i: int| 0u8));
        r
    }

    pub fn read(&self, addr: u16) -> (r: Result<u8, Fault>)
        requires
            self.wf(),
        ensures
            r == ppu_read_spec(self@, addr),
    {
        if 0x8000 <= addr && addr <= 0x9FFF {
            Ok(self.vram[(addr - 0x8000) as usize])
        } else if addr == 0xFF40 {
            Ok(self.lcdc)
        } else if addr == 0xFF41 {
            Ok(self.stat)
        } else if addr == 0xFF42 {
            Ok(self.scy)
        } else if addr == 0xFF43 {
            Ok(self.scx)
        } else if addr == 0xFF44 {
            Ok(self.ly)
        } else if addr == 0xFF45 {
            Ok(self.lyc)
        } else if addr == 0xFF47 {
            Ok(self.bgp)
        } else if addr == 0xFF4A {
            Ok(self.wy)
        } else if addr == 0xFF4B {
            Ok(self.wx)
        } else {
            Err(Fault::UnmappedRead(addr))
        }
    }

    pub fn write(&mut self, addr: u16, data: u8) -> (r: Result<(), Fault>)
        requires
            old(self).wf(),
        ensures
            final(self).wf(),
            match ppu_write_spec(old(self)@, addr, data) {
                Ok(p) => r is Ok && final(self)@ == p,
                Err(e) => r == Err::<(), Fault>(e) && final(self)@ == old(self)@,
            },
    {
        if 0x8000 <= addr && addr <= 0x9FFF {
            self.vram.set((addr - 0x8000) as usize, data);
        } else if addr == 0xFF40 {
            self.lcdc = data;
        } else if addr == 0xFF41 {
            self.stat = data;
        } else if addr == 0xFF42 {
            self.scy = data;
        } else if addr == 0xFF43 {
            self.scx = data;
        } else if addr == 0xFF44 {
        } else if addr == 0xFF45 {
            self.lyc = data;
        } else if addr == 0xFF47 {
            self.bgp = data;
        } else if addr == 0xFF4A {
            self.wy = data;
        } else if addr == 0xFF4B {
            self.wx = data;
        } else {
            return Err(Fault::UnmappedWrite(addr));
        }
        Ok(())
    }

    /// The picture unit does no per-cycle work yet.
    pub fn tcycle(&mut self)
        ensures
            *final(self) == *old(self),
    {
    }
}

/// The colour shown for each of the four colour indices.
pub open spec fn palette_spec(index: u8) -> u32 {
    if index == 0 {
        0x00331111
    } else if index == 1 {
        0x00116611
    } else if index == 2 {
        0x001111AA
    } else if index == 3 {
        0x00FFFFFF
    } else {
        0x00FF0000
    }
}

/// The colour index of pixel (row, col) of tile t: each row is two bytes,
/// the first giving bit 0 and the second bit 1 of the index, with the
/// leftmost pixel in bit 7.
pub open spec fn color_index_spec(vram: Seq<u8>, t: int, row: int, col: int) -> u8 {
    let m = bit_mask((7 - col) as u8);
    let lsb = vram[16 * t + 2 * row];
    let msb = vram[16 * t + 2 * row + 1];
    ((if msb & m != 0 { 2int } else { 0 }) + (if lsb & m != 0 { 1int } else { 0 })) as u8
}

/// Tile-data view of the screen: the 384 tiles at 0x8000-0x97FF drawn
/// left to right, 19 to a row, on a buffer 160 pixels wide. None where
/// no tile falls.
pub open spec fn render_pixel(vram: Seq<u8>, i: int) -> Option<u32> {
    let x = i % 160;
    let y = i / 160;
    let t = (y / 8) * 19 + x / 8;
    if x < 152 && t < 384 {
        Some(palette_spec(color_index_spec(vram, t, y % 8, x % 8)))
    } else {
        None
    }
}

impl Ppu {
    pub fn palette(&self, index: u8) -> (r: u32)
        ensures
            r == palette_spec(index),
    {
        if index == 0 {
            0x00331111
        } else if index == 1 {
            0x00116611
        } else if index == 2 {
            0x001111AA
        } else if index == 3 {
            0x00FFFFFF
        } else {
            0x00FF0000
        }
    }

    fn color_index(&self, t: usize, row: usize, col: usize) -> (r: u8)
        requires
            self.wf(),
            t < 384,
            row < 8,
            col < 8,
        ensures
            r == color_index_spec(self.vram@, t as int, row as int, col as int),
    {
        let m = mask((7 - col) as u8);
        let lsb = self.vram[16 * t + 2 * row];
        let msb = self.vram[16 * t + 2 * row + 1];
        (if msb & m != 0 { 2u8 } else { 0 }) + (if lsb & m != 0 { 1u8 } else { 0 })
    }

    /// Tile `t` of the tile data at 0x8000-0x97FF, decoded to colours.
    pub fn tile(&self, t: usize) -> (r: Tile)
        requires
            self.wf(),
            t < 384,
        ensures
            r.pixels@.len() == 64,
            forall|row: int, col: int|
                0 <= row < 8 && 0 <= col < 8 ==> #[trigger] r.pixels@[8 * row + col] == palette_spec(
                    color_index_spec(self.vram@, t as int, row, col),
                ),
    {
        let mut pixels: Vec<u32> = Vec::new();
        let mut k: usize = 0;
        while k < 64
            invariant
                self.wf(),
                t < 384,
                0 <= k <= 64,
                pixels@.len() == k,
                forall|j: int| 0 <= j < k ==> #[trigger] pixels@[j] == palette_spec(
                    color_index_spec(self.vram@, t as int, j / 8, j % 8),
                ),
            decreases 64 - k,
        {
            pixels.push(self.palette(self.color_index(t, k / 8, k % 8)));
            k = k + 1;
        }
        assert forall|row: int, col: int| 0 <= row < 8 && 0 <= col < 8 implies #[trigger] pixels@[8 * row
            + col] == palette_spec(color_index_spec(self.vram@, t as int, row, col)) by {
            assert((8 * row + col) / 8 == row && (8 * row + col) % 8 == col);
        }
        Tile { pixels }
    }

    /// Draws the tile data into `buf`, a screen 160 pixels wide; pixels
    /// where no tile falls keep their value.
    pub fn render(&self, buf: &mut Vec<u32>)
        requires
            self.wf(),
        ensures
            final(buf)@.len() == old(buf)@.len(),
            forall|i: int|
                0 <= i < old(buf)@.len() ==> #[trigger] final(buf)@[i] == match render_pixel(self.vram@, i) {
                    Some(c) => c,
                    None => old(buf)@[i],
                },
    {
        let n = buf.len();
        let mut i: usize = 0;
        while i < n
            invariant
                self.wf(),
                n == old(buf)@.len(),
                buf@.len() == n,
                0 <= i <= n,
                forall|j: int|
                    0 <= j < i ==> #[trigger] buf@[j] == match render_pixel(self.vram@, j) {
                        Some(c) => c,
                        None => old(buf)@[j],
                    },
                forall|j: int| i <= j < n ==> #[trigger] buf@[j] == old(buf)@[j],
            decreases n - i,
        {
            let x = i % 160;
            let y = i / 160;
            if x < 152 && y / 8 < 21 {
                let t = (y / 8) * 19 + x / 8;
                if t < 384 {
                    let c = self.palette(self.color_index(t, y % 8, x % 8));
                    buf.set(i, c);
                }
            }
            i = i + 1;
        }
    }
}

} // verus!
