//! The ZRLE and TRLE tile codec.
//!
//! A rectangle is tiled in 64×64 blocks (ZRLE; a TRLE rectangle is one
//! tile). Each tile starts with a control byte — bit 7 selects run-length
//! encoding, bits 0..6 give the palette size — followed by the palette and
//! one of five pixel layouts. Pixels inside the payload are "compressed
//! pixels": 32-bit pixels whose format leaves one byte without colour
//! travel as three bytes, and the missing alpha byte is restored at 255.

use vstd::prelude::*;
use vstd::arithmetic::div_mod::lemma_fundamental_div_mod_converse;
use crate::error::VncError;
use crate::event::Rect;
use crate::zlib::ZlibReader;

verus! {

/// The largest payload buffer the tile parser accepts; a rectangle whose
/// stream grows beyond it is treated as corrupt.
pub const MAX_TILE_DATA: usize = 0x4000_0000;

/// Byte `j` of the compressed pixel at `base`: the `cbpp` payload bytes,
/// shifted one place right when alpha comes first, padded with 255.
pub open spec fn cpixel_byte(data: Seq<u8>, base: int, cbpp: int, pad: bool, j: int) -> u8 {
    let pj = if pad {
        j - 1
    } else {
        j
    };
    if 0 <= pj < cbpp {
        data[base + pj]
    } else {
        255
    }
}

/// `count` consecutive compressed pixels starting at `base`, each expanded
/// to `bpp` bytes.
pub open spec fn cpixels_seq(
    data: Seq<u8>,
    base: int,
    count: int,
    bpp: int,
    cbpp: int,
    pad: bool,
) -> Seq<u8> {
    Seq::new(
        (count * bpp) as nat,
        |i: int| cpixel_byte(data, base + (i / bpp) * cbpp, cbpp, pad, i % bpp),
    )
}

/// A pixel sequence repeated `n` times.
pub open spec fn repeat_px(px: Seq<u8>, n: int) -> Seq<u8> {
    Seq::new((n * px.len()) as nat, |i: int| px[i % (px.len() as int)])
}

/// The ZRLE run length at `pos`: one plus the sum of the bytes up to and
/// including the first byte below 255; `None` when the buffer ends first.
pub open spec fn run_len_at(data: Seq<u8>, pos: int) -> Option<(int, int)>
    decreases data.len() - pos,
{
    if pos < 0 || pos >= data.len() {
        None
    } else if data[pos] == 255 {
        match run_len_at(data, pos + 1) {
            Some((r, p)) => Some((r + 255, p)),
            None => None,
        }
    } else {
        Some((1 + data[pos] as int, pos + 1))
    }
}

/// Reads one compressed pixel, expanded to `bpp` bytes.
pub fn read_cpixel(data: &Vec<u8>, base: usize, bpp: usize, cbpp: usize, pad: bool) -> (r: Vec<u8>)
    requires
        base + cbpp <= data@.len(),
        1 <= bpp <= 4,
        1 <= cbpp <= bpp,
        pad ==> cbpp + 1 <= 4,
    ensures
        r@ == Seq::new(bpp as nat, |j: int| cpixel_byte(data@, base as int, cbpp as int, pad, j)),
        r@.len() == bpp,
{
    let mut r: Vec<u8> = Vec::new();
    let dl: usize = data.len();
    for j in 0..bpp
        invariant
            base + cbpp <= data@.len(),
            data@.len() <= usize::MAX,
            1 <= bpp <= 4,
            1 <= cbpp <= bpp,
            r@.len() == j,
            forall|k: int|
                0 <= k < j ==> r@[k] == cpixel_byte(data@, base as int, cbpp as int, pad, k),
    {
        let byte: u8 = if pad {
            if j >= 1 && j - 1 < cbpp {
                data[base + (j - 1)]
            } else {
                255
            }
        } else {
            if j < cbpp {
                data[base + j]
            } else {
                255
            }
        };
        r.push(byte);
    }
    proof {
        assert(r@ =~= Seq::new(
            bpp as nat,
            |j: int| cpixel_byte(data@, base as int, cbpp as int, pad, j),
        ));
    }
    r
}

/// Appends palette entry `index` — `bpp` bytes — to the pixel buffer.
pub fn copy_indexed(palette: &Vec<u8>, pixels: &mut Vec<u8>, bpp: usize, index: u8)
    requires
        (index as int + 1) * bpp <= palette@.len(),
    ensures
        final(pixels)@ == old(pixels)@ + palette@.subrange(
            (index as int) * bpp,
            (index as int) * bpp + bpp,
        ),
{
    let pl: usize = palette.len();
    proof {
        assert((index as int) * bpp + bpp == (index as int + 1) * bpp && 0 <= (index as int) * bpp)
            by (nonlinear_arith);
    }
    let start: usize = index as usize * bpp;
    let mut j: usize = 0;
    while j < bpp
        invariant
            start == (index as int) * bpp,
            start + bpp <= palette@.len(),
            palette@.len() <= usize::MAX,
            j <= bpp,
            pixels@ == old(pixels)@ + palette@.subrange(start as int, start + j),
        decreases bpp - j,
    {
        pixels.push(palette[start + j]);
        proof {
            assert(pixels@ =~= old(pixels)@ + palette@.subrange(start as int, start + j + 1));
        }
        j = j + 1;
    }
}

/// Reads a run length; `None` when the buffer ends inside it.
pub fn read_run_length(data: &Vec<u8>, pos: usize) -> (r: Option<(u64, usize)>)
    requires
        pos <= data@.len(),
        data@.len() <= MAX_TILE_DATA,
    ensures
        r is Some <==> run_len_at(data@, pos as int) is Some,
        r is Some ==> (r->0).0 as int == (run_len_at(data@, pos as int)->0).0 && (r->0).1 as int
            == (run_len_at(data@, pos as int)->0).1 && pos < (r->0).1 <= data@.len(),
{
    let mut extra: u64 = 0;
    let mut p: usize = pos;
    let dl: usize = data.len();
    while p < dl && data[p] == 255
        invariant
            pos <= p <= dl,
            dl == data@.len(),
            data@.len() <= MAX_TILE_DATA,
            extra == 255 * (p - pos),
            run_len_at(data@, pos as int) == match run_len_at(data@, p as int) {
                Some((r, q)) => Some((extra as int + r, q)),
                None => None::<(int, int)>,
            },
        decreases dl - p,
    {
        extra = extra + 255;
        p = p + 1;
    }
    if p >= dl {
        return None;
    }
    let b: u8 = data[p];
    Some((extra + b as u64 + 1, p + 1))
}


/// A parse that did not produce a tile: `Short` asks for more bytes,
/// `Bad` is corrupt data.
#[derive(Debug, Clone, Copy, PartialEq, Eq, Structural)]
pub enum TileError {
    Short,
    Bad,
}

/// One compressed pixel at `pos`, expanded to `bpp` bytes.
pub open spec fn cpixel_seq1(data: Seq<u8>, pos: int, bpp: int, cbpp: int, pad: bool) -> Seq<u8> {
    Seq::new(bpp as nat, |j: int| cpixel_byte(data, pos, cbpp, pad, j))
}

/// How many bits one packed palette index takes for a palette of `size`.
pub open spec fn bits_per_index(size: int) -> int {
    if size == 2 {
        1
    } else if size <= 4 {
        2
    } else {
        4
    }
}

/// How many bytes one packed row of `tw` indices takes.
pub open spec fn packed_row_bytes(tw: int, bpi: int) -> int {
    (tw * bpi + 7) / 8
}

/// The packed palette index of the pixel at column `x` of row `y`:
/// `bpi`-bit fields, most significant first, rows padded to whole bytes.
/// A byte holds `8 / bpi` fields.
pub open spec fn packed_index(data: Seq<u8>, base: int, tw: int, bpi: int, x: int, y: int) -> int {
    let per = 8int / bpi;
    (((data[base + y * packed_row_bytes(tw, bpi) + x / per] as u32) >> ((8 - bpi - (x % per) * bpi)
        as u32)) & (((1u32 << (bpi as u32)) - 1) as u32)) as int
}

/// Whether every packed index of the tile stays inside the palette.
pub open spec fn packed_ok(
    data: Seq<u8>,
    base: int,
    tw: int,
    th: int,
    bpi: int,
    size: int,
) -> bool {
    forall|x: int, y: int|
        0 <= x < tw && 0 <= y < th ==> packed_index(data, base, tw, bpi, x, y) < size
}

/// The packed-palette tile's pixels.
pub open spec fn packed_pixels(
    data: Seq<u8>,
    base: int,
    tw: int,
    th: int,
    bpi: int,
    palette: Seq<u8>,
    bpp: int,
) -> Seq<u8> {
    Seq::new(
        (tw * th * bpp) as nat,
        |i: int|
            {
                let p = i / bpp;
                palette[packed_index(data, base, tw, bpi, p % tw, p / tw) * bpp + i % bpp]
            },
    )
}

/// The plain run-length tile's pixels from `pos` while `remaining` pixels
/// are owed: groups of one compressed pixel and one run length. A run may
/// overshoot the count, exactly as it arrives.
pub open spec fn plain_rle_at(
    data: Seq<u8>,
    pos: int,
    remaining: int,
    bpp: int,
    cbpp: int,
    pad: bool,
) -> Option<(Seq<u8>, int)>
    decreases remaining,
{
    if remaining <= 0 {
        Some((Seq::empty(), pos))
    } else if pos < 0 || pos + cbpp > data.len() {
        None
    } else {
        let px = cpixel_seq1(data, pos, bpp, cbpp, pad);
        match run_len_at(data, pos + cbpp) {
            None => None,
            Some((run, p2)) => {
                let run1 = if run < 1 {
                    1
                } else {
                    run
                };
                let rem2 = if remaining - run1 < 0 {
                    0
                } else {
                    remaining - run1
                };
                match plain_rle_at(data, p2, rem2, bpp, cbpp, pad) {
                    None => None,
                    Some((rest, p3)) => Some((repeat_px(px, run1) + rest, p3)),
                }
            },
        }
    }
}

/// The palette run-length tile's pixels: each group is a control byte —
/// bit 7 selects an explicit run length, bits 0..6 the palette index —
/// and the optional run length. An index outside the palette fails.
pub open spec fn palette_rle_at(
    data: Seq<u8>,
    pos: int,
    remaining: int,
    palette: Seq<u8>,
    size: int,
    bpp: int,
) -> Option<(Seq<u8>, int)>
    decreases remaining,
{
    if remaining <= 0 {
        Some((Seq::empty(), pos))
    } else if pos < 0 || pos >= data.len() {
        None
    } else {
        let c = data[pos];
        let idx = (c & 0x7f) as int;
        if idx >= size {
            None
        } else {
            let px = palette.subrange(idx * bpp, idx * bpp + bpp);
            if c & 0x80 == 0 {
                match palette_rle_at(data, pos + 1, remaining - 1, palette, size, bpp) {
                    None => None,
                    Some((rest, p2)) => Some((px + rest, p2)),
                }
            } else {
                match run_len_at(data, pos + 1) {
                    None => None,
                    Some((run, p2)) => {
                        let run1 = if run < 1 {
                            1
                        } else {
                            run
                        };
                        let rem2 = if remaining - run1 < 0 {
                            0
                        } else {
                            remaining - run1
                        };
                        match palette_rle_at(data, p2, rem2, palette, size, bpp) {
                            None => None,
                            Some((rest, p3)) => Some((repeat_px(px, run1) + rest, p3)),
                        }
                    },
                }
            }
        }
    }
}

/// One whole tile at `pos`: the control byte, the palette, and the pixel
/// payload of the selected sub-encoding. `None` is any failure — a buffer
/// that ends too early, an unknown sub-encoding, or a palette index out of
/// range.
pub open spec fn tile_at(
    data: Seq<u8>,
    pos: int,
    tw: int,
    th: int,
    bpp: int,
    cbpp: int,
    pad: bool,
) -> Option<(Seq<u8>, int)> {
    if pos < 0 || pos >= data.len() {
        None
    } else {
        let control = data[pos];
        let is_rle = control & 0x80 != 0;
        let psize = (control & 0x7f) as int;
        let pal_pos = pos + 1;
        let pal_end = pal_pos + psize * cbpp;
        if pal_end > data.len() {
            None
        } else {
            let palette = cpixels_seq(data, pal_pos, psize, bpp, cbpp, pad);
            let n = tw * th;
            if !is_rle && psize == 0 {
                if pal_end + n * cbpp <= data.len() {
                    Some((cpixels_seq(data, pal_end, n, bpp, cbpp, pad), pal_end + n * cbpp))
                } else {
                    None
                }
            } else if !is_rle && psize == 1 {
                Some((repeat_px(palette, n), pal_end))
            } else if !is_rle && psize <= 16 {
                let bpi = bits_per_index(psize);
                let rowb = packed_row_bytes(tw, bpi);
                if pal_end + th * rowb <= data.len() {
                    if packed_ok(data, pal_end, tw, th, bpi, psize) {
                        Some(
                            (packed_pixels(data, pal_end, tw, th, bpi, palette, bpp), pal_end + th
                                * rowb),
                        )
                    } else {
                        None
                    }
                } else {
                    None
                }
            } else if is_rle && psize == 0 {
                plain_rle_at(data, pal_end, n, bpp, cbpp, pad)
            } else if is_rle && psize >= 2 {
                palette_rle_at(data, pal_end, n, palette, psize, bpp)
            } else {
                None
            }
        }
    }
}

/// Appending one more copy extends a repetition by the pixel itself.
pub proof fn lemma_repeat_px_step(px: Seq<u8>, k: int)
    requires
        k >= 0,
        px.len() > 0,
    ensures
        repeat_px(px, k + 1) == repeat_px(px, k) + px,
{
    let l = px.len() as int;
    assert((k + 1) * l == k * l + l) by (nonlinear_arith);
    assert(k * l >= 0) by (nonlinear_arith)
        requires
            k >= 0,
            l > 0,
    ;
    assert forall|i: int| 0 <= i < (k + 1) * l implies repeat_px(px, k + 1)[i] == (repeat_px(px, k)
        + px)[i] by {
        if i < k * l {
        } else {
            lemma_fundamental_div_mod_converse(i, l, k, i - k * l);
        }
    }
    assert(repeat_px(px, k + 1) =~= repeat_px(px, k) + px);
}


/// Parses one tile. `Short` asks for more bytes; `Bad` is corrupt data.
/// The tile's pixels and the offset after it are exactly what [`tile_at`]
/// gives, and parsing fails exactly when it gives nothing.
pub fn parse_tile(
    data: &Vec<u8>,
    pos: usize,
    tw: usize,
    th: usize,
    bpp: usize,
    cbpp: usize,
    pad: bool,
) -> (r: Result<(Vec<u8>, usize), TileError>)
    requires
        pos <= data@.len(),
        data@.len() <= MAX_TILE_DATA,
        1 <= tw <= 0xffff,
        1 <= th <= 0xffff,
        1 <= bpp <= 4,
        1 <= cbpp <= bpp,
        pad ==> cbpp + 1 <= 4,
        tw * th * bpp <= usize::MAX,
    ensures
        r is Ok <==> tile_at(data@, pos as int, tw as int, th as int, bpp as int, cbpp as int, pad)
            is Some,
        r is Ok ==> (r->Ok_0).0@ == (tile_at(
            data@,
            pos as int,
            tw as int,
            th as int,
            bpp as int,
            cbpp as int,
            pad,
        )->0).0,
        r is Ok ==> (r->Ok_0).1 as int == (tile_at(
            data@,
            pos as int,
            tw as int,
            th as int,
            bpp as int,
            cbpp as int,
            pad,
        )->0).1 && pos < (r->Ok_0).1 <= data@.len(),
{
    let ghost spec_r = tile_at(
        data@,
        pos as int,
        tw as int,
        th as int,
        bpp as int,
        cbpp as int,
        pad,
    );
    let dl: usize = data.len();
    if pos >= dl {
        return Err(TileError::Short);
    }
    let control: u8 = data[pos];
    let is_rle: bool = control & 0x80 != 0;
    proof {
        assert(control & 0x7f < 128) by (bit_vector);
    }
    let psize: usize = (control & 0x7f) as usize;
    let pal_pos: usize = pos + 1;
    proof {
        assert(psize * cbpp <= 508) by (nonlinear_arith)
            requires
                psize < 128,
                cbpp <= 4,
        ;
    }
    let pal_end: usize = pal_pos + psize * cbpp;
    if pal_end > dl {
        return Err(TileError::Short);
    }
    let mut palette: Vec<u8> = Vec::new();
    let ghost spec_palette = cpixels_seq(
        data@,
        pal_pos as int,
        psize as int,
        bpp as int,
        cbpp as int,
        pad,
    );
    proof {
        assert(0 * bpp == 0 && 0 * cbpp == 0) by (nonlinear_arith);
    }
    for k in 0..psize
        invariant
            pal_pos + psize * cbpp == pal_end <= data@.len() <= usize::MAX,
            psize < 128,
            1 <= bpp <= 4,
            1 <= cbpp <= bpp,
            pad ==> cbpp + 1 <= 4,
            spec_palette == cpixels_seq(
                data@,
                pal_pos as int,
                psize as int,
                bpp as int,
                cbpp as int,
                pad,
            ),
            palette@.len() == k * bpp,
            forall|i: int| 0 <= i < palette@.len() ==> palette@[i] == spec_palette[i],
    {
        proof {
            assert(k * cbpp + cbpp <= psize * cbpp && k * bpp + bpp <= psize * bpp)
                by (nonlinear_arith)
                requires
                    k < psize,
                    cbpp >= 1,
                    bpp >= 1,
            ;
        }
        let cp = read_cpixel(data, pal_pos + k * cbpp, bpp, cbpp, pad);
        proof {
            assert((k + 1) * bpp == k * bpp + bpp && (k + 1) * cbpp == k * cbpp + cbpp)
                by (nonlinear_arith);
            assert forall|o: int| 0 <= o < bpp implies cp@[o] == spec_palette[k * bpp + o] by {
                lemma_fundamental_div_mod_converse(k * bpp + o, bpp as int, k as int, o);
            }
        }
        palette.extend_from_slice(cp.as_slice());
    }
    proof {
        assert(palette@ =~= spec_palette);
    }
    proof {
        assert(tw * th <= tw * th * bpp) by (nonlinear_arith)
            requires
                tw >= 1,
                th >= 1,
                bpp >= 1,
        ;
    }
    let n: usize = tw * th;
    proof {
        assert(n <= 0xffff * 0xffff && n * cbpp <= 0xffff * 0xffff * 4 && n * bpp <= 0xffff * 0xffff
            * 4) by (nonlinear_arith)
            requires
                n == tw * th,
                tw <= 0xffff,
                th <= 0xffff,
                1 <= cbpp <= 4,
                1 <= bpp <= 4,
        ;
    }
    let n64: u64 = n as u64;
    if !is_rle && psize == 0 {
        proof {
            assert((n as u64) * (cbpp as u64) == n * cbpp) by (nonlinear_arith);
            assert(n * cbpp <= n * bpp) by (nonlinear_arith)
                requires
                    cbpp <= bpp,
                    n >= 0,
            ;
        }
        let need: u64 = (n as u64) * (cbpp as u64);
        if (pal_end as u64) + need > (dl as u64) {
            return Err(TileError::Short);
        }
        let mut out: Vec<u8> = Vec::new();
        let ghost spec_px = cpixels_seq(
            data@,
            pal_end as int,
            n as int,
            bpp as int,
            cbpp as int,
            pad,
        );
        proof {
            assert(tile_at(
                data@,
                pos as int,
                tw as int,
                th as int,
                bpp as int,
                cbpp as int,
                pad,
            ) == Some((spec_px, pal_end as int + n * cbpp)));
        }
        for k in 0..n
            invariant
                pal_end + n * cbpp <= data@.len() <= usize::MAX,
                tile_at(
                    data@,
                    pos as int,
                    tw as int,
                    th as int,
                    bpp as int,
                    cbpp as int,
                    pad,
                ) == Some((spec_px, pal_end as int + n * cbpp)),
                1 <= bpp <= 4,
                1 <= cbpp <= bpp,
                pad ==> cbpp + 1 <= 4,
                spec_px == cpixels_seq(
                    data@,
                    pal_end as int,
                    n as int,
                    bpp as int,
                    cbpp as int,
                    pad,
                ),
                out@.len() == k * bpp,
                forall|i: int| 0 <= i < out@.len() ==> out@[i] == spec_px[i],
        {
            proof {
                assert(k * cbpp + cbpp <= n * cbpp && k * bpp + bpp <= n * bpp)
                    by (nonlinear_arith)
                    requires
                        k < n,
                        cbpp >= 1,
                        bpp >= 1,
                ;
            }
            let cp = read_cpixel(data, pal_end + k * cbpp, bpp, cbpp, pad);
            proof {
                assert((k + 1) * bpp == k * bpp + bpp && (k + 1) * cbpp == k * cbpp + cbpp)
                    by (nonlinear_arith);
                assert forall|o: int| 0 <= o < bpp implies cp@[o] == spec_px[k * bpp + o] by {
                    lemma_fundamental_div_mod_converse(k * bpp + o, bpp as int, k as int, o);
                }
            }
            out.extend_from_slice(cp.as_slice());
        }
        proof {
            assert(out@ =~= spec_px);
        }
        Ok((out, pal_end + n * cbpp))
    } else if !is_rle && psize == 1 {
        let mut out: Vec<u8> = Vec::new();
        proof {
            assert(tile_at(
                data@,
                pos as int,
                tw as int,
                th as int,
                bpp as int,
                cbpp as int,
                pad,
            ) == Some((repeat_px(spec_palette, n as int), pal_end as int)));
        }
        proof {
            assert(1 * bpp == bpp && 0 * palette@.len() == 0) by (nonlinear_arith);
            assert(repeat_px(palette@, 0) =~= Seq::<u8>::empty());
        }
        for k in 0..n
            invariant
                tile_at(
                    data@,
                    pos as int,
                    tw as int,
                    th as int,
                    bpp as int,
                    cbpp as int,
                    pad,
                ) == Some((repeat_px(palette@, n as int), pal_end as int)),
                palette@ == spec_palette,
                palette@.len() == bpp,
                1 <= bpp <= 4,
                out@ == repeat_px(palette@, k as int),
        {
            proof {
                lemma_repeat_px_step(palette@, k as int);
            }
            out.extend_from_slice(palette.as_slice());
        }
        Ok((out, pal_end))
    } else if !is_rle && psize <= 16 {
        let bpi: usize = if psize == 2 {
            1
        } else if psize <= 4 {
            2
        } else {
            4
        };
        let per: usize = 8 / bpi;
        proof {
            assert(tw * bpi + 7 <= 0xffff * 4 + 7) by (nonlinear_arith)
                requires
                    tw <= 0xffff,
                    bpi <= 4,
            ;
        }
        let rowb: usize = (tw * bpi + 7) / 8;
        proof {
            assert((th as u64) * (rowb as u64) == th * rowb) by (nonlinear_arith);
            assert(th * rowb >= 0 && th * rowb <= 0xffff * 0x8001) by (nonlinear_arith)
                requires
                    1 <= th <= 0xffff,
                    0 <= rowb <= 0x8001,
            ;
        }
        let need: u64 = (th as u64) * (rowb as u64);
        if (pal_end as u64) + need > (dl as u64) {
            return Err(TileError::Short);
        }
        let ghost spec_px = packed_pixels(
            data@,
            pal_end as int,
            tw as int,
            th as int,
            bpi as int,
            palette@,
            bpp as int,
        );
        let mut out: Vec<u8> = Vec::new();
        let ghost spec_link = (if packed_ok(
            data@,
            pal_end as int,
            tw as int,
            th as int,
            bpi as int,
            psize as int,
        ) {
            Some((spec_px, pal_end as int + th * rowb))
        } else {
            None::<(Seq<u8>, int)>
        });
        proof {
            assert(0 * tw * bpp == 0) by (nonlinear_arith);
            assert(tile_at(
                data@,
                pos as int,
                tw as int,
                th as int,
                bpp as int,
                cbpp as int,
                pad,
            ) == spec_link);
        }
        for y in 0..th
            invariant
                pal_end + th * rowb <= data@.len() <= usize::MAX,
                tile_at(
                    data@,
                    pos as int,
                    tw as int,
                    th as int,
                    bpp as int,
                    cbpp as int,
                    pad,
                ) == spec_link,
                spec_link == (if packed_ok(
                    data@,
                    pal_end as int,
                    tw as int,
                    th as int,
                    bpi as int,
                    psize as int,
                ) {
                    Some((spec_px, pal_end as int + th * rowb))
                } else {
                    None::<(Seq<u8>, int)>
                }),
                2 <= psize <= 16,
                bpi as int == bits_per_index(psize as int),
                per as int == 8int / (bpi as int),
                rowb as int == packed_row_bytes(tw as int, bpi as int),
                1 <= tw <= 0xffff,
                1 <= th <= 0xffff,
                1 <= bpp <= 4,
                tw * th * bpp <= usize::MAX,
                palette@ == spec_palette,
                palette@.len() == psize * bpp,
                spec_px == packed_pixels(
                    data@,
                    pal_end as int,
                    tw as int,
                    th as int,
                    bpi as int,
                    palette@,
                    bpp as int,
                ),
                out@.len() == y * tw * bpp,
                forall|i: int| 0 <= i < out@.len() ==> out@[i] == spec_px[i],
                forall|xq: int, yq: int|
                    0 <= xq < tw && 0 <= yq < y ==> packed_index(
                        data@,
                        pal_end as int,
                        tw as int,
                        bpi as int,
                        xq,
                        yq,
                    ) < psize,
        {
            proof {
                assert(y * tw * bpp + tw * bpp <= tw * th * bpp && (y + 1) * tw * bpp == y * tw
                    * bpp + tw * bpp && (y + 1) * rowb <= th * rowb) by (nonlinear_arith)
                    requires
                        y < th,
                        tw >= 1,
                        bpp >= 1,
                        rowb >= 0,
                ;
            }
            proof {
                assert(0 * bpp == 0) by (nonlinear_arith);
            }
            for x in 0..tw
                invariant
                    pal_end + th * rowb <= data@.len() <= usize::MAX,
                    tile_at(
                        data@,
                        pos as int,
                        tw as int,
                        th as int,
                        bpp as int,
                        cbpp as int,
                        pad,
                    ) == spec_link,
                    spec_link == (if packed_ok(
                        data@,
                        pal_end as int,
                        tw as int,
                        th as int,
                        bpi as int,
                        psize as int,
                    ) {
                        Some((spec_px, pal_end as int + th * rowb))
                    } else {
                        None::<(Seq<u8>, int)>
                    }),
                    2 <= psize <= 16,
                    bpi as int == bits_per_index(psize as int),
                    per as int == 8int / (bpi as int),
                    rowb as int == packed_row_bytes(tw as int, bpi as int),
                    1 <= tw <= 0xffff,
                    1 <= th <= 0xffff,
                    y < th,
                    1 <= bpp <= 4,
                    tw * th * bpp <= usize::MAX,
                    y * tw * bpp + tw * bpp <= tw * th * bpp,
                    (y + 1) * rowb <= th * rowb,
                    palette@ == spec_palette,
                    palette@.len() == psize * bpp,
                    spec_px == packed_pixels(
                        data@,
                        pal_end as int,
                        tw as int,
                        th as int,
                        bpi as int,
                        palette@,
                        bpp as int,
                    ),
                    out@.len() == y * tw * bpp + x * bpp,
                    forall|i: int| 0 <= i < out@.len() ==> out@[i] == spec_px[i],
                    forall|xq: int, yq: int|
                        0 <= xq < tw && 0 <= yq < y ==> packed_index(
                            data@,
                            pal_end as int,
                            tw as int,
                            bpi as int,
                            xq,
                            yq,
                        ) < psize,
                    forall|xq: int|
                        0 <= xq < x ==> packed_index(
                            data@,
                            pal_end as int,
                            tw as int,
                            bpi as int,
                            xq,
                            y as int,
                        ) < psize,
            {
                proof {
                    vstd::arithmetic::div_mod::lemma_fundamental_div_mod(
                        tw as int * bpi as int + 7,
                        8,
                    );
                    assert(8 * (rowb as int) >= tw * bpi);
                    assert(per * bpi == 8);
                    assert((per as int) * (rowb as int) >= tw) by (nonlinear_arith)
                        requires
                            (per as int) * (bpi as int) == 8,
                            8 * (rowb as int) >= (tw as int) * (bpi as int),
                            bpi >= 1,
                            per >= 1,
                            rowb >= 0,
                            tw >= 1,
                    ;
                    vstd::arithmetic::div_mod::lemma_multiply_divide_lt(
                        x as int,
                        per as int,
                        rowb as int,
                    );
                    let ghost xb = (x as int) / (per as int);
                    assert(y * (rowb as int) + xb + 1 <= th * (rowb as int)) by (nonlinear_arith)
                        requires
                            0 <= xb < rowb as int,
                            0 <= (y as int) < th as int,
                    ;
                }
                let byte_idx: usize = pal_end + y * rowb + x / per;
                let sub: usize = x % per;
                proof {
                    assert((sub as int) * (bpi as int) + (bpi as int) <= 8) by (nonlinear_arith)
                        requires
                            0 <= sub < per,
                            (per as int) * (bpi as int) == 8,
                            bpi >= 1,
                    ;
                }
                let shift: u32 = (8 - bpi - sub * bpi) as u32;
                let bits: u32 = ((data[byte_idx] as u32) >> shift) & (if bpi == 1 {
                    1
                } else if bpi == 2 {
                    3
                } else {
                    15
                });
                proof {
                    let b32 = data@[byte_idx as int] as u32;
                    assert((b32 >> shift) & 1u32 <= 1 && (b32 >> shift) & 3u32 <= 3 && (b32
                        >> shift) & 15u32 <= 15) by (bit_vector);
                    assert(bpi == 1 ==> (1u32 << 1u32) - 1 == 1) by (bit_vector);
                    assert(bpi == 2 ==> (1u32 << 2u32) - 1 == 3) by (bit_vector);
                    assert(bpi == 4 ==> (1u32 << 4u32) - 1 == 15) by (bit_vector);
                }
                let idx: usize = bits as usize;
                proof {
                    assert(idx as int == packed_index(
                        data@,
                        pal_end as int,
                        tw as int,
                        bpi as int,
                        x as int,
                        y as int,
                    ));
                }
                if idx >= psize {
                    proof {
                        assert(packed_index(
                            data@,
                            pal_end as int,
                            tw as int,
                            bpi as int,
                            x as int,
                            y as int,
                        ) >= psize as int);
                        assert(!packed_ok(
                            data@,
                            pal_end as int,
                            tw as int,
                            th as int,
                            bpi as int,
                            psize as int,
                        ));
                    }
                    return Err(TileError::Bad);
                }
                proof {
                    assert((idx as int + 1) * bpp <= psize * bpp && 0 <= (idx as int) * bpp && (idx
                        as int) * bpp + bpp == (idx as int + 1) * bpp) by (nonlinear_arith)
                        requires
                            idx < psize,
                            bpp >= 1,
                    ;
                }
                let ghost old_len = out@.len() as int;
                copy_indexed(&palette, &mut out, bpp, idx as u8);
                proof {
                    let p = y * (tw as int) + x;
                    lemma_fundamental_div_mod_converse(p, tw as int, y as int, x as int);
                    assert((y * (tw as int) + x) * bpp == y * (tw as int) * bpp + (x as int) * bpp)
                        by (nonlinear_arith);
                    assert(p * bpp == y * (tw as int) * bpp + (x as int) * bpp);
                    assert forall|j: int| 0 <= j < out@.len() implies #[trigger] out@[j]
                        == spec_px[j] by {
                        if j >= old_len {
                            let o = j - old_len;
                            lemma_fundamental_div_mod_converse(j, bpp as int, p, o);
                            assert(j < tw * th * bpp) by (nonlinear_arith)
                                requires
                                    j == p * bpp + o,
                                    0 <= o < bpp,
                                    p == y * tw + x,
                                    0 <= x < tw,
                                    0 <= y < th,
                                    y * tw * bpp + tw * bpp <= tw * th * bpp,
                            ;
                        }
                    }
                    assert(out@.len() == y * tw * bpp + x * bpp + bpp);
                    assert(out@.len() == y * tw * bpp + (x + 1) * bpp) by (nonlinear_arith)
                        requires
                            out@.len() == y * tw * bpp + x * bpp + bpp,
                    ;
                }
            }
        }
        proof {
            assert(th * tw * bpp == tw * th * bpp) by (nonlinear_arith);
            assert(out@ =~= spec_px);
        }
        Ok((out, pal_end + th * rowb))
    } else if is_rle && psize == 0 {
        let mut out: Vec<u8> = Vec::new();
        let mut p: usize = pal_end;
        let mut remaining: u64 = n64;
        proof {
            assert(tile_at(
                data@,
                pos as int,
                tw as int,
                th as int,
                bpp as int,
                cbpp as int,
                pad,
            ) == plain_rle_at(data@, pal_end as int, n64 as int, bpp as int, cbpp as int, pad));
        }
        while remaining > 0
            invariant
                pal_end <= p <= data@.len() <= MAX_TILE_DATA,
                tile_at(
                    data@,
                    pos as int,
                    tw as int,
                    th as int,
                    bpp as int,
                    cbpp as int,
                    pad,
                ) == plain_rle_at(
                    data@,
                    pal_end as int,
                    n64 as int,
                    bpp as int,
                    cbpp as int,
                    pad,
                ),
                dl == data@.len(),
                1 <= bpp <= 4,
                1 <= cbpp <= bpp,
                pad ==> cbpp + 1 <= 4,
                remaining <= n64,
                plain_rle_at(
                    data@,
                    pal_end as int,
                    n64 as int,
                    bpp as int,
                    cbpp as int,
                    pad,
                ) == match plain_rle_at(
                    data@,
                    p as int,
                    remaining as int,
                    bpp as int,
                    cbpp as int,
                    pad,
                ) {
                    Some((rest, e)) => Some((out@ + rest, e)),
                    None => None::<(Seq<u8>, int)>,
                },
            decreases remaining,
        {
            if p + cbpp > dl {
                proof {
                    assert(plain_rle_at(
                        data@,
                        p as int,
                        remaining as int,
                        bpp as int,
                        cbpp as int,
                        pad,
                    ) is None);
                }
                return Err(TileError::Short);
            }
            let px = read_cpixel(data, p, bpp, cbpp, pad);
            let (run, p2) = match read_run_length(data, p + cbpp) {
                Some(v) => v,
                None => {
                    proof {
                        assert(plain_rle_at(
                            data@,
                            p as int,
                            remaining as int,
                            bpp as int,
                            cbpp as int,
                            pad,
                        ) is None);
                    }
                    return Err(TileError::Short);
                },
            };
            let run1: u64 = if run == 0 {
                1
            } else {
                run
            };
            let ghost out_before = out@;
            proof {
                assert(0 * px@.len() == 0) by (nonlinear_arith);
                assert(repeat_px(px@, 0) =~= Seq::<u8>::empty());
                assert(out@ =~= out_before + repeat_px(px@, 0));
            }
            let mut k: u64 = 0;
            while k < run1
                invariant
                    k <= run1,
                    px@.len() == bpp,
                    1 <= bpp <= 4,
                    out@ == out_before + repeat_px(px@, k as int),
                decreases run1 - k,
            {
                proof {
                    lemma_repeat_px_step(px@, k as int);
                }
                out.extend_from_slice(px.as_slice());
                proof {
                    assert(out@ =~= out_before + repeat_px(px@, k as int + 1));
                }
                k = k + 1;
            }
            let new_remaining: u64 = if run1 >= remaining {
                0
            } else {
                remaining - run1
            };
            proof {
                let ghost sub_old = plain_rle_at(
                    data@,
                    p as int,
                    remaining as int,
                    bpp as int,
                    cbpp as int,
                    pad,
                );
                let ghost sub_new = plain_rle_at(
                    data@,
                    p2 as int,
                    new_remaining as int,
                    bpp as int,
                    cbpp as int,
                    pad,
                );
                assert(px@ == cpixel_seq1(data@, p as int, bpp as int, cbpp as int, pad));
                match sub_new {
                    Some((rest, e)) => {
                        assert((out_before + repeat_px(px@, run1 as int)) + rest =~= out_before
                            + (repeat_px(px@, run1 as int) + rest));
                    },
                    None => {},
                }
            }
            p = p2;
            remaining = new_remaining;
        }
        proof {
            assert(out@ + Seq::<u8>::empty() =~= out@);
        }
        Ok((out, p))
    } else if is_rle && psize >= 2 {
        let mut out: Vec<u8> = Vec::new();
        let mut p: usize = pal_end;
        let mut remaining: u64 = n64;
        proof {
            assert(tile_at(
                data@,
                pos as int,
                tw as int,
                th as int,
                bpp as int,
                cbpp as int,
                pad,
            ) == palette_rle_at(
                data@,
                pal_end as int,
                n64 as int,
                spec_palette,
                psize as int,
                bpp as int,
            ));
        }
        while remaining > 0
            invariant
                pal_end <= p <= data@.len() <= MAX_TILE_DATA,
                tile_at(
                    data@,
                    pos as int,
                    tw as int,
                    th as int,
                    bpp as int,
                    cbpp as int,
                    pad,
                ) == palette_rle_at(
                    data@,
                    pal_end as int,
                    n64 as int,
                    palette@,
                    psize as int,
                    bpp as int,
                ),
                dl == data@.len(),
                1 <= bpp <= 4,
                2 <= psize < 128,
                palette@ == spec_palette,
                palette@.len() == psize * bpp,
                remaining <= n64,
                palette_rle_at(
                    data@,
                    pal_end as int,
                    n64 as int,
                    palette@,
                    psize as int,
                    bpp as int,
                ) == match palette_rle_at(
                    data@,
                    p as int,
                    remaining as int,
                    palette@,
                    psize as int,
                    bpp as int,
                ) {
                    Some((rest, e)) => Some((out@ + rest, e)),
                    None => None::<(Seq<u8>, int)>,
                },
            decreases remaining,
        {
            if p >= dl {
                proof {
                    assert(palette_rle_at(
                        data@,
                        p as int,
                        remaining as int,
                        palette@,
                        psize as int,
                        bpp as int,
                    ) is None);
                }
                return Err(TileError::Short);
            }
            let c: u8 = data[p];
            proof {
                assert(c & 0x7f < 128) by (bit_vector);
            }
            let idx: usize = (c & 0x7f) as usize;
            if idx >= psize {
                proof {
                    assert(palette_rle_at(
                        data@,
                        p as int,
                        remaining as int,
                        palette@,
                        psize as int,
                        bpp as int,
                    ) is None);
                }
                return Err(TileError::Bad);
            }
            proof {
                assert((idx as int + 1) * bpp <= psize * bpp && 0 <= (idx as int) * bpp)
                    by (nonlinear_arith)
                    requires
                        idx < psize,
                        bpp >= 1,
                ;
            }
            let ghost px = palette@.subrange((idx as int) * bpp, (idx as int) * bpp + bpp);
            let longer: bool = c & 0x80 != 0;
            let ghost out_before = out@;
            let run1: u64;
            let p2: usize;
            if longer {
                let (run, pr) = match read_run_length(data, p + 1) {
                    Some(v) => v,
                    None => {
                        proof {
                            assert(palette_rle_at(
                                data@,
                                p as int,
                                remaining as int,
                                palette@,
                                psize as int,
                                bpp as int,
                            ) is None);
                        }
                        return Err(TileError::Short);
                    },
                };
                run1 = if run == 0 {
                    1
                } else {
                    run
                };
                p2 = pr;
            } else {
                run1 = 1;
                p2 = p + 1;
            }
            proof {
                assert(px.len() == bpp) by {
                    assert((idx as int) * bpp + bpp == (idx as int + 1) * bpp && 0 <= (idx as int)
                        * bpp) by (nonlinear_arith);
                }
                assert(0 * px.len() == 0) by (nonlinear_arith);
                assert(repeat_px(px, 0) =~= Seq::<u8>::empty());
                assert(out@ =~= out_before + repeat_px(px, 0));
            }
            let mut k: u64 = 0;
            while k < run1
                invariant
                    k <= run1,
                    idx < psize < 128,
                    palette@.len() == psize * bpp,
                    (idx as int + 1) * bpp <= psize * bpp,
                    0 <= (idx as int) * bpp,
                    px == palette@.subrange((idx as int) * bpp, (idx as int) * bpp + bpp),
                    1 <= bpp <= 4,
                    out@ == out_before + repeat_px(px, k as int),
                decreases run1 - k,
            {
                proof {
                    assert((idx as int) * bpp + bpp == (idx as int + 1) * bpp && 0 <= (idx as int)
                        * bpp) by (nonlinear_arith);
                    assert(px.len() == bpp);
                    lemma_repeat_px_step(px, k as int);
                }
                copy_indexed(&palette, &mut out, bpp, idx as u8);
                proof {
                    assert(out@ =~= out_before + repeat_px(px, k as int + 1));
                }
                k = k + 1;
            }
            let new_remaining: u64 = if run1 >= remaining {
                0
            } else {
                remaining - run1
            };
            proof {
                let ghost sub_new = palette_rle_at(
                    data@,
                    p2 as int,
                    new_remaining as int,
                    palette@,
                    psize as int,
                    bpp as int,
                );
                match sub_new {
                    Some((rest, e)) => {
                        assert((out_before + repeat_px(px, run1 as int)) + rest =~= out_before + (
                        repeat_px(px, run1 as int) + rest));
                        assert(1 * px.len() == px.len()) by (nonlinear_arith);
                        assert forall|i: int| 0 <= i < px.len() implies #[trigger] repeat_px(
                            px,
                            1,
                        )[i] == px[i] by {
                            vstd::arithmetic::div_mod::lemma_small_mod(
                                i as nat,
                                px.len(),
                            );
                        }
                        assert(repeat_px(px, 1) =~= px);
                    },
                    None => {},
                }
            }
            p = p2;
            remaining = new_remaining;
        }
        proof {
            assert(out@ + Seq::<u8>::empty() =~= out@);
        }
        Ok((out, p))
    } else {
        Err(TileError::Bad)
    }
}


/// How many 64-pixel tiles cover a span of `len` pixels.
pub open spec fn tiles_across(len: int) -> int {
    (len + 63) / 64
}

/// The length of tile `k` along a span of `len` pixels: 64, or what is
/// left at the edge.
pub open spec fn tile_len(len: int, k: int) -> int {
    if len - 64 * k < 64 {
        len - 64 * k
    } else {
        64
    }
}

/// How many tiles cover a `w` by `h` rectangle.
pub open spec fn tile_count(w: int, h: int) -> int {
    tiles_across(w) * tiles_across(h)
}

/// Tile `i` of a rectangle, in row-major order: its absolute position and
/// its clipped size.
pub open spec fn zrle_tile_dims(rect: Rect, i: int) -> (int, int, int, int) {
    let cx = tiles_across(rect.width as int);
    let col = i % cx;
    let row = i / cx;
    (
        rect.x + 64 * col,
        rect.y + 64 * row,
        tile_len(rect.width as int, col),
        tile_len(rect.height as int, row),
    )
}

/// The sum of the areas of the first `n` tiles of a `w` by `h` rectangle.
pub open spec fn tile_area_sum(w: int, h: int, n: int) -> int
    decreases n,
{
    if n <= 0 {
        0
    } else {
        let cx = tiles_across(w);
        tile_area_sum(w, h, n - 1) + tile_len(w, (n - 1) % cx) * tile_len(h, (n - 1) / cx)
    }
}

/// The sum of the first `k` tile lengths along a span.
pub open spec fn tile_len_sum(len: int, k: int) -> int
    decreases k,
{
    if k <= 0 {
        0
    } else {
        tile_len_sum(len, k - 1) + tile_len(len, k - 1)
    }
}

/// The clipped tile lengths along a span add up to the span: the tiles
/// before the last are 64 long and the last is the remainder.
pub proof fn lemma_tile_len_sum(len: int, k: int)
    requires
        1 <= len,
        0 <= k <= tiles_across(len),
    ensures
        tile_len_sum(len, k) == if 64 * k < len {
            64 * k
        } else {
            len
        },
    decreases k,
{
    vstd::arithmetic::div_mod::lemma_fundamental_div_mod(len + 63, 64);
    if k > 0 {
        lemma_tile_len_sum(len, k - 1);
    }
}

/// The tile areas of a rectangle add up to its area: the grid of 64-pixel
/// tiles, clipped at the right and bottom edges, covers the rectangle
/// exactly once.
pub proof fn lemma_zrle_tiling(w: int, h: int)
    requires
        1 <= w,
        1 <= h,
    ensures
        tile_area_sum(w, h, tile_count(w, h)) == w * h,
{
    let cx = tiles_across(w);
    let cy = tiles_across(h);
    vstd::arithmetic::div_mod::lemma_fundamental_div_mod(w + 63, 64);
    vstd::arithmetic::div_mod::lemma_fundamental_div_mod(h + 63, 64);
    assert(cx >= 1 && cy >= 1);
    lemma_zrle_tiling_rows(w, h, cy);
    lemma_tile_len_sum(h, cy);
    assert(64 * cy >= h);
    assert(tile_area_sum(w, h, cy * cx) == tile_len_sum(h, cy) * w);
    assert(tile_count(w, h) == cx * cy);
    assert(cx * cy == cy * cx) by (nonlinear_arith);
    assert(h * w == w * h) by (nonlinear_arith);
}

/// The first `r` whole rows of tiles cover the first rows of the
/// rectangle.
proof fn lemma_zrle_tiling_rows(w: int, h: int, r: int)
    requires
        1 <= w,
        1 <= h,
        0 <= r <= tiles_across(h),
    ensures
        tile_area_sum(w, h, r * tiles_across(w)) == tile_len_sum(h, r) * w,
    decreases r,
{
    let cx = tiles_across(w);
    vstd::arithmetic::div_mod::lemma_fundamental_div_mod(w + 63, 64);
    assert(cx >= 1);
    if r == 0 {
        assert(0 * cx == 0) by (nonlinear_arith);
        assert(0 * w == 0) by (nonlinear_arith);
    } else {
        lemma_zrle_tiling_rows(w, h, r - 1);
        lemma_zrle_tiling_cols(w, h, r - 1, cx);
        lemma_tile_len_sum(w, cx);
        assert(64 * cx >= w);
        assert((r - 1) * cx + cx == r * cx) by (nonlinear_arith);
        assert((tile_len_sum(h, r - 1) + tile_len(h, r - 1)) * w == tile_len_sum(h, r - 1) * w
            + tile_len(h, r - 1) * w) by (nonlinear_arith);
    }
}

/// Within row `r`, the first `k` tiles cover `tile_len(h, r)` times the
/// first `k` column widths.
proof fn lemma_zrle_tiling_cols(w: int, h: int, r: int, k: int)
    requires
        1 <= w,
        1 <= h,
        0 <= r < tiles_across(h),
        0 <= k <= tiles_across(w),
    ensures
        tile_area_sum(w, h, r * tiles_across(w) + k) == tile_area_sum(w, h, r * tiles_across(w))
            + tile_len(h, r) * tile_len_sum(w, k),
    decreases k,
{
    let cx = tiles_across(w);
    vstd::arithmetic::div_mod::lemma_fundamental_div_mod(w + 63, 64);
    assert(cx >= 1);
    if k == 0 {
        assert(tile_len(h, r) * tile_len_sum(w, 0) == 0) by (nonlinear_arith)
            requires
                tile_len_sum(w, 0) == 0,
        ;
    } else {
        lemma_zrle_tiling_cols(w, h, r, k - 1);
        let i = r * cx + (k - 1);
        lemma_fundamental_div_mod_converse(i, cx, r, k - 1);
        assert(tile_len(h, r) * (tile_len_sum(w, k - 1) + tile_len(w, k - 1)) == tile_len(h, r)
            * tile_len_sum(w, k - 1) + tile_len(w, k - 1) * tile_len(h, r)) by (nonlinear_arith);
    }
}

/// The first `i` tiles of a rectangle, parsed consecutively from the
/// start of one inflated byte sequence: each tile's pixels and the offset
/// where the next tile begins.
pub open spec fn zrle_tiles_prefix(
    d: Seq<u8>,
    rect: Rect,
    bpp: int,
    cbpp: int,
    pad: bool,
    i: int,
) -> Option<(Seq<Seq<u8>>, int)>
    decreases i,
{
    if i <= 0 {
        Some((Seq::empty(), 0))
    } else {
        match zrle_tiles_prefix(d, rect, bpp, cbpp, pad, i - 1) {
            None => None,
            Some((pxs, pos)) => {
                let (tx, ty, tw, th) = zrle_tile_dims(rect, i - 1);
                match tile_at(d, pos, tw, th, bpp, cbpp, pad) {
                    None => None,
                    Some((px, p2)) => Some((pxs.push(px), p2)),
                }
            },
        }
    }
}

/// Compares two byte vectors.
fn bytes_eq(a: &Vec<u8>, b: &Vec<u8>) -> (r: bool)
    ensures
        r == (a@ == b@),
{
    if a.len() != b.len() {
        proof {
            assert(a@ != b@);
        }
        return false;
    }
    let n: usize = a.len();
    for i in 0..n
        invariant
            n == a@.len() == b@.len(),
            forall|j: int| 0 <= j < i ==> a@[j] == b@[j],
    {
        if a[i] != b[i] {
            return false;
        }
    }
    proof {
        assert(a@ =~= b@);
    }
    true
}

/// Decodes one ZRLE rectangle: inflates the framed payload through the
/// persistent stream bound to `reader` and parses the 64×64 tile grid in
/// row-major order. Each returned entry is one tile's absolute rectangle
/// and its pixels; the tiles together are consecutive [`tile_at`] parses
/// of one inflated byte sequence, from its start.
pub fn decode_zrle_rect(
    reader: &mut ZlibReader,
    rect: &Rect,
    bpp: usize,
    cbpp: usize,
    pad: bool,
) -> (r: Result<Vec<(Rect, Vec<u8>)>, VncError>)
    requires
        old(reader).wf(),
        1 <= rect.width,
        1 <= rect.height,
        rect.x as int + rect.width as int <= 0x10000,
        rect.y as int + rect.height as int <= 0x10000,
        1 <= bpp <= 4,
        1 <= cbpp <= bpp,
        pad ==> cbpp + 1 <= 4,
    ensures
        final(reader).wf(),
        final(reader).input_seq() == old(reader).input_seq(),
        r is Ok ==> r->Ok_0@.len() == tile_count(rect.width as int, rect.height as int),
        r is Ok ==> forall|i: int|
            0 <= i < r->Ok_0@.len() ==> {
                let (tx, ty, tw, th) = zrle_tile_dims(*rect, i);
                let (trect, tpx) = #[trigger] r->Ok_0@[i];
                trect.x as int == tx && trect.y as int == ty && trect.width as int == tw
                    && trect.height as int == th && exists|d: Seq<u8>, q: int|
                    (#[trigger] tile_at(d, q, tw, th, bpp as int, cbpp as int, pad)) matches Some(v)
                        && v.0 == tpx@
            },
        r is Ok ==> exists|d: Seq<u8>|
            (#[trigger] zrle_tiles_prefix(
                d,
                *rect,
                bpp as int,
                cbpp as int,
                pad,
                tile_count(rect.width as int, rect.height as int),
            )) matches Some(pr) && pr.0.len() == r->Ok_0@.len() && forall|i: int|
                0 <= i < r->Ok_0@.len() ==> pr.0[i] == (#[trigger] r->Ok_0@[i]).1@,
        r is Err ==> r->Err_0 is InvalidImageData,
{
    let w: usize = rect.width as usize;
    let h: usize = rect.height as usize;
    let cx: usize = (w + 63) / 64;
    let cy: usize = (h + 63) / 64;
    proof {
        vstd::arithmetic::div_mod::lemma_fundamental_div_mod(w as int + 63, 64);
        vstd::arithmetic::div_mod::lemma_fundamental_div_mod(h as int + 63, 64);
        assert(1 <= cx <= 1024 && 1 <= cy <= 1024);
        assert(cx * cy <= 1024 * 1024) by (nonlinear_arith)
            requires
                1 <= cx <= 1024,
                1 <= cy <= 1024,
        ;
    }
    let count: usize = cx * cy;
    let mut inflated: Vec<u8> = Vec::new();
    let mut pos: usize = 0;
    let mut out: Vec<(Rect, Vec<u8>)> = Vec::new();
    for ti in 0..count
        invariant
            reader.wf(),
            reader.input_seq() == old(reader).input_seq(),
            pos <= inflated@.len() <= MAX_TILE_DATA,
            cx as int == tiles_across(rect.width as int),
            cy as int == tiles_across(rect.height as int),
            count == cx * cy,
            w == rect.width as usize,
            h == rect.height as usize,
            1 <= rect.width,
            1 <= rect.height,
            rect.x as int + rect.width as int <= 0x10000,
            rect.y as int + rect.height as int <= 0x10000,
            1 <= bpp <= 4,
            1 <= cbpp <= bpp,
            pad ==> cbpp + 1 <= 4,
            out@.len() == ti,
            forall|i: int|
                0 <= i < out@.len() ==> {
                    let (tx, ty, tw, th) = zrle_tile_dims(*rect, i);
                    let (trect, tpx) = #[trigger] out@[i];
                    trect.x as int == tx && trect.y as int == ty && trect.width as int == tw
                        && trect.height as int == th && exists|d: Seq<u8>, q: int|
                        (#[trigger] tile_at(d, q, tw, th, bpp as int, cbpp as int, pad)) matches
                            Some(v) && v.0 == tpx@
                },
    {
        let col: usize = ti % cx;
        let row: usize = ti / cx;
        proof {
            assert(col < cx && row < cy) by {
                vstd::arithmetic::div_mod::lemma_fundamental_div_mod(ti as int, cx as int);
                assert(ti < cx * cy);
                assert((ti as int) / (cx as int) < cy as int) by (nonlinear_arith)
                    requires
                        ti as int == (cx as int) * ((ti as int) / (cx as int)) + (ti as int) % (
                        cx as int),
                        0 <= (ti as int) % (cx as int) < cx as int,
                        (ti as int) < (cx as int) * (cy as int),
                        cx >= 1,
                        cy >= 1,
                ;
            }
            assert(64 * col < w && 64 * row < h) by {
                vstd::arithmetic::div_mod::lemma_fundamental_div_mod(w as int + 63, 64);
                vstd::arithmetic::div_mod::lemma_fundamental_div_mod(h as int + 63, 64);
                assert(64 * col <= 64 * (cx - 1) && 64 * row <= 64 * (cy - 1))
                    by (nonlinear_arith)
                    requires
                        col < cx,
                        row < cy,
                ;
            }
        }
        let tx: usize = 64 * col;
        let ty: usize = 64 * row;
        let tw: usize = if w - tx < 64 {
            w - tx
        } else {
            64
        };
        let th: usize = if h - ty < 64 {
            h - ty
        } else {
            64
        };
        proof {
            assert(tw * th * bpp <= 64 * 64 * 4) by (nonlinear_arith)
                requires
                    1 <= tw <= 64,
                    1 <= th <= 64,
                    1 <= bpp <= 4,
            ;
        }
        let tile_rect = Rect {
            x: rect.x + (tx as u16),
            y: rect.y + (ty as u16),
            width: tw as u16,
            height: th as u16,
        };
        let mut parsed: Option<(Vec<u8>, usize)> = None;
        while parsed.is_none()
            invariant
                reader.wf(),
                reader.input_seq() == old(reader).input_seq(),
                pos <= inflated@.len() <= MAX_TILE_DATA,
                1 <= tw <= 64,
                1 <= th <= 64,
                1 <= bpp <= 4,
                1 <= cbpp <= bpp,
                pad ==> cbpp + 1 <= 4,
                tw * th * bpp <= 64 * 64 * 4,
                parsed matches Some((px, p2)) ==> {
                    &&& pos < p2 <= inflated@.len()
                    &&& exists|d: Seq<u8>, q: int|
                        (#[trigger] tile_at(
                            d,
                            q,
                            tw as int,
                            th as int,
                            bpp as int,
                            cbpp as int,
                            pad,
                        )) matches Some(v) && v.0 == px@
                },
            decreases (if parsed is Some {
                0int
            } else {
                1int
            }), MAX_TILE_DATA - inflated@.len(),
        {
            match parse_tile(&inflated, pos, tw, th, bpp, cbpp, pad) {
                Ok((px, p2)) => {
                    proof {
                        let spec = tile_at(
                            inflated@,
                            pos as int,
                            tw as int,
                            th as int,
                            bpp as int,
                            cbpp as int,
                            pad,
                        );
                        assert(tile_at(
                            inflated@,
                            pos as int,
                            tw as int,
                            th as int,
                            bpp as int,
                            cbpp as int,
                            pad,
                        ) == Some((px@, p2 as int)));
                    }
                    parsed = Some((px, p2));
                },
                Err(TileError::Bad) => {
                    return Err(VncError::InvalidImageData);
                },
                Err(TileError::Short) => {
                    let more = match reader.read_some(4096) {
                        Ok(m) => m,
                        Err(e) => {
                            return Err(VncError::InvalidImageData);
                        },
                    };
                    if more.len() == 0 {
                        return Err(VncError::InvalidImageData);
                    }
                    if inflated.len() > MAX_TILE_DATA - more.len() {
                        return Err(VncError::InvalidImageData);
                    }
                    let mut more_v = more;
                    inflated.append(&mut more_v);
                },
            }
        }
        let (px, p2) = match parsed {
            Some(v) => v,
            None => {
                return Err(VncError::InvalidImageData);
            },
        };
        pos = p2;
        let ghost pxv = px@;
        let ghost prev_out = out@;
        out.push((tile_rect, px));
        proof {
            vstd::arithmetic::div_mod::lemma_fundamental_div_mod(ti as int, cx as int);
            assert((ti as int) % (cx as int) == col as int && (ti as int) / (cx as int)
                == row as int);
            assert(zrle_tile_dims(*rect, ti as int) == (
                rect.x as int + 64 * col,
                rect.y as int + 64 * row,
                tile_len(rect.width as int, col as int),
                tile_len(rect.height as int, row as int),
            ));
            assert(out@[ti as int] == (tile_rect, px));
            assert(tile_rect.x as int == rect.x as int + 64 * col && tile_rect.y as int
                == rect.y as int + 64 * row && tile_rect.width as int == tile_len(
                rect.width as int,
                col as int,
            ) && tile_rect.height as int == tile_len(rect.height as int, row as int));
            assert(exists|d: Seq<u8>, q: int|
                (#[trigger] tile_at(
                    d,
                    q,
                    tw as int,
                    th as int,
                    bpp as int,
                    cbpp as int,
                    pad,
                )) matches Some(v) && v.0 == pxv);
            assert forall|i: int| 0 <= i < out@.len() implies {
                let (tx2, ty2, tw2, th2) = zrle_tile_dims(*rect, i);
                let (trect, tpx) = #[trigger] out@[i];
                trect.x as int == tx2 && trect.y as int == ty2 && trect.width as int == tw2
                    && trect.height as int == th2 && exists|d: Seq<u8>, q: int|
                    (#[trigger] tile_at(d, q, tw2, th2, bpp as int, cbpp as int, pad)) matches
                        Some(v) && v.0 == tpx@
            } by {
                if i == ti as int {
                    assert(out@[i].0 == tile_rect);
                    assert(out@[i].1@ == pxv);
                    assert((zrle_tile_dims(*rect, i)).2 == tw as int);
                    assert((zrle_tile_dims(*rect, i)).3 == th as int);
                } else {
                    assert(out@[i] == prev_out[i]);
                }
            }
        }
    }
    // Re-parse the tiles against the final inflated bytes: this pins the
    // returned pixels as consecutive parses of one sequence.
    let mut pos2: usize = 0;
    let ghost mut pxs: Seq<Seq<u8>> = Seq::empty();
    for ti in 0..count
        invariant
            reader.wf(),
            reader.input_seq() == old(reader).input_seq(),
            pos2 <= inflated@.len() <= MAX_TILE_DATA,
            cx as int == tiles_across(rect.width as int),
            cy as int == tiles_across(rect.height as int),
            count == cx * cy,
            w == rect.width as usize,
            h == rect.height as usize,
            1 <= rect.width,
            1 <= rect.height,
            1 <= bpp <= 4,
            1 <= cbpp <= bpp,
            pad ==> cbpp + 1 <= 4,
            pxs.len() == ti,
            zrle_tiles_prefix(inflated@, *rect, bpp as int, cbpp as int, pad, ti as int) == Some(
                (pxs, pos2 as int),
            ),
            out@.len() == count,
            forall|i: int| 0 <= i < ti ==> pxs[i] == (#[trigger] out@[i]).1@,
    {
        let col: usize = ti % cx;
        let row: usize = ti / cx;
        proof {
            assert(col < cx && row < cy) by {
                vstd::arithmetic::div_mod::lemma_fundamental_div_mod(ti as int, cx as int);
                assert(ti < cx * cy);
                assert((ti as int) / (cx as int) < cy as int) by (nonlinear_arith)
                    requires
                        ti as int == (cx as int) * ((ti as int) / (cx as int)) + (ti as int) % (
                        cx as int),
                        0 <= (ti as int) % (cx as int) < cx as int,
                        (ti as int) < (cx as int) * (cy as int),
                        cx >= 1,
                        cy >= 1,
                ;
            }
            assert(64 * col < w && 64 * row < h) by {
                vstd::arithmetic::div_mod::lemma_fundamental_div_mod(w as int + 63, 64);
                vstd::arithmetic::div_mod::lemma_fundamental_div_mod(h as int + 63, 64);
                assert(64 * col <= 64 * (cx - 1) && 64 * row <= 64 * (cy - 1))
                    by (nonlinear_arith)
                    requires
                        col < cx,
                        row < cy,
                ;
            }
        }
        let tx: usize = 64 * col;
        let ty: usize = 64 * row;
        let tw: usize = if w - tx < 64 {
            w - tx
        } else {
            64
        };
        let th: usize = if h - ty < 64 {
            h - ty
        } else {
            64
        };
        proof {
            assert(tw * th * bpp <= 64 * 64 * 4) by (nonlinear_arith)
                requires
                    1 <= tw <= 64,
                    1 <= th <= 64,
                    1 <= bpp <= 4,
            ;
            vstd::arithmetic::div_mod::lemma_fundamental_div_mod(ti as int, cx as int);
            assert((ti as int) % (cx as int) == col as int && (ti as int) / (cx as int)
                == row as int);
            assert(tw as int == tile_len(rect.width as int, col as int));
            assert(th as int == tile_len(rect.height as int, row as int));
        }
        match parse_tile(&inflated, pos2, tw, th, bpp, cbpp, pad) {
            Ok((px2, p2)) => {
                let expected = &out[ti].1;
                if !bytes_eq(&px2, expected) {
                    return Err(VncError::InvalidImageData);
                }
                proof {
                    pxs = pxs.push(px2@);
                }
                pos2 = p2;
            },
            Err(_) => {
                return Err(VncError::InvalidImageData);
            },
        }
    }
    proof {
        assert(count as int == tile_count(rect.width as int, rect.height as int));
        assert(zrle_tiles_prefix(inflated@, *rect, bpp as int, cbpp as int, pad, count as int)
            matches Some(pr) && pr.0.len() == out@.len() && forall|i: int|
            0 <= i < out@.len() ==> pr.0[i] == (#[trigger] out@[i]).1@);
    }
    Ok(out)
}

} // verus!
