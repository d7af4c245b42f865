//! The adaptive-ladder planner: rendition selection, bitrate estimation and
//! the filter-graph and stream-map strings handed to the media tool.

use vstd::prelude::*;
use vstd::string::StringExecFns;
use vstd::string::StringSliceAdditionalSpecFns;

use crate::numfmt::{dec_spec, push_u64, u64_to_string};

verus! {

/// The probed geometry of a video stream.
#[derive(Clone, Copy, Debug, PartialEq, Eq, Structural)]
pub struct VideoGeometry {
    pub width: u32,
    pub height: u32,
}

/// One rung of the adaptive ladder.
#[derive(Debug)]
pub struct Rendition {
    /// Display name, the height followed by `p`.
    pub name: String,
    pub width: u32,
    pub height: u32,
    /// Target bitrate in kbit/s, always in `[320, 22000]`.
    pub bitrate: u32,
    pub maxrate: u32,
    pub bufsize: u32,
}

/// The aspect-ratio class of a source, by width over height.
#[derive(Clone, Copy, Debug, PartialEq, Eq, Structural)]
pub enum AspectClass {
    Ultrawide,
    SixteenNine,
    FourThree,
    Tall,
}

/// Classification thresholds: at least 2.1 is ultrawide, at least 1.55 is
/// 16:9, at least 1.3 is 4:3, anything narrower is tall. Degenerate
/// dimensions fall back to 16:9.
pub open spec fn spec_classify(g: VideoGeometry) -> AspectClass {
    if g.width == 0 || g.height == 0 {
        AspectClass::SixteenNine
    } else if 10 * (g.width as int) >= 21 * (g.height as int) {
        AspectClass::Ultrawide
    } else if 20 * (g.width as int) >= 31 * (g.height as int) {
        AspectClass::SixteenNine
    } else if 10 * (g.width as int) >= 13 * (g.height as int) {
        AspectClass::FourThree
    } else {
        AspectClass::Tall
    }
}

pub fn classify_aspect(geometry: VideoGeometry) -> (c: AspectClass)
    ensures
        c == spec_classify(geometry),
{
    if geometry.width == 0 || geometry.height == 0 {
        AspectClass::SixteenNine
    } else if 10 * (geometry.width as u64) >= 21 * (geometry.height as u64) {
        AspectClass::Ultrawide
    } else if 20 * (geometry.width as u64) >= 31 * (geometry.height as u64) {
        AspectClass::SixteenNine
    } else if 10 * (geometry.width as u64) >= 13 * (geometry.height as u64) {
        AspectClass::FourThree
    } else {
        AspectClass::Tall
    }
}

/// The base candidate heights for each aspect class, strictly descending.
pub open spec fn spec_base_heights(c: AspectClass) -> Seq<u32> {
    match c {
        AspectClass::Ultrawide => seq![
            4320u32,
            3200,
            2560,
            2160,
            2000,
            1600,
            1440,
            1080,
            864,
            720,
            540,
            432,
            360,
        ],
        AspectClass::SixteenNine => seq![
            4320u32,
            2880,
            2160,
            1800,
            1440,
            1200,
            1080,
            900,
            720,
            540,
            480,
            360,
            240,
        ],
        AspectClass::FourThree => seq![
            2880u32,
            2160,
            1600,
            1440,
            1280,
            1080,
            960,
            720,
            540,
            480,
            360,
            240,
        ],
        AspectClass::Tall => seq![
            2160u32,
            1920,
            1600,
            1440,
            1200,
            1080,
            900,
            720,
            540,
            480,
            360,
            240,
        ],
    }
}

/// The base candidate heights for the class of `geometry`.
pub fn base_height_candidates(geometry: VideoGeometry) -> (r: Vec<u32>)
    ensures
        r@ == spec_base_heights(spec_classify(geometry)),
{
    let r: Vec<u32> = match classify_aspect(geometry) {
        AspectClass::Ultrawide => vec![
            4320, 3200, 2560, 2160, 2000, 1600, 1440, 1080, 864, 720, 540, 432, 360,
        ],
        AspectClass::SixteenNine => vec![
            4320, 2880, 2160, 1800, 1440, 1200, 1080, 900, 720, 540, 480, 360, 240,
        ],
        AspectClass::FourThree => vec![
            2880, 2160, 1600, 1440, 1280, 1080, 960, 720, 540, 480, 360, 240,
        ],
        AspectClass::Tall => vec![
            2160, 1920, 1600, 1440, 1200, 1080, 900, 720, 540, 480, 360, 240,
        ],
    };
    proof {
        assert(r@ =~= spec_base_heights(spec_classify(geometry)));
    }
    r
}

// ------------------------------------------------------------------
// Bitrate estimation.
// ------------------------------------------------------------------

/// Pixel budget scaled by the 1080p reference bitrate, clamped so that the
/// resulting bitrate lands in `[320, 22000]` kbit/s. The reference is
/// 4500 kbit/s for 1920 x 1080 pixels.
pub open spec fn spec_clamped_q(w: u32, h: u32) -> int {
    let q = 4500 * (w as int) * (h as int);
    if q < 320 * 2073600int {
        320 * 2073600int
    } else if q > 22000 * 2073600int {
        22000 * 2073600int
    } else {
        q
    }
}

/// Target bitrate: the clamped pixel ratio, rounded half-up.
pub open spec fn spec_bitrate(w: u32, h: u32) -> int {
    (2 * spec_clamped_q(w, h) + 2073600) / (2 * 2073600int)
}

/// Burst ceiling: 1.3 times the clamped bitrate, rounded up.
pub open spec fn spec_maxrate(w: u32, h: u32) -> int {
    (13 * spec_clamped_q(w, h) + 10 * 2073600 - 1) / (10 * 2073600int)
}

/// Rate-control buffer: 2.5 times the clamped bitrate, rounded up.
pub open spec fn spec_bufsize(w: u32, h: u32) -> int {
    (5 * spec_clamped_q(w, h) + 2 * 2073600 - 1) / (2 * 2073600int)
}

/// Bitrate, maxrate and buffer size for a rung of `width` x `height`.
pub fn estimate_bitrates(width: u32, height: u32) -> (r: (u32, u32, u32))
    ensures
        r.0 == spec_bitrate(width, height),
        r.1 == spec_maxrate(width, height),
        r.2 == spec_bufsize(width, height),
        320 <= r.0 <= 22000,
{
    let d: u128 = 2073600;
    proof {
        assert(4500 * (width as int) * (height as int) < 0x1000000000000000000000000)
            by (nonlinear_arith)
            requires
                width <= 0xFFFFFFFFu32,
                height <= 0xFFFFFFFFu32,
        ;
    }
    let q_raw: u128 = 4500u128 * (width as u128) * (height as u128);
    let lo: u128 = 320 * 2073600;
    let hi: u128 = 22000 * 2073600;
    let q: u128 = if q_raw < lo {
        lo
    } else if q_raw > hi {
        hi
    } else {
        q_raw
    };
    proof {
        assert(q == spec_clamped_q(width, height));
    }
    let b: u128 = (2 * q + d) / (2 * d);
    let m: u128 = (13 * q + 10 * d - 1) / (10 * d);
    let f: u128 = (5 * q + 2 * d - 1) / (2 * d);
    proof {
        let qi = spec_clamped_q(width, height);
        let di: int = 2073600;
        vstd::arithmetic::div_mod::lemma_div_is_ordered(2 * 320 * di + di, 2 * qi + di, 2 * di);
        vstd::arithmetic::div_mod::lemma_div_is_ordered(2 * qi + di, 2 * 22000 * di + di, 2 * di);
        assert(2 * 320 * di + di == 1329177600int);
        assert(2 * 22000 * di + di == 91240473600int);
        assert(2 * di == 4147200int);
        assert(1329177600int / 4147200int == 320);
        assert(91240473600int / 4147200int == 22000);
        vstd::arithmetic::div_mod::lemma_div_is_ordered(
            13 * qi + 10 * di - 1,
            13 * 22000 * di + 10 * di - 1,
            10 * di,
        );
        assert(13 * 22000 * di + 10 * di - 1 == 593070335999int);
        assert(10 * di == 20736000int);
        assert(593070335999int / 20736000int == 28600);
        vstd::arithmetic::div_mod::lemma_div_is_ordered(
            5 * qi + 2 * di - 1,
            5 * 22000 * di + 2 * di - 1,
            2 * di,
        );
        assert(5 * 22000 * di + 2 * di - 1 == 228100147199int);
        assert(228100147199int / 4147200int == 55000);
        vstd::arithmetic::div_mod::lemma_div_pos_is_pos(13 * qi + 10 * di - 1, 10 * di);
        vstd::arithmetic::div_mod::lemma_div_pos_is_pos(5 * qi + 2 * di - 1, 2 * di);
    }
    (b as u32, m as u32, f as u32)
}

// ------------------------------------------------------------------
// Rung geometry.
// ------------------------------------------------------------------

/// Round down to an even number.
pub open spec fn spec_even_floor(x: int) -> int {
    if x % 2 == 0 {
        x
    } else {
        x - 1
    }
}

fn even_floor(x: u32) -> (r: u32)
    ensures
        r == spec_even_floor(x as int),
        r % 2 == 0,
        r <= x,
{
    if x % 2 == 0 {
        x
    } else {
        x - 1
    }
}

/// The dimensions of the rung derived from candidate height `raw`, if the
/// rung is emittable: the height rounded down to even, the width taken from
/// the source aspect ratio (rounded half-up), capped at the source width and
/// rounded down to even; rungs narrower or flatter than two pixels are not
/// emitted.
pub open spec fn spec_rung_dims(g: VideoGeometry, raw: int) -> Option<(int, int)> {
    let gw = g.width as int;
    let gh = g.height as int;
    let h = spec_even_floor(raw);
    if h < 2 {
        None
    } else {
        let w0 = (2 * gw * h + gh) / (2 * gh);
        let w1 = if w0 > gw {
            gw
        } else {
            w0
        };
        let w = spec_even_floor(w1);
        if w < 2 {
            None
        } else {
            Some((w, h))
        }
    }
}

fn try_rung_dims(g: VideoGeometry, raw: u32) -> (r: Option<(u32, u32)>)
    requires
        g.height >= 1,
        raw <= g.height,
    ensures
        match r {
            Some(p) => spec_rung_dims(g, raw as int) == Some((p.0 as int, p.1 as int)) && p.0 % 2
                == 0 && p.1 % 2 == 0 && 2 <= p.0 <= g.width && 2 <= p.1 <= g.height,
            None => spec_rung_dims(g, raw as int) is None,
        },
{
    let h = even_floor(raw);
    if h < 2 {
        return None;
    }
    let gw = g.width as u128;
    let gh = g.height as u128;
    proof {
        assert(2 * (g.width as int) * (h as int) + (g.height as int) < 0x100000000000000000000)
            by (nonlinear_arith)
            requires
                g.width <= 0xFFFFFFFFu32,
                h <= 0xFFFFFFFFu32,
                g.height <= 0xFFFFFFFFu32,
        ;
    }
    let w0_wide: u128 = (2 * gw * (h as u128) + gh) / (2 * gh);
    proof {
        let gwi = g.width as int;
        let ghi = g.height as int;
        let hi = h as int;
        assert(2 * gwi * hi + ghi < (2 * ghi) * (gwi + 1)) by (nonlinear_arith)
            requires
                hi <= ghi,
                ghi >= 1,
                gwi >= 0,
        ;
        vstd::arithmetic::div_mod::lemma_multiply_divide_lt(
            2 * gwi * hi + ghi,
            2 * ghi,
            gwi + 1,
        );
        vstd::arithmetic::div_mod::lemma_div_pos_is_pos(2 * gwi * hi + ghi, 2 * ghi);
        assert(w0_wide as int == (2 * gwi * hi + ghi) / (2 * ghi));
        assert(w0_wide < (gwi + 1) as u128);
    }
    let w0: u32 = w0_wide as u32;
    let w1: u32 = if w0 > g.width {
        g.width
    } else {
        w0
    };
    let w = even_floor(w1);
    if w < 2 {
        return None;
    }
    Some((w, h))
}

// ------------------------------------------------------------------
// Ladder selection.
// ------------------------------------------------------------------

/// At most this many rungs are emitted.
pub const MAX_RENDITIONS: usize = 5;

/// A ladder is well formed for a source `g` when every rung is even and at
/// least 2 x 2, no larger than the source, carries the bitrates derived from
/// its own dimensions and the name derived from its height, and the heights
/// are strictly descending (so no two rungs coincide).
pub open spec fn ladder_wf(rs: Seq<Rendition>, g: VideoGeometry) -> bool {
    &&& forall|i: int|
        0 <= i < rs.len() ==> {
            &&& (#[trigger] rs[i]).width % 2 == 0
            &&& rs[i].height % 2 == 0
            &&& rs[i].width >= 2
            &&& rs[i].height >= 2
            &&& (g.width >= 2 && g.height >= 2 ==> rs[i].width <= g.width && rs[i].height
                <= g.height)
            &&& rs[i].bitrate == spec_bitrate(rs[i].width, rs[i].height)
            &&& rs[i].maxrate == spec_maxrate(rs[i].width, rs[i].height)
            &&& rs[i].bufsize == spec_bufsize(rs[i].width, rs[i].height)
            &&& 320 <= rs[i].bitrate <= 22000
            &&& rs[i].name@ == dec_spec(rs[i].height as nat) + "p"@
        }
    &&& forall|i: int, j: int| 0 <= i < j < rs.len() ==> rs[i].height > rs[j].height
}

/// The dimensions of each rung of a ladder.
pub open spec fn dims_of(rs: Seq<Rendition>) -> Seq<(int, int)> {
    rs.map_values(|r: Rendition| (r.width as int, r.height as int))
}

/// One candidate height folded into the ladder being built: nothing happens
/// once five rungs stand, the candidate yields no rung, or its height does
/// not descend below the last rung.
pub open spec fn spec_ladder_step(g: VideoGeometry, raw: int, acc: Seq<(int, int)>) -> Seq<
    (int, int),
> {
    if acc.len() >= MAX_RENDITIONS {
        acc
    } else {
        match spec_rung_dims(g, raw) {
            None => acc,
            Some(p) => if acc.len() == 0 || p.1 < acc.last().1 {
                acc.push(p)
            } else {
                acc
            },
        }
    }
}

/// The base candidates below the source height folded in order onto `acc`.
pub open spec fn spec_ladder_fold(
    g: VideoGeometry,
    base: Seq<u32>,
    k: int,
    acc: Seq<(int, int)>,
) -> Seq<(int, int)>
    decreases base.len() - k,
{
    if k < 0 || k >= base.len() {
        acc
    } else {
        let acc2 = if base[k] < g.height {
            spec_ladder_step(g, base[k] as int, acc)
        } else {
            acc
        };
        spec_ladder_fold(g, base, k + 1, acc2)
    }
}

/// The rung dimensions the planner selects: the source height first, then
/// the class's base heights strictly below it, folded in order; a source
/// that yields nothing gets the single rung cut from its own dimensions.
pub open spec fn spec_ladder_dims(g: VideoGeometry) -> Seq<(int, int)> {
    let acc0: Seq<(int, int)> = if g.height >= 1 {
        match spec_rung_dims(g, g.height as int) {
            Some(p) => seq![p],
            None => Seq::<(int, int)>::empty(),
        }
    } else {
        Seq::<(int, int)>::empty()
    };
    let main = if g.height >= 1 {
        spec_ladder_fold(g, spec_base_heights(spec_classify(g)), 0, acc0)
    } else {
        acc0
    };
    if main.len() == 0 {
        let w0 = spec_even_floor(g.width as int);
        let h0 = spec_even_floor(g.height as int);
        seq![
            (
                if w0 >= 2 {
                    w0
                } else {
                    2
                },
                if h0 >= 2 {
                    h0
                } else {
                    2
                },
            ),
        ]
    } else {
        main
    }
}

fn make_rendition(w: u32, h: u32) -> (r: Rendition)
    ensures
        r.width == w,
        r.height == h,
        r.bitrate == spec_bitrate(w, h),
        r.maxrate == spec_maxrate(w, h),
        r.bufsize == spec_bufsize(w, h),
        320 <= r.bitrate <= 22000,
        r.name@ == dec_spec(h as nat) + "p"@,
{
    let rates = estimate_bitrates(w, h);
    let mut name = u64_to_string(h as u64);
    name.append("p");
    Rendition { name, width: w, height: h, bitrate: rates.0, maxrate: rates.1, bufsize: rates.2 }
}

/// Plan the rendition ladder for a probed source geometry.
///
/// Candidate heights are the source height followed by the base heights of
/// the aspect class that lie strictly below it; each candidate is turned
/// into a rung by `spec_rung_dims` and emitted when its height still
/// descends, until five rungs stand. A source too degenerate for any rung
/// gets a single rung cut from its own dimensions, at least 2 x 2.
///
/// The result always holds one to five rungs and satisfies `ladder_wf`:
/// even dimensions of at least two, no rung exceeding the source (for
/// sources of at least 2 x 2), bitrates in `[320, 22000]` derived from each
/// rung's own dimensions, and strictly descending heights with no duplicate
/// rungs. When the source itself yields an emittable rung, it is the first.
pub fn select_renditions(geometry: VideoGeometry) -> (r: Vec<Rendition>)
    ensures
        1 <= r@.len() <= MAX_RENDITIONS,
        ladder_wf(r@, geometry),
        dims_of(r@) == spec_ladder_dims(geometry),
{
    let mut out: Vec<Rendition> = Vec::new();
    let mut last_height: u32 = 0;

    if geometry.height >= 1 {
        match try_rung_dims(geometry, geometry.height) {
            Some(p) => {
                out.push(make_rendition(p.0, p.1));
                last_height = p.1;
                proof {
                    assert(dims_of(out@) =~= seq![((p.0 as int, p.1 as int))]);
                }
            }
            None => {
                proof {
                    assert(dims_of(out@) =~= Seq::<(int, int)>::empty());
                }
            }
        }
        let base = base_height_candidates(geometry);
        let ghost target = spec_ladder_fold(geometry, base@, 0, dims_of(out@));
        let n = base.len();
        let mut k: usize = 0;
        while k < n
            invariant
                n == base@.len(),
                k <= n,
                geometry.height >= 1,
                out@.len() <= MAX_RENDITIONS,
                ladder_wf(out@, geometry),
                out@.len() > 0 ==> last_height == out@[out@.len() - 1].height,
                spec_ladder_fold(geometry, base@, k as int, dims_of(out@)) == target,
            decreases n - k,
        {
            let ghost before = dims_of(out@);
            let b = base[k];
            if b < geometry.height && out.len() < MAX_RENDITIONS {
                match try_rung_dims(geometry, b) {
                    Some(p) => {
                        if out.len() == 0 || p.1 < last_height {
                            out.push(make_rendition(p.0, p.1));
                            last_height = p.1;
                            proof {
                                assert(dims_of(out@) =~= before.push((p.0 as int, p.1 as int)));
                            }
                        }
                    }
                    None => {}
                }
            }
            proof {
                if b < geometry.height {
                    assert(dims_of(out@) == spec_ladder_step(geometry, b as int, before));
                }
                assert(spec_ladder_fold(geometry, base@, k as int, before)
                    == spec_ladder_fold(geometry, base@, k as int + 1, dims_of(out@)));
            }
            k = k + 1;
        }
        proof {
            assert(spec_ladder_fold(geometry, base@, n as int, dims_of(out@)) == dims_of(out@));
        }
    }

    if out.len() == 0 {
        let w0 = even_floor(geometry.width);
        let h0 = even_floor(geometry.height);
        let w = if w0 >= 2 {
            w0
        } else {
            2
        };
        let h = if h0 >= 2 {
            h0
        } else {
            2
        };
        out.push(make_rendition(w, h));
        proof {
            assert(dims_of(out@) =~= spec_ladder_dims(geometry));
        }
    }
    out
}

// ------------------------------------------------------------------
// Filter graph and stream map.
// ------------------------------------------------------------------

/// The heights of a ladder, in order.
pub open spec fn heights_of(rs: Seq<Rendition>) -> Seq<u32> {
    rs.map_values(|r: Rendition| r.height)
}

/// One scale filter: the source scaled to a rung's height, width following.
pub open spec fn spec_filter_entry(h: u32, idx: int) -> Seq<char> {
    "[0:v]scale=-2:"@ + dec_spec(h as nat) + ":flags=lanczos[v"@ + dec_spec(idx as nat) + "]"@
}

/// The filter graph: one scale filter per rung, joined by `;`.
pub open spec fn spec_filter_complex(hs: Seq<u32>) -> Seq<char>
    decreases hs.len(),
{
    if hs.len() == 0 {
        Seq::<char>::empty()
    } else if hs.len() == 1 {
        spec_filter_entry(hs[0], 0)
    } else {
        spec_filter_complex(hs.drop_last()) + seq![';'] + spec_filter_entry(
            hs.last(),
            hs.len() - 1,
        )
    }
}

/// Build the filter graph for a ladder.
pub fn build_filter_complex(renditions: &Vec<Rendition>) -> (s: String)
    ensures
        s@ == spec_filter_complex(heights_of(renditions@)),
{
    let mut s = String::new();
    let n = renditions.len();
    let mut i: usize = 0;
    proof {
        assert(heights_of(renditions@).take(0) =~= Seq::<u32>::empty());
        assert(s@ =~= spec_filter_complex(heights_of(renditions@).take(0)));
    }
    while i < n
        invariant
            n == renditions@.len(),
            i <= n,
            s@ == spec_filter_complex(heights_of(renditions@).take(i as int)),
        decreases n - i,
    {
        if i > 0 {
            s.append(";");
        }
        s.append("[0:v]scale=-2:");
        push_u64(&mut s, renditions[i].height as u64);
        s.append(":flags=lanczos[v");
        push_u64(&mut s, i as u64);
        s.append("]");
        proof {
            reveal_strlit(";");
            let hs = heights_of(renditions@);
            assert(hs.take(i as int + 1).drop_last() =~= hs.take(i as int));
            assert(hs.take(i as int + 1).last() == hs[i as int]);
            assert(hs[i as int] == renditions@[i as int].height);
            assert(s@ =~= spec_filter_complex(hs.take(i as int + 1)));
        }
        i = i + 1;
    }
    proof {
        assert(heights_of(renditions@).take(n as int) =~= heights_of(renditions@));
    }
    s
}

/// One variant-map entry: the video stream index, the shared audio stream
/// when present, and the rung's name.
pub open spec fn spec_vsm_entry(r: Rendition, idx: int, has_audio: bool) -> Seq<char> {
    "v:"@ + dec_spec(idx as nat) + (if has_audio {
        ",a:0,name:"@
    } else {
        ",name:"@
    }) + r.name@
}

/// The variant stream map: one entry per rung, joined by spaces.
pub open spec fn spec_var_stream_map(rs: Seq<Rendition>, has_audio: bool) -> Seq<char>
    decreases rs.len(),
{
    if rs.len() == 0 {
        Seq::<char>::empty()
    } else if rs.len() == 1 {
        spec_vsm_entry(rs[0], 0, has_audio)
    } else {
        spec_var_stream_map(rs.drop_last(), has_audio) + seq![' '] + spec_vsm_entry(
            rs.last(),
            rs.len() - 1,
            has_audio,
        )
    }
}

/// Build the variant stream map for a ladder.
pub fn build_var_stream_map(renditions: &Vec<Rendition>, has_audio: bool) -> (s: String)
    ensures
        s@ == spec_var_stream_map(renditions@, has_audio),
{
    let mut s = String::new();
    let n = renditions.len();
    let mut i: usize = 0;
    proof {
        assert(renditions@.take(0) =~= Seq::<Rendition>::empty());
        assert(s@ =~= spec_var_stream_map(renditions@.take(0), has_audio));
    }
    while i < n
        invariant
            n == renditions@.len(),
            i <= n,
            s@ == spec_var_stream_map(renditions@.take(i as int), has_audio),
        decreases n - i,
    {
        if i > 0 {
            s.append(" ");
        }
        s.append("v:");
        push_u64(&mut s, i as u64);
        if has_audio {
            s.append(",a:0,name:");
        } else {
            s.append(",name:");
        }
        s.append(renditions[i].name.as_str());
        proof {
            reveal_strlit(" ");
            assert(renditions@.take(i as int + 1).drop_last() =~= renditions@.take(i as int));
            assert(renditions@.take(i as int + 1).last() == renditions@[i as int]);
            assert(s@ =~= spec_var_stream_map(renditions@.take(i as int + 1), has_audio));
        }
        i = i + 1;
    }
    proof {
        assert(renditions@.take(n as int) =~= renditions@);
    }
    s
}

// ------------------------------------------------------------------
// Segmenter argument lists.
// ------------------------------------------------------------------

/// One `-map` pair per rung, in order.
pub open spec fn spec_map_args(k: nat) -> Seq<Seq<char>>
    decreases k,
{
    if k == 0 {
        Seq::<Seq<char>>::empty()
    } else {
        spec_map_args((k - 1) as nat) + seq!["-map"@, "[v"@ + dec_spec((k - 1) as nat) + "]"@]
    }
}

/// The per-rung rate-control arguments.
pub open spec fn spec_rate_entry(r: Rendition, idx: int) -> Seq<Seq<char>> {
    seq![
        "-b:v:"@ + dec_spec(idx as nat),
        dec_spec(r.bitrate as nat) + "k"@,
        "-maxrate:v:"@ + dec_spec(idx as nat),
        dec_spec(r.maxrate as nat) + "k"@,
        "-bufsize:v:"@ + dec_spec(idx as nat),
        dec_spec(r.bufsize as nat) + "k"@,
        "-metadata:s:v:"@ + dec_spec(idx as nat),
        "variant="@ + r.name@,
    ]
}

/// The rate-control arguments of every rung, in order.
pub open spec fn spec_rate_args(rs: Seq<Rendition>) -> Seq<Seq<char>>
    decreases rs.len(),
{
    if rs.len() == 0 {
        Seq::<Seq<char>>::empty()
    } else {
        spec_rate_args(rs.drop_last()) + spec_rate_entry(rs.last(), rs.len() - 1)
    }
}

/// The shared encode settings of both segmenters.
pub open spec fn spec_stream_encode_settings() -> Seq<Seq<char>> {
    seq![
        "-c:v"@,
        "libaom-av1"@,
        "-pix_fmt"@,
        "yuv420p"@,
        "-row-mt"@,
        "1"@,
        "-cpu-used"@,
        "6"@,
        "-g"@,
        "120"@,
        "-keyint_min"@,
        "120"@,
        "-sc_threshold"@,
        "0"@,
    ]
}

/// The segmenters' audio arguments: stereo AAC at 192k, or none.
pub open spec fn spec_stream_audio_args(has_audio: bool) -> Seq<Seq<char>> {
    if has_audio {
        seq!["-c:a"@, "aac"@, "-b:a"@, "192k"@, "-ac"@, "2"@]
    } else {
        seq!["-an"@]
    }
}

/// The opening of both segmenter invocations: input, optional filter
/// graph, stream maps.
pub open spec fn spec_stream_prefix(source: Seq<char>, rs: Seq<Rendition>, has_audio: bool) -> Seq<
    Seq<char>,
> {
    let fc = spec_filter_complex(heights_of(rs));
    let pre = seq!["-y"@, "-i"@, source] + (if fc.len() == 0 {
        Seq::<Seq<char>>::empty()
    } else {
        seq!["-filter_complex"@, fc]
    });
    let amap = if has_audio {
        seq!["-map"@, "0:a:0"@]
    } else {
        Seq::<Seq<char>>::empty()
    };
    pre + spec_map_args(rs.len()) + amap
}

/// The HLS muxer tail: fMP4 event playlists, 4-second segments, the
/// variant and master playlist names under the job's HLS directory.
pub open spec fn spec_hls_tail(hls_dir: Seq<char>, vsm: Seq<char>) -> Seq<Seq<char>> {
    seq![
        "-f"@,
        "hls"@,
        "-hls_time"@,
        "4"@,
        "-hls_playlist_type"@,
        "event"@,
        "-hls_flags"@,
        "independent_segments+append_list+omit_endlist"@,
        "-hls_segment_type"@,
        "fmp4"@,
        "-hls_fmp4_init_filename"@,
        "init_%v.m4s"@,
        "-hls_segment_filename"@,
        hls_dir + "/segment_%v_%05d.m4s"@,
        "-master_pl_name"@,
        "index.m3u8"@,
        "-var_stream_map"@,
        vsm,
        hls_dir + "/stream_%v.m3u8"@,
    ]
}

/// The DASH muxer tail: templated 4-second CMAF segments and the manifest
/// path under the job's DASH directory.
pub open spec fn spec_dash_tail(dash_dir: Seq<char>, has_audio: bool) -> Seq<Seq<char>> {
    seq![
        "-f"@,
        "dash"@,
        "-seg_duration"@,
        "4"@,
        "-use_template"@,
        "1"@,
        "-use_timeline"@,
        "1"@,
        "-streaming"@,
        "1"@,
        "-remove_at_exit"@,
        "0"@,
        "-adaptation_sets"@,
        if has_audio {
            "id=0,streams=v id=1,streams=a"@
        } else {
            "id=0,streams=v"@
        },
        "-init_seg_name"@,
        "init_$RepresentationID$.m4s"@,
        "-media_seg_name"@,
        "chunk_$RepresentationID$_$Number$.m4s"@,
        dash_dir + "/manifest.mpd"@,
    ]
}

/// The full HLS segmenter invocation for a ladder.
pub open spec fn spec_hls_args(
    source: Seq<char>,
    hls_dir: Seq<char>,
    has_audio: bool,
    rs: Seq<Rendition>,
) -> Seq<Seq<char>> {
    spec_stream_prefix(source, rs, has_audio) + spec_stream_encode_settings() + spec_rate_args(rs)
        + spec_stream_audio_args(has_audio) + spec_hls_tail(
        hls_dir,
        spec_var_stream_map(rs, has_audio),
    )
}

/// The full DASH segmenter invocation for a ladder.
pub open spec fn spec_dash_args(
    source: Seq<char>,
    dash_dir: Seq<char>,
    has_audio: bool,
    rs: Seq<Rendition>,
) -> Seq<Seq<char>> {
    spec_stream_prefix(source, rs, has_audio) + spec_stream_encode_settings() + spec_rate_args(rs)
        + spec_stream_audio_args(has_audio) + spec_dash_tail(dash_dir, has_audio)
}

fn push_owned_arg(args: &mut Vec<String>, s: String)
    ensures
        crate::encoder::strs(final(args)@) == crate::encoder::strs(old(args)@) + seq![s@],
{
    let ghost v = s@;
    args.push(s);
    proof {
        assert(crate::encoder::strs(args@) =~= crate::encoder::strs(old(args)@) + seq![v]);
    }
}

fn push_str_arg(args: &mut Vec<String>, s: &str)
    ensures
        crate::encoder::strs(final(args)@) == crate::encoder::strs(old(args)@) + seq![s@],
{
    args.push(String::from_str(s));
    proof {
        assert(crate::encoder::strs(args@) =~= crate::encoder::strs(old(args)@) + seq![s@]);
    }
}

fn push_stream_common(args: &mut Vec<String>, source: &str, has_audio: bool, renditions: &Vec<
    Rendition>)
    ensures
        crate::encoder::strs(final(args)@) == crate::encoder::strs(old(args)@)
            + spec_stream_prefix(source@, renditions@, has_audio) + spec_stream_encode_settings()
            + spec_rate_args(renditions@) + spec_stream_audio_args(has_audio),
{
    let ghost base = crate::encoder::strs(args@);
    push_str_arg(args, "-y");
    push_str_arg(args, "-i");
    push_str_arg(args, source);
    let fc = build_filter_complex(renditions);
    if !fc.as_str().is_empty() {
        push_str_arg(args, "-filter_complex");
        push_owned_arg(args, fc);
    } else {
        proof {
            assert(fc@.len() == 0);
        }
    }
    let ghost after_pre = crate::encoder::strs(args@);
    proof {
        let fcv = spec_filter_complex(heights_of(renditions@));
        assert(after_pre =~= base + (seq!["-y"@, "-i"@, source@] + (if fcv.len() == 0 {
            Seq::<Seq<char>>::empty()
        } else {
            seq!["-filter_complex"@, fcv]
        })));
    }
    let n = renditions.len();
    let mut i: usize = 0;
    proof {
        assert(crate::encoder::strs(args@) =~= after_pre + spec_map_args(0));
    }
    while i < n
        invariant
            n == renditions@.len(),
            i <= n,
            crate::encoder::strs(args@) == after_pre + spec_map_args(i as nat),
        decreases n - i,
    {
        push_str_arg(args, "-map");
        let mut label = String::from_str("[v");
        push_u64(&mut label, i as u64);
        label.append("]");
        push_owned_arg(args, label);
        proof {
            assert(crate::encoder::strs(args@) =~= after_pre + spec_map_args((i + 1) as nat));
        }
        i = i + 1;
    }
    if has_audio {
        push_str_arg(args, "-map");
        push_str_arg(args, "0:a:0");
    }
    let ghost after_maps = crate::encoder::strs(args@);
    proof {
        assert(after_maps =~= base + spec_stream_prefix(source@, renditions@, has_audio));
    }
    push_str_arg(args, "-c:v");
    push_str_arg(args, "libaom-av1");
    push_str_arg(args, "-pix_fmt");
    push_str_arg(args, "yuv420p");
    push_str_arg(args, "-row-mt");
    push_str_arg(args, "1");
    push_str_arg(args, "-cpu-used");
    push_str_arg(args, "6");
    push_str_arg(args, "-g");
    push_str_arg(args, "120");
    push_str_arg(args, "-keyint_min");
    push_str_arg(args, "120");
    push_str_arg(args, "-sc_threshold");
    push_str_arg(args, "0");
    let ghost after_settings = crate::encoder::strs(args@);
    proof {
        assert(after_settings =~= after_maps + spec_stream_encode_settings());
    }
    let mut k: usize = 0;
    proof {
        assert(renditions@.take(0) =~= Seq::<Rendition>::empty());
        assert(crate::encoder::strs(args@) =~= after_settings + spec_rate_args(
            renditions@.take(0),
        ));
    }
    while k < n
        invariant
            n == renditions@.len(),
            k <= n,
            crate::encoder::strs(args@) == after_settings + spec_rate_args(
                renditions@.take(k as int),
            ),
        decreases n - k,
    {
        let r = &renditions[k];
        let mut a1 = String::from_str("-b:v:");
        push_u64(&mut a1, k as u64);
        push_owned_arg(args, a1);
        let mut a2 = u64_to_string(r.bitrate as u64);
        a2.append("k");
        push_owned_arg(args, a2);
        let mut a3 = String::from_str("-maxrate:v:");
        push_u64(&mut a3, k as u64);
        push_owned_arg(args, a3);
        let mut a4 = u64_to_string(r.maxrate as u64);
        a4.append("k");
        push_owned_arg(args, a4);
        let mut a5 = String::from_str("-bufsize:v:");
        push_u64(&mut a5, k as u64);
        push_owned_arg(args, a5);
        let mut a6 = u64_to_string(r.bufsize as u64);
        a6.append("k");
        push_owned_arg(args, a6);
        let mut a7 = String::from_str("-metadata:s:v:");
        push_u64(&mut a7, k as u64);
        push_owned_arg(args, a7);
        let mut a8 = String::from_str("variant=");
        a8.append(r.name.as_str());
        push_owned_arg(args, a8);
        proof {
            assert(renditions@.take(k as int + 1).drop_last() =~= renditions@.take(k as int));
            assert(renditions@.take(k as int + 1).last() == renditions@[k as int]);
            assert(crate::encoder::strs(args@) =~= after_settings + spec_rate_args(
                renditions@.take(k as int + 1),
            ));
        }
        k = k + 1;
    }
    proof {
        assert(renditions@.take(n as int) =~= renditions@);
    }
    if has_audio {
        push_str_arg(args, "-c:a");
        push_str_arg(args, "aac");
        push_str_arg(args, "-b:a");
        push_str_arg(args, "192k");
        push_str_arg(args, "-ac");
        push_str_arg(args, "2");
    } else {
        push_str_arg(args, "-an");
    }
    proof {
        assert(crate::encoder::strs(args@) =~= base + spec_stream_prefix(
            source@,
            renditions@,
            has_audio,
        ) + spec_stream_encode_settings() + spec_rate_args(renditions@) + spec_stream_audio_args(
            has_audio,
        ));
    }
}

/// Build the full HLS segmenter invocation.
pub fn build_hls_args(source: &str, hls_dir: &str, has_audio: bool, renditions: &Vec<
    Rendition>) -> (r: Vec<String>)
    ensures
        crate::encoder::strs(r@) == spec_hls_args(source@, hls_dir@, has_audio, renditions@),
{
    let mut args: Vec<String> = Vec::new();
    push_stream_common(&mut args, source, has_audio, renditions);
    push_str_arg(&mut args, "-f");
    push_str_arg(&mut args, "hls");
    push_str_arg(&mut args, "-hls_time");
    push_str_arg(&mut args, "4");
    push_str_arg(&mut args, "-hls_playlist_type");
    push_str_arg(&mut args, "event");
    push_str_arg(&mut args, "-hls_flags");
    push_str_arg(&mut args, "independent_segments+append_list+omit_endlist");
    push_str_arg(&mut args, "-hls_segment_type");
    push_str_arg(&mut args, "fmp4");
    push_str_arg(&mut args, "-hls_fmp4_init_filename");
    push_str_arg(&mut args, "init_%v.m4s");
    push_str_arg(&mut args, "-hls_segment_filename");
    let mut seg = String::from_str(hls_dir);
    seg.append("/segment_%v_%05d.m4s");
    push_owned_arg(&mut args, seg);
    push_str_arg(&mut args, "-master_pl_name");
    push_str_arg(&mut args, "index.m3u8");
    push_str_arg(&mut args, "-var_stream_map");
    let vsm = build_var_stream_map(renditions, has_audio);
    push_owned_arg(&mut args, vsm);
    let mut variant = String::from_str(hls_dir);
    variant.append("/stream_%v.m3u8");
    push_owned_arg(&mut args, variant);
    proof {
        assert(crate::encoder::strs(args@) =~= spec_hls_args(
            source@,
            hls_dir@,
            has_audio,
            renditions@,
        ));
    }
    args
}

/// Build the full DASH segmenter invocation.
pub fn build_dash_args(source: &str, dash_dir: &str, has_audio: bool, renditions: &Vec<
    Rendition>) -> (r: Vec<String>)
    ensures
        crate::encoder::strs(r@) == spec_dash_args(source@, dash_dir@, has_audio, renditions@),
{
    let mut args: Vec<String> = Vec::new();
    push_stream_common(&mut args, source, has_audio, renditions);
    push_str_arg(&mut args, "-f");
    push_str_arg(&mut args, "dash");
    push_str_arg(&mut args, "-seg_duration");
    push_str_arg(&mut args, "4");
    push_str_arg(&mut args, "-use_template");
    push_str_arg(&mut args, "1");
    push_str_arg(&mut args, "-use_timeline");
    push_str_arg(&mut args, "1");
    push_str_arg(&mut args, "-streaming");
    push_str_arg(&mut args, "1");
    push_str_arg(&mut args, "-remove_at_exit");
    push_str_arg(&mut args, "0");
    push_str_arg(&mut args, "-adaptation_sets");
    if has_audio {
        push_str_arg(&mut args, "id=0,streams=v id=1,streams=a");
    } else {
        push_str_arg(&mut args, "id=0,streams=v");
    }
    push_str_arg(&mut args, "-init_seg_name");
    push_str_arg(&mut args, "init_$RepresentationID$.m4s");
    push_str_arg(&mut args, "-media_seg_name");
    push_str_arg(&mut args, "chunk_$RepresentationID$_$Number$.m4s");
    let mut manifest = String::from_str(dash_dir);
    manifest.append("/manifest.mpd");
    push_owned_arg(&mut args, manifest);
    proof {
        assert(crate::encoder::strs(args@) =~= spec_dash_args(
            source@,
            dash_dir@,
            has_audio,
            renditions@,
        ));
    }
    args
}

// ------------------------------------------------------------------
// Auxiliary dimension helpers.
// ------------------------------------------------------------------

/// Round up to an even number.
pub fn ensure_even(value: i32) -> (r: i32)
    requires
        value < i32::MAX,
    ensures
        r as int == if value as int % 2 == 0 {
            value as int
        } else {
            value as int + 1
        },
{
    if value % 2 == 0 {
        value
    } else {
        value + 1
    }
}

/// The scaled width for a target height, preserving the source's aspect
/// ratio, rounded half-up, pushed up to even and at least two; degenerate
/// sources fall back to 16:9.
pub open spec fn spec_scaled_width(sw: u32, sh: u32, th: u32) -> int {
    let fallback = (32 * (th as int) + 9) / 18;
    let w1 = if sw == 0 || sh == 0 {
        fallback
    } else {
        let w0 = (2 * (sw as int) * (th as int) + (sh as int)) / (2 * (sh as int));
        if w0 <= 0 {
            fallback
        } else {
            w0
        }
    };
    let w2 = if w1 % 2 == 0 {
        w1
    } else {
        w1 + 1
    };
    if w2 >= 2 {
        w2
    } else {
        2
    }
}

/// The dimensions of a rung scaled to `target_height`.
pub fn scaled_dimensions(source: (u32, u32), target_height: u32) -> (r: (i32, i32))
    requires
        1 <= target_height < 100_000_000,
        source.1 == 0 || source.0 == 0 || (2 * (source.0 as int) * (target_height as int) + (
        source.1 as int)) / (2 * (source.1 as int)) < 0x3FFF_FFFF,
    ensures
        r.0 as int == spec_scaled_width(source.0, source.1, target_height),
        r.1 == target_height as i32,
{
    let (sw, sh) = source;
    let fallback: i64 = (32 * (target_height as i64) + 9) / 18;
    let w1: i64 = if sw == 0 || sh == 0 {
        fallback
    } else {
        proof {
            assert(2 * (sw as int) * (target_height as int) + (sh as int)
                < 0x10000000000000000000) by (nonlinear_arith)
                requires
                    sw <= 0xFFFFFFFFu32,
                    target_height <= 0xFFFFFFFFu32,
                    sh <= 0xFFFFFFFFu32,
            ;
        }
        let w0: u128 = (2 * (sw as u128) * (target_height as u128) + (sh as u128)) / (2 * (
        sh as u128));
        if w0 == 0 {
            fallback
        } else {
            w0 as i64
        }
    };
    let w2: i64 = if w1 % 2 == 0 {
        w1
    } else {
        w1 + 1
    };
    let w3: i64 = if w2 >= 2 {
        w2
    } else {
        2
    };
    (w3 as i32, target_height as i32)
}

/// The audio quality tier a rendition's audio bitrate maps to.
#[derive(Clone, Copy, Debug, PartialEq, Eq, Structural)]
pub enum AudioBitrateTier {
    High,
    Medium,
    Low,
}

/// Map an audio bitrate label to its quality tier: 192k and 160k are high,
/// 128k is medium, everything else low.
pub fn map_audio_bitrate(value: &str) -> (r: AudioBitrateTier)
    ensures
        r == (if value.spec_bytes() == "192k".spec_bytes() || value.spec_bytes()
            == "160k".spec_bytes() {
            AudioBitrateTier::High
        } else if value.spec_bytes() == "128k".spec_bytes() {
            AudioBitrateTier::Medium
        } else {
            AudioBitrateTier::Low
        }),
{
    if crate::textscan::str_eq(value, "192k") || crate::textscan::str_eq(value, "160k") {
        AudioBitrateTier::High
    } else if crate::textscan::str_eq(value, "128k") {
        AudioBitrateTier::Medium
    } else {
        AudioBitrateTier::Low
    }
}

} // verus!
