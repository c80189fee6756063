//! The live map of where commanders are.
//!
//! The map counts visits in a grid of cells. Which cell a place lies in, how
//! counts fade and how a count is coloured is handed in: these are matters of
//! floating point.

use crate::config::{HEATMAP_H, HEATMAP_RENDER_CACHE_SECS, HEATMAP_W};
use crate::text;
use crate::text::join;
use vstd::prelude::*;

verus! {

/// The number of cells of the map.
pub const HEATMAP_CELLS: usize = 1048576;

/// The live map: a count for each cell, row by row from the south; the picture
/// that was drawn last, with the time in nanoseconds; and the number of visits
/// in all.
pub struct Heatmap {
    pub cells: Vec<u64>,
    pub cached_png: Option<(u64, Vec<u8>)>,
    pub total_bumps: u64,
}

/// The cell in the column `gx` and the row `gz`; what lies beyond the last
/// column or row belongs to it.
pub open spec fn cell_index(gx: int, gz: int) -> int {
    let x = if gx < HEATMAP_W {
        gx
    } else {
        HEATMAP_W - 1
    };
    let z = if gz < HEATMAP_H {
        gz
    } else {
        HEATMAP_H - 1
    };
    z * HEATMAP_W + x
}

/// A counter one further; behind the largest number comes zero.
pub open spec fn one_more(n: u64) -> u64 {
    if n < u64::MAX {
        (n + 1) as u64
    } else {
        0
    }
}

fn next_count(n: u64) -> (r: u64)
    ensures
        r == one_more(n),
{
    if n < u64::MAX {
        n + 1
    } else {
        0
    }
}

/// The largest of the first `n` counts.
pub open spec fn largest(cells: Seq<u64>, n: int) -> u64
    decreases n,
{
    if n <= 0 {
        0
    } else {
        let m = largest(cells, n - 1);
        if cells[n - 1] > m {
            cells[n - 1]
        } else {
            m
        }
    }
}

/// The pixel of a cell: the picture starts at the top, with the northernmost
/// row.
pub open spec fn pixel_of(i: int) -> int {
    (HEATMAP_H - 1 - i / (HEATMAP_W as int)) * HEATMAP_W + i % (HEATMAP_W as int)
}

/// Each cell has a pixel of its own.
pub proof fn law_pixels_are_distinct(i: int, j: int)
    requires
        0 <= i < HEATMAP_CELLS,
        0 <= j < HEATMAP_CELLS,
        pixel_of(i) == pixel_of(j),
    ensures
        i == j,
        0 <= pixel_of(i) < HEATMAP_CELLS,
{
}

/// The four bytes of the pixel of the cell `i` are those of the colour `c`.
pub open spec fn has_colour(rgba: Seq<u8>, i: int, c: (u8, u8, u8, u8)) -> bool {
    let p = pixel_of(i) * 4;
    rgba[p] == c.0 && rgba[p + 1] == c.1 && rgba[p + 2] == c.2 && rgba[p + 3] == c.3
}

/// The pixel of the cell `i` shows its count: nothing where that is zero, else
/// the shade that it has among counts up to `max`.
pub open spec fn shows<S: Fn(u64, u64) -> (u8, u8, u8, u8)>(
    shade: S,
    cells: Seq<u64>,
    max: u64,
    rgba: Seq<u8>,
    i: int,
) -> bool {
    if cells[i] == 0 {
        has_colour(rgba, i, (0, 0, 0, 0))
    } else {
        exists|c: (u8, u8, u8, u8)| #[trigger]
            call_ensures(shade, (cells[i], max), c) && has_colour(rgba, i, c)
    }
}

/// `rgba` is a picture of the counts.
pub open spec fn is_picture<S: Fn(u64, u64) -> (u8, u8, u8, u8)>(
    shade: S,
    cells: Seq<u64>,
    rgba: Seq<u8>,
) -> bool {
    &&& rgba.len() == HEATMAP_CELLS * 4
    &&& forall|i: int|
        0 <= i < HEATMAP_CELLS ==> #[trigger] shows(
            shade,
            cells,
            largest(cells, HEATMAP_CELLS as int),
            rgba,
            i,
        )
}

/// The PNG file of a picture with four bytes for each pixel, where the encoder
/// makes one.
pub uninterp spec fn png_file(width: u32, height: u32, rgba: Seq<u8>) -> Option<Seq<u8>>;

/// `png::Encoder` for eight bits each of red, green, blue and alpha with fast
/// compression: `write_header` and `write_image_data` write the file into a
/// vector. They fail only for a width or height of zero or for data of another
/// size. What the bytes of the file are is left to the encoder.
#[verifier::external_body]
fn encode_png(width: u32, height: u32, rgba: &Vec<u8>) -> (r: Option<Vec<u8>>)
    requires
        width > 0,
        height > 0,
        rgba.len() == width * height * 4,
    ensures
        r is Some,
        r matches Some(b) ==> png_file(width, height, rgba@) == Some(b@),
{
    let mut out = Vec::with_capacity(64 * 1024);
    let mut encoder = png::Encoder::new(&mut out, width, height);
    encoder.set_color(png::ColorType::Rgba);
    encoder.set_depth(png::BitDepth::Eight);
    encoder.set_compression(png::Compression::Fast);
    let written = match encoder.write_header() {
        Ok(mut writer) => writer.write_image_data(rgba),
        Err(e) => Err(e),
    };
    match written {
        Ok(()) => Some(out),
        Err(_) => None,
    }
}

/// `bytes` is the file of a picture of the counts.
pub open spec fn is_drawing<S: Fn(u64, u64) -> (u8, u8, u8, u8)>(
    shade: S,
    cells: Seq<u64>,
    bytes: Seq<u8>,
) -> bool {
    exists|rgba: Seq<u8>| #[trigger]
        is_picture(shade, cells, rgba) && png_file(HEATMAP_W as u32, HEATMAP_H as u32, rgba)
            == Some(bytes)
}

/// The picture that was drawn at the time `drawn` is still good at `now`: it is
/// less than half a minute old.
pub open spec fn is_fresh(drawn: u64, now: u64) -> bool {
    now - drawn < HEATMAP_RENDER_CACHE_SECS * 1000000000
}

/// The picture `bytes` is kept, with a time that the clock gave.
pub open spec fn is_kept<C: Fn() -> u64>(
    clock: C,
    picture: Option<(u64, Seq<u8>)>,
    bytes: Seq<u8>,
) -> bool {
    picture matches Some((t, b)) && b == bytes && call_ensures(clock, (), t)
}

impl Heatmap {
    /// The counts of the cells.
    pub open spec fn counts(&self) -> Seq<u64> {
        self.cells@
    }

    /// The picture that was drawn last, with the time.
    pub open spec fn picture(&self) -> Option<(u64, Seq<u8>)> {
        match self.cached_png {
            Some((t, b)) => Some((t, b@)),
            None => None,
        }
    }

    /// The map has its cells.
    pub open spec fn wf(&self) -> bool {
        self.cells.len() == HEATMAP_CELLS
    }

    /// The map without visits.
    pub fn new() -> (r: Heatmap)
        ensures
            r.wf(),
            r.counts() == Seq::new(HEATMAP_CELLS as nat, |i: int| 0u64),
            r.picture() is None,
            r.total_bumps == 0,
    {
        let cells = zeros(HEATMAP_CELLS);
        let r = Heatmap { cells, cached_png: None, total_bumps: 0 };
        assert(r.counts() =~= Seq::new(HEATMAP_CELLS as nat, |i: int| 0u64));
        r
    }

    /// Counts a visit to the cell in the given column and row; a place that is
    /// not on the map counts for nothing.
    pub fn bump(&mut self, cell: Option<(usize, usize)>)
        requires
            old(self).wf(),
        ensures
            final(self).wf(),
            final(self).picture() == old(self).picture(),
            match cell {
                Some((gx, gz)) => {
                    let i = cell_index(gx as int, gz as int);
                    &&& 0 <= i < HEATMAP_CELLS
                    &&& final(self).counts() == old(self).counts().update(
                        i,
                        one_more(old(self).counts()[i]),
                    )
                    &&& final(self).total_bumps == one_more(old(self).total_bumps)
                },
                None => final(self).counts() == old(self).counts() && final(self).total_bumps
                    == old(self).total_bumps,
            },
    {
        match cell {
            Some((gx, gz)) => {
                let x: usize = if gx < HEATMAP_W {
                    gx
                } else {
                    HEATMAP_W - 1
                };
                let z: usize = if gz < HEATMAP_H {
                    gz
                } else {
                    HEATMAP_H - 1
                };
                let i: usize = z * HEATMAP_W + x;
                let n: u64 = next_count(self.cells[i]);
                self.cells.set(i, n);
                self.total_bumps = next_count(self.total_bumps);
            },
            None => {},
        }
    }

    /// Lets the counts fade: `fade` gives what is left of a count.
    pub fn decay<F: Fn(u64) -> u64>(&mut self, fade: F)
        requires
            old(self).wf(),
            forall|n: u64| #[trigger] call_requires(fade, (n,)),
        ensures
            final(self).wf(),
            final(self).picture() == old(self).picture(),
            final(self).total_bumps == old(self).total_bumps,
            forall|i: int|
                0 <= i < HEATMAP_CELLS ==> if old(self).counts()[i] == 0 {
                    #[trigger] final(self).counts()[i] == 0
                } else {
                    call_ensures(fade, (old(self).counts()[i],), final(self).counts()[i])
                },
    {
        let ghost before = self.cells@;
        for k in 0..HEATMAP_CELLS
            invariant
                self.wf(),
                self.picture() == old(self).picture(),
                self.total_bumps == old(self).total_bumps,
                before == old(self).cells@,
                before.len() == HEATMAP_CELLS,
                forall|n: u64| #[trigger] call_requires(fade, (n,)),
                forall|i: int| k <= i < HEATMAP_CELLS ==> #[trigger] self.cells@[i] == before[i],
                forall|i: int|
                    0 <= i < k ==> if before[i] == 0 {
                        #[trigger] self.cells@[i] == 0
                    } else {
                        call_ensures(fade, (before[i],), self.cells@[i])
                    },
        {
            let v: u64 = self.cells[k];
            if v > 0 {
                let n: u64 = fade(v);
                self.cells.set(k, n);
            }
        }
    }

    /// The largest count.
    fn max(&self) -> (r: u64)
        requires
            self.wf(),
        ensures
            r == largest(self.counts(), HEATMAP_CELLS as int),
    {
        let mut m: u64 = 0;
        for i in 0..HEATMAP_CELLS
            invariant
                self.wf(),
                m == largest(self.cells@, i as int),
        {
            if self.cells[i] > m {
                m = self.cells[i];
            }
        }
        m
    }

    /// A picture of the counts, with four bytes for each pixel.
    pub fn paint<S: Fn(u64, u64) -> (u8, u8, u8, u8)>(&self, shade: &S) -> (rgba: Vec<u8>)
        requires
            self.wf(),
            forall|n: u64, m: u64| #[trigger] call_requires(*shade, (n, m)),
        ensures
            is_picture(*shade, self.counts(), rgba@),
    {
        let max: u64 = self.max();
        let mut rgba = blank(HEATMAP_CELLS * 4);
        for i in 0..HEATMAP_CELLS
            invariant
                self.wf(),
                forall|n: u64, m: u64| #[trigger] call_requires(*shade, (n, m)),
                rgba.len() == HEATMAP_CELLS * 4,
                forall|k: int|
                    0 <= k < i ==> #[trigger] shows(*shade, self.cells@, max, rgba@, k),
                forall|k: int|
                    i <= k < HEATMAP_CELLS ==> #[trigger] has_colour(rgba@, k, (0, 0, 0, 0)),
        {
            let n: u64 = self.cells[i];
            let ghost before = rgba@;
            assert(has_colour(before, i as int, (0, 0, 0, 0)));
            if n > 0 {
                let c = shade(n, max);
                let p: usize = ((HEATMAP_H - 1 - i / HEATMAP_W) * HEATMAP_W + i % HEATMAP_W) * 4;
                assert(p == pixel_of(i as int) * 4);
                rgba.set(p, c.0);
                rgba.set(p + 1, c.1);
                rgba.set(p + 2, c.2);
                rgba.set(p + 3, c.3);
                proof {
                    assert(has_colour(rgba@, i as int, c));
                    assert(shows(*shade, self.cells@, max, rgba@, i as int));
                    assert forall|k: int, d: (u8, u8, u8, u8)|
                        0 <= k < HEATMAP_CELLS && k != i && #[trigger] has_colour(before, k, d) implies has_colour(
                        rgba@,
                        k,
                        d,
                    ) by {
                        if pixel_of(k) == pixel_of(i as int) {
                            law_pixels_are_distinct(k, i as int);
                        }
                        lemma_pixel_in_range(k);
                    }
                    assert forall|k: int| 0 <= k < i implies #[trigger] shows(
                        *shade,
                        self.cells@,
                        max,
                        rgba@,
                        k,
                    ) by {
                        assert(shows(*shade, self.cells@, max, before, k));
                        if self.cells@[k] == 0 {
                            assert(has_colour(before, k, (0, 0, 0, 0)));
                        } else {
                            let d = choose|d: (u8, u8, u8, u8)| #[trigger]
                                call_ensures(*shade, (self.cells@[k], max), d) && has_colour(
                                    before,
                                    k,
                                    d,
                                );
                            assert(has_colour(rgba@, k, d));
                        }
                    }
                    assert forall|k: int| i + 1 <= k < HEATMAP_CELLS implies #[trigger] has_colour(
                        rgba@,
                        k,
                        (0, 0, 0, 0),
                    ) by {
                        assert(has_colour(before, k, (0, 0, 0, 0)));
                    }
                }
            } else {
                assert(shows(*shade, self.cells@, max, rgba@, i as int));
            }
        }
        rgba
    }

    /// Draws the picture of the counts as a PNG file.
    fn render_png<S: Fn(u64, u64) -> (u8, u8, u8, u8)>(&self, shade: &S) -> (r: Vec<u8>)
        requires
            self.wf(),
            forall|n: u64, m: u64| #[trigger] call_requires(*shade, (n, m)),
        ensures
            is_drawing(*shade, self.counts(), r@),
    {
        let rgba = self.paint(shade);
        match encode_png(HEATMAP_W as u32, HEATMAP_H as u32, &rgba) {
            Some(b) => b,
            None => Vec::new(),
        }
    }

    /// The picture that was drawn last, where it is still good at `now`.
    pub fn cached(&self, now: u64) -> (r: Option<Vec<u8>>)
        ensures
            match self.picture() {
                Some((t, b)) if is_fresh(t, now) => r matches Some(v) && v@ == b,
                _ => r is None,
            },
    {
        match &self.cached_png {
            Some((t, b)) => {
                if now < *t || now - *t < HEATMAP_RENDER_CACHE_SECS * 1000000000 {
                    Some(copy_bytes(b))
                } else {
                    None
                }
            },
            None => None,
        }
    }

    /// Keeps a picture that was drawn at the time `drawn`.
    pub fn store(&mut self, drawn: u64, bytes: &Vec<u8>)
        requires
            old(self).wf(),
        ensures
            final(self).wf(),
            final(self).picture() == Some((drawn, bytes@)),
            final(self).counts() == old(self).counts(),
            final(self).total_bumps == old(self).total_bumps,
    {
        self.cached_png = Some((drawn, copy_bytes(bytes)));
    }

    /// The picture of the counts as a PNG file: the one that was drawn last
    /// where it is still good, else a new one. `clock` gives the time in
    /// nanoseconds.
    pub fn get_or_render<S: Fn(u64, u64) -> (u8, u8, u8, u8), C: Fn() -> u64>(
        &mut self,
        shade: S,
        clock: C,
    ) -> (r: Vec<u8>)
        requires
            old(self).wf(),
            forall|n: u64, m: u64| #[trigger] call_requires(shade, (n, m)),
            call_requires(clock, ()),
        ensures
            final(self).wf(),
            final(self).counts() == old(self).counts(),
            final(self).total_bumps == old(self).total_bumps,
            exists|now: u64| #[trigger]
                call_ensures(clock, (), now) && (match old(self).picture() {
                    Some((t, b)) if is_fresh(t, now) => r@ == b && final(self).picture() == old(
                        self,
                    ).picture(),
                    _ => is_drawing(shade, old(self).counts(), r@) && is_kept(
                        clock,
                        final(self).picture(),
                        r@,
                    ),
                }),
    {
        let now: u64 = clock();
        match self.cached(now) {
            Some(b) => b,
            None => {
                let b = self.render_png(&shade);
                let drawn: u64 = clock();
                self.store(drawn, &b);
                b
            },
        }
    }
}

proof fn lemma_pixel_in_range(i: int)
    requires
        0 <= i < HEATMAP_CELLS,
    ensures
        0 <= pixel_of(i) < HEATMAP_CELLS,
{
}

fn zeros(n: usize) -> (r: Vec<u64>)
    ensures
        r@ == Seq::new(n as nat, |i: int| 0u64),
{
    let mut r: Vec<u64> = Vec::new();
    for i in 0..n
        invariant
            r.len() == i,
            forall|k: int| 0 <= k < i ==> #[trigger] r@[k] == 0,
    {
        r.push(0);
    }
    assert(r@ =~= Seq::new(n as nat, |i: int| 0u64));
    r
}

fn blank(n: usize) -> (r: Vec<u8>)
    ensures
        r.len() == n,
        forall|k: int| 0 <= k < n ==> #[trigger] r@[k] == 0,
{
    let mut r: Vec<u8> = Vec::new();
    for i in 0..n
        invariant
            r.len() == i,
            forall|k: int| 0 <= k < i ==> #[trigger] r@[k] == 0,
    {
        r.push(0);
    }
    r
}

fn copy_bytes(b: &Vec<u8>) -> (r: Vec<u8>)
    ensures
        r@ == b@,
{
    let mut r: Vec<u8> = Vec::new();
    for i in 0..b.len()
        invariant
            r@ == b@.take(i as int),
    {
        r.push(b[i]);
        assert(b@.take(i + 1) =~= b@.take(i as int).push(b@[i as int]));
    }
    assert(b@.take(b.len() as int) =~= b@);
    r
}

/// A landmark on the page: its name, and how far it is from the left and from
/// the top, as texts of per cents.
pub struct Marker {
    pub name: String,
    pub left: String,
    pub top: String,
}

/// A landmark as HTML.
pub open spec fn marker_text(m: Marker) -> Seq<char> {
    "<div class=\"marker\" style=\"left:"@ + m.left@ + "%;top:"@ + m.top@ + "%\">"@ + m.name@
        + "</div>"@
}

fn marker_html(m: &Marker) -> (r: String)
    ensures
        r@ == marker_text(*m),
{
    let mut r = String::new();
    r.append("<div class=\"marker\" style=\"left:");
    r.append(m.left.as_str());
    r.append("%;top:");
    r.append(m.top.as_str());
    r.append("%\">");
    r.append(m.name.as_str());
    r.append("</div>");
    assert(r@ =~= marker_text(*m));
    r
}

/// The page up to the landmarks.
pub const HTML_HEAD: &'static str = r#"<!DOCTYPE html>
<html lang="en">
<head>
<meta charset="utf-8">
<meta name="viewport" content="width=device-width,initial-scale=1">
<title>Ananke · Commander Hotspots</title>
<style>
  html,body{margin:0;padding:0;background:#04050a;color:#dde3ee;font-family:ui-monospace,SFMono-Regular,Menlo,monospace;overflow:hidden}
  .wrap{position:relative;width:100vmin;height:100vmin;margin:0 auto}
  .bg{position:absolute;inset:0;
    background:
      radial-gradient(ellipse 60% 35% at 50% 49%, rgba(80,60,140,.18) 0%, rgba(40,20,70,.05) 60%, transparent 100%),
      radial-gradient(ellipse 80% 60% at 50% 49%, rgba(40,30,80,.10) 0%, transparent 70%),
      #04050a;
  }
  .stars{position:absolute;inset:0;
    background-image:
      radial-gradient(1px 1px at 13% 22%,#fffa 0,transparent 100%),
      radial-gradient(1px 1px at 81% 14%,#fff8 0,transparent 100%),
      radial-gradient(1px 1px at 47% 62%,#fff7 0,transparent 100%),
      radial-gradient(1px 1px at 28% 78%,#fff6 0,transparent 100%),
      radial-gradient(1px 1px at 71% 91%,#fff5 0,transparent 100%),
      radial-gradient(1px 1px at 92% 51%,#fff4 0,transparent 100%),
      radial-gradient(1px 1px at 6% 53%,#fff3 0,transparent 100%);
    background-size:240px 240px,200px 200px,260px 260px,180px 180px,220px 220px,300px 300px,280px 280px;
    opacity:.55
  }
  .heat{position:absolute;inset:0;width:100%;height:100%;mix-blend-mode:screen;image-rendering:auto}
  .marker{position:absolute;font-size:11px;color:#9fdcc0;letter-spacing:.6px;transform:translate(-50%,-50%);pointer-events:none;text-shadow:0 0 6px #000,0 0 2px #000;white-space:nowrap}
  .marker::before{content:"";display:inline-block;width:5px;height:5px;border-radius:50%;background:#9fdcc0;margin-right:5px;box-shadow:0 0 8px #9fdcc0;vertical-align:1px}
  h1{position:fixed;top:14px;left:18px;margin:0;font-size:13px;font-weight:500;color:#9fdcc0;letter-spacing:1.5px}
  .meta{position:fixed;top:34px;left:18px;font-size:10px;color:#5a6675;letter-spacing:.5px}
  .legend{position:fixed;bottom:14px;left:14px;background:rgba(8,10,16,.65);padding:10px 14px;border-radius:4px;font-size:11px;line-height:1.5;border:1px solid #1a2030}
  .bar{width:200px;height:8px;background:linear-gradient(to right,rgba(20,8,60,.3),#3c1e78,#a01e6e,#e65a32,#ffc83c,#fff8dc);margin:6px 0;border-radius:1px}
  .bar-l{display:flex;justify-content:space-between;color:#7a8696;font-size:9px;letter-spacing:.5px}
  .links{position:fixed;bottom:14px;right:14px;font-size:10px;color:#5a6675}
  .links a{color:#7a8696;text-decoration:none;margin-left:10px}
  .links a:hover{color:#9fdcc0}
</style>
</head>
<body>
<h1>ANANKE · COMMANDER HOTSPOTS</h1>
<div class="meta">live activity · log scale · ~70 min half-life</div>
<div class="wrap">
  <div class="bg"></div>
  <div class="stars"></div>
  <img class="heat" id="heat" src="/api/heatmap.png" alt="commander activity heatmap">
  "#;

/// The page behind the landmarks.
pub const HTML_TAIL: &'static str = r#"
</div>
<div class="legend">
  <div style="color:#9fdcc0;letter-spacing:.5px">ACTIVITY</div>
  <div class="bar"></div>
  <div class="bar-l"><span>cold</span><span>hot</span></div>
  <div style="margin-top:6px;color:#5a6675">100,000 LY across · refresh 30s</div>
</div>
<div class="links">
  <a href="/api/heatmap.png">PNG</a>
  <a href="/api/edmc/stats">stats</a>
</div>
<script>
  const img = document.getElementById('heat');
  setInterval(() => { img.src = `/api/heatmap.png?t=${Date.now()}`; }, 30_000);
</script>
</body>
</html>"#;

/// The page with the map and its landmarks, one to a line.
pub fn build_heatmap_html(markers: &Vec<Marker>) -> (r: String)
    ensures
        r@ == HTML_HEAD@ + text::joined(
            markers@.map_values(|m: Marker| marker_text(m)),
            "\n  "@,
        ) + HTML_TAIL@,
{
    let mut v: Vec<String> = Vec::new();
    for i in 0..markers.len()
        invariant
            v.len() == i,
            forall|k: int| 0 <= k < i ==> (#[trigger] v@[k])@ == marker_text(markers@[k]),
    {
        v.push(marker_html(&markers[i]));
    }
    assert(text::texts(v@) =~= markers@.map_values(|m: Marker| marker_text(m)));
    let mut r = HTML_HEAD.to_owned();
    let list = join(&v, "\n  ");
    r.append(list.as_str());
    r.append(HTML_TAIL);
    r
}

/// The cells lie row by row: the cell of a column and a row on the map is found
/// again from its number, and what lies beyond the last column or row belongs
/// to it.
pub proof fn law_cells_lie_row_by_row(gx: int, gz: int)
    requires
        0 <= gx,
        0 <= gz,
    ensures
        0 <= cell_index(gx, gz) < HEATMAP_CELLS,
        gx < HEATMAP_W ==> cell_index(gx, gz) % (HEATMAP_W as int) == gx,
        gx >= HEATMAP_W ==> cell_index(gx, gz) % (HEATMAP_W as int) == HEATMAP_W - 1,
        gz < HEATMAP_H ==> cell_index(gx, gz) / (HEATMAP_W as int) == gz,
        gz >= HEATMAP_H ==> cell_index(gx, gz) / (HEATMAP_W as int) == HEATMAP_H - 1,
{
}

/// In the picture, east is to the right and north is up: the next column is the
/// next pixel, and the next row is one line of pixels higher.
pub proof fn law_north_is_up(gx: int, gz: int)
    requires
        0 <= gx < HEATMAP_W,
        0 <= gz < HEATMAP_H,
    ensures
        pixel_of(cell_index(0, HEATMAP_H - 1)) == 0,
        gx + 1 < HEATMAP_W ==> pixel_of(cell_index(gx + 1, gz)) == pixel_of(cell_index(gx, gz)) + 1,
        gz + 1 < HEATMAP_H ==> pixel_of(cell_index(gx, gz + 1)) == pixel_of(cell_index(gx, gz))
            - HEATMAP_W,
{
    law_cells_lie_row_by_row(gx, gz);
    law_cells_lie_row_by_row(gx + 1, gz);
    law_cells_lie_row_by_row(gx, gz + 1);
    law_cells_lie_row_by_row(0, HEATMAP_H - 1);
}

/// The largest count is one of the counts, and none is larger.
pub proof fn law_the_largest_is_the_largest(cells: Seq<u64>, n: int)
    requires
        0 <= n <= cells.len(),
    ensures
        forall|i: int| 0 <= i < n ==> #[trigger] cells[i] <= largest(cells, n),
        largest(cells, n) == 0 || exists|i: int|
            0 <= i < n && #[trigger] cells[i] == largest(cells, n),
    decreases n,
{
    if n > 0 {
        law_the_largest_is_the_largest(cells, n - 1);
        let m = largest(cells, n - 1);
        if cells[n - 1] > m {
            assert(cells[n - 1] == largest(cells, n));
        } else if m != 0 {
            let i = choose|i: int| 0 <= i < n - 1 && #[trigger] cells[i] == m;
            assert(cells[i] == largest(cells, n));
        }
    }
}

} // verus!
