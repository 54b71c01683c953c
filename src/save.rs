use vstd::arithmetic::div_mod::{
    lemma_fundamental_div_mod, lemma_fundamental_div_mod_converse, lemma_mod_pos_bound,
};
use vstd::prelude::*;

use crate::tilemap::{cells_wf, Cells, Layer, MapView, Tile, TileMap};

verus! {

/// The cells of a `w` by `h` layer in row-major order: entry `x + y * w`
/// holds the cell `(x, y)`.
pub open spec fn flatten(g: Cells, w: nat, h: nat) -> Seq<Option<Tile>> {
    Seq::new(w * h, |i: int| g[i / (w as int)][i % (w as int)])
}

/// The `w` by `h` layer whose cell `(x, y)` is entry `x + y * w` of `t`.
pub open spec fn unflatten(t: Seq<Option<Tile>>, w: nat, h: nat) -> Cells {
    Seq::new(h, |y: int| Seq::new(w, |x: int| t[x + y * w]))
}

/// Both sequences hold one entry per cell of a `w` by `h` grid.
pub open spec fn layout_ok(w: nat, h: nat, bg: Seq<Option<Tile>>, fg: Seq<Option<Tile>>) -> bool {
    bg.len() == w * h && fg.len() == w * h
}

/// The map that a record of extent `w` by `h` with these entries describes.
pub open spec fn decoded(w: nat, h: nat, bg: Seq<Option<Tile>>, fg: Seq<Option<Tile>>) -> MapView {
    MapView { width: w, height: h, background: unflatten(bg, w, h), foreground: unflatten(fg, w, h) }
}

proof fn lemma_unflatten_flatten(g: Cells, w: nat, h: nat)
    requires
        cells_wf(g, w, h),
    ensures
        flatten(g, w, h).len() == w * h,
        unflatten(flatten(g, w, h), w, h) == g,
{
    let u = unflatten(flatten(g, w, h), w, h);
    assert forall|y: int| 0 <= y < h implies #[trigger] u[y] =~= g[y] by {
        assert forall|x: int| 0 <= x < w implies u[y][x] == g[y][x] by {
            assert(x + y * w < w * h) by (nonlinear_arith)
                requires
                    0 <= x < w,
                    0 <= y < h,
            ;
            lemma_fundamental_div_mod_converse(x + y * w, w as int, y, x);
        }
    }
    assert(u =~= g);
}

/// Decoding the record of a map gives back that map: its extent and every cell
/// of both layers.
pub proof fn lemma_round_trip(m: MapView)
    requires
        m.wf(),
    ensures
        layout_ok(
            m.width,
            m.height,
            flatten(m.background, m.width, m.height),
            flatten(m.foreground, m.width, m.height),
        ),
        decoded(
            m.width,
            m.height,
            flatten(m.background, m.width, m.height),
            flatten(m.foreground, m.width, m.height),
        ) == m,
{
    lemma_unflatten_flatten(m.background, m.width, m.height);
    lemma_unflatten_flatten(m.foreground, m.width, m.height);
}

/// Encoding the map that a well-formed record describes gives back that
/// record's entries.
pub proof fn lemma_record_round_trip(w: nat, h: nat, bg: Seq<Option<Tile>>, fg: Seq<Option<Tile>>)
    requires
        layout_ok(w, h, bg, fg),
    ensures
        decoded(w, h, bg, fg).wf(),
        flatten(decoded(w, h, bg, fg).background, w, h) == bg,
        flatten(decoded(w, h, bg, fg).foreground, w, h) == fg,
{
    lemma_flatten_unflatten(bg, w, h);
    lemma_flatten_unflatten(fg, w, h);
}

proof fn lemma_flatten_unflatten(t: Seq<Option<Tile>>, w: nat, h: nat)
    requires
        t.len() == w * h,
    ensures
        cells_wf(unflatten(t, w, h), w, h),
        flatten(unflatten(t, w, h), w, h) == t,
{
    let f = flatten(unflatten(t, w, h), w, h);
    assert forall|i: int| 0 <= i < w * h implies #[trigger] f[i] == t[i] by {
        let wi = w as int;
        let q = i / wi;
        let r = i % wi;
        assert(w > 0) by (nonlinear_arith)
            requires
                0 <= i < w * h,
                w >= 0,
                h >= 0,
        ;
        lemma_fundamental_div_mod(i, wi);
        assert(0 <= r < wi) by {
            lemma_mod_pos_bound(i, wi);
        }
        assert(0 <= q < h) by (nonlinear_arith)
            requires
                i == wi * q + r,
                0 <= r < wi,
                0 <= i < wi * h,
                wi > 0,
        ;
        assert(r + q * wi == i) by (nonlinear_arith)
            requires
                i == wi * q + r,
        ;
    }
    assert(f =~= t);
}

/// The entries of one layer in a persisted record.
#[derive(Debug, Clone, PartialEq)]
pub struct LayerStorage {
    pub tiles: Vec<Option<Tile>>,
}

/// The persisted form of a map: its extent and the flattened cells of each
/// layer.
#[derive(Debug, Clone, PartialEq)]
pub struct TileMapStorage {
    pub width: u16,
    pub height: u16,
    pub background: LayerStorage,
    pub foreground: LayerStorage,
}

/// Why a record cannot be read back as a map.
#[derive(Debug, Clone, Copy, PartialEq, Eq, Structural)]
pub enum DecodeError {
    /// A layer does not hold exactly one entry per cell.
    MalformedLayout,
}

impl TileMapStorage {
    /// The record is one that `to_map` accepts.
    pub open spec fn layout_ok(&self) -> bool {
        layout_ok(
            self.width as nat,
            self.height as nat,
            self.background.tiles@,
            self.foreground.tiles@,
        )
    }

    /// The record holds the extent of `m` and its layers flattened row by row.
    pub open spec fn is_record_of(&self, m: MapView) -> bool {
        &&& self.width as nat == m.width
        &&& self.height as nat == m.height
        &&& self.background.tiles@ == flatten(m.background, m.width, m.height)
        &&& self.foreground.tiles@ == flatten(m.foreground, m.width, m.height)
    }

    /// The map that the record describes.
    pub open spec fn decoded(&self) -> MapView {
        decoded(
            self.width as nat,
            self.height as nat,
            self.background.tiles@,
            self.foreground.tiles@,
        )
    }

    /// Rebuilds the map that the record describes, placing entry `x + y * width`
    /// of each layer at `(x, y)`. A layer that does not hold exactly
    /// `width * height` entries makes the record malformed.
    pub fn to_map(&self) -> (r: Result<TileMap, DecodeError>)
        ensures
            match r {
                Ok(map) => self.layout_ok() && map.wf() && map@ == self.decoded(),
                Err(e) => !self.layout_ok() && e == DecodeError::MalformedLayout,
            },
    {
        let width = self.width;
        let height = self.height;
        let ghost w = width as nat;
        let ghost h = height as nat;
        assert(width as u32 * height as u32 <= 0xffff * 0xffff) by (nonlinear_arith)
            requires
                width <= 0xffff,
                height <= 0xffff,
        ;
        let cells = (width as u32 * height as u32) as usize;
        if self.background.tiles.len() != cells || self.foreground.tiles.len() != cells {
            return Err(DecodeError::MalformedLayout);
        }
        let ghost bg = self.background.tiles@;
        let ghost fg = self.foreground.tiles@;
        let ghost target = self.decoded();
        let mut out_map = TileMap::new(width, height);
        let mut y: u16 = 0;
        while y < height
            invariant
                self.layout_ok(),
                width == self.width,
                height == self.height,
                w == width,
                h == height,
                bg == self.background.tiles@,
                fg == self.foreground.tiles@,
                target == self.decoded(),
                y <= height,
                out_map.wf(),
                out_map@.width == w,
                out_map@.height == h,
                forall|yy: int, xx: int|
                    0 <= yy < h && 0 <= xx < w ==> #[trigger] out_map@.background[yy][xx] == (
                    if yy < y {
                        bg[xx + yy * w]
                    } else {
                        None
                    }),
                forall|yy: int, xx: int|
                    0 <= yy < h && 0 <= xx < w ==> #[trigger] out_map@.foreground[yy][xx] == (
                    if yy < y {
                        fg[xx + yy * w]
                    } else {
                        None
                    }),
            decreases height - y,
        {
            let mut x: u16 = 0;
            while x < width
                invariant
                    self.layout_ok(),
                    width == self.width,
                    height == self.height,
                    w == width,
                    h == height,
                    bg == self.background.tiles@,
                    fg == self.foreground.tiles@,
                    y < height,
                    x <= width,
                    out_map.wf(),
                    out_map@.width == w,
                    out_map@.height == h,
                    forall|yy: int, xx: int|
                        0 <= yy < h && 0 <= xx < w ==> #[trigger] out_map@.background[yy][xx] == (
                        if yy < y || (yy == y && xx < x) {
                            bg[xx + yy * w]
                        } else {
                            None
                        }),
                    forall|yy: int, xx: int|
                        0 <= yy < h && 0 <= xx < w ==> #[trigger] out_map@.foreground[yy][xx] == (
                        if yy < y || (yy == y && xx < x) {
                            fg[xx + yy * w]
                        } else {
                            None
                        }),
                decreases width - x,
            {
                assert(x as int + y as int * w < w * h && w * h <= 0xffff * 0xffff)
                    by (nonlinear_arith)
                    requires
                        x < w,
                        y < h,
                        w <= 0xffff,
                        h <= 0xffff,
                ;
                let i = (x as u32 + y as u32 * width as u32) as usize;
                assert(i as int == x as int + y as int * w);
                assert(bg.len() == w * h && fg.len() == w * h);
                let ghost before = out_map@;
                out_map.set_tile(x, y, self.background.tiles[i], Layer::Background);
                let ghost mid = out_map@;
                out_map.set_tile(x, y, self.foreground.tiles[i], Layer::Foreground);
                proof {
                    assert forall|yy: int, xx: int| 0 <= yy < h && 0 <= xx < w && (yy != y || xx
                        != x) implies #[trigger] out_map@.background[yy][xx]
                        == before.background[yy][xx] && out_map@.foreground[yy][xx]
                        == before.foreground[yy][xx] by {
                        if yy != y {
                            assert(mid.background[yy] == before.background[yy]);
                        }
                    }
                }
                x = x + 1;
            }
            y = y + 1;
        }
        proof {
            assert forall|yy: int| 0 <= yy < h implies #[trigger] out_map@.background[yy]
                =~= target.background[yy] by {
                assert(out_map@.background[yy].len() == w);
            }
            assert forall|yy: int| 0 <= yy < h implies #[trigger] out_map@.foreground[yy]
                =~= target.foreground[yy] by {
                assert(out_map@.foreground[yy].len() == w);
            }
            assert(out_map@.background =~= target.background);
            assert(out_map@.foreground =~= target.foreground);
        }
        Ok(out_map)
    }

    /// The record of `map`, each layer flattened row by row.
    pub fn from_map(map: &TileMap) -> (r: Self)
        requires
            map.wf(),
        ensures
            r.is_record_of(map@),
    {
        let (width, height) = map.get_dimensions();
        let ghost w = width as nat;
        let ghost h = height as nat;
        let ghost m = map@;
        assert(width as u32 * height as u32 <= 0xffff * 0xffff) by (nonlinear_arith)
            requires
                width <= 0xffff,
                height <= 0xffff,
        ;
        let cells = (width as u32 * height as u32) as usize;
        let mut out = TileMapStorage {
            width,
            height,
            background: LayerStorage { tiles: Vec::with_capacity(cells) },
            foreground: LayerStorage { tiles: Vec::with_capacity(cells) },
        };
        let mut y: u16 = 0;
        while y < height
            invariant
                map.wf(),
                m == map@,
                w == m.width,
                h == m.height,
                width as nat == w,
                height as nat == h,
                out.width == width,
                out.height == height,
                y <= height,
                out.background.tiles@.len() == y * w,
                out.foreground.tiles@.len() == y * w,
                forall|i: int|
                    0 <= i < y * w ==> #[trigger] out.background.tiles@[i] == m.background[i
                        / (w as int)][i % (w as int)],
                forall|i: int|
                    0 <= i < y * w ==> #[trigger] out.foreground.tiles@[i] == m.foreground[i
                        / (w as int)][i % (w as int)],
            decreases height - y,
        {
            let mut x: u16 = 0;
            while x < width
                invariant
                    map.wf(),
                    m == map@,
                    w == m.width,
                    h == m.height,
                    width as nat == w,
                    height as nat == h,
                    out.width == width,
                    out.height == height,
                    y < height,
                    x <= width,
                    out.background.tiles@.len() == y * w + x,
                    out.foreground.tiles@.len() == y * w + x,
                    forall|i: int|
                        0 <= i < y * w + x ==> #[trigger] out.background.tiles@[i]
                            == m.background[i / (w as int)][i % (w as int)],
                    forall|i: int|
                        0 <= i < y * w + x ==> #[trigger] out.foreground.tiles@[i]
                            == m.foreground[i / (w as int)][i % (w as int)],
                decreases width - x,
            {
                let (bg_tile, fg_tile) = map.get_tile(x, y);
                proof {
                    lemma_fundamental_div_mod_converse(y * w + x, w as int, y as int, x as int);
                }
                out.background.tiles.push(bg_tile);
                out.foreground.tiles.push(fg_tile);
                x = x + 1;
            }
            proof {
                assert((y + 1) * w == y * w + w) by (nonlinear_arith);
            }
            y = y + 1;
        }
        proof {
            assert(h * w == w * h) by (nonlinear_arith);
        }
        assert(out.background.tiles@ =~= flatten(m.background, w, h));
        assert(out.foreground.tiles@ =~= flatten(m.foreground, w, h));
        out
    }
}

} // verus!
