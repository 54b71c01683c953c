use vstd::prelude::*;

verus! {

/// One cell's content: an index into the loaded tile source, with its
/// orientation flags.
#[derive(Debug, Clone, Copy, PartialEq, Eq, Structural)]
pub struct Tile {
    pub value: u32,
    pub h_flip: bool,
    pub v_flip: bool,
}

impl Tile {
    pub fn new(value: u32, h_flip: bool, v_flip: bool) -> (r: Self)
        ensures
            r == (Tile { value, h_flip, v_flip }),
    {
        Tile { value, h_flip, v_flip }
    }
}

/// Selects one of the two grids of a map.
#[derive(Debug, Clone, Copy, PartialEq, Eq, Structural)]
pub enum Layer {
    Background,
    Foreground,
}

impl Layer {
    /// Both layers, background first.
    pub fn all() -> (r: [Layer; 2])
        ensures
            r@ == seq![Layer::Background, Layer::Foreground],
    {
        [Layer::Background, Layer::Foreground]
    }

    /// The layer's name, as shown to a user.
    pub fn name(&self) -> (r: &'static str)
        ensures
            r@ == (match self {
                Layer::Background => "Background"@,
                Layer::Foreground => "Foreground"@,
            }),
    {
        match self {
            Layer::Background => "Background",
            Layer::Foreground => "Foreground",
        }
    }
}

/// The rows of one layer: `g[y][x]` is the cell at column `x` of row `y`.
pub type Cells = Seq<Seq<Option<Tile>>>;

/// `g` holds `h` rows of `w` cells each.
pub open spec fn cells_wf(g: Cells, w: nat, h: nat) -> bool {
    &&& g.len() == h
    &&& forall|y: int| 0 <= y < h ==> #[trigger] g[y].len() == w
}

/// `g` with the cell at `(x, y)` replaced by `value`.
pub open spec fn cells_with(g: Cells, x: int, y: int, value: Option<Tile>) -> Cells {
    g.update(y, g[y].update(x, value))
}

/// A `w` by `h` layer whose cells are all empty.
pub open spec fn empty_cells(w: nat, h: nat) -> Cells {
    Seq::new(h, |y: int| Seq::new(w, |x: int| None::<Tile>))
}

/// The `w` by `h` layer that keeps the cells of the `ow` by `oh` layer `g`
/// that lie in both extents and is empty elsewhere.
pub open spec fn resized_cells(g: Cells, ow: nat, oh: nat, w: nat, h: nat) -> Cells {
    Seq::new(
        h,
        |y: int|
            Seq::new(w, |x: int| if x < ow && y < oh { g[y][x] } else { None::<Tile> }),
    )
}

/// What a map holds: its extent and the rows of its two layers.
pub struct MapView {
    pub width: nat,
    pub height: nat,
    pub background: Cells,
    pub foreground: Cells,
}

impl MapView {
    /// Both layers span exactly `width` by `height` cells.
    pub open spec fn wf(self) -> bool {
        &&& cells_wf(self.background, self.width, self.height)
        &&& cells_wf(self.foreground, self.width, self.height)
    }

    pub open spec fn in_bounds(self, x: int, y: int) -> bool {
        0 <= x < self.width && 0 <= y < self.height
    }

    pub open spec fn cells(self, layer: Layer) -> Cells {
        match layer {
            Layer::Background => self.background,
            Layer::Foreground => self.foreground,
        }
    }

    pub open spec fn cell(self, layer: Layer, x: int, y: int) -> Option<Tile> {
        self.cells(layer)[y][x]
    }

    /// The map with the cell `(x, y)` of `layer` replaced by `value`.
    pub open spec fn with_tile(self, x: int, y: int, value: Option<Tile>, layer: Layer) -> MapView {
        match layer {
            Layer::Background => MapView {
                background: cells_with(self.background, x, y, value),
                ..self
            },
            Layer::Foreground => MapView {
                foreground: cells_with(self.foreground, x, y, value),
                ..self
            },
        }
    }

    /// The map brought to `w` by `h`: cells inside both extents are kept, the
    /// others are empty.
    pub open spec fn resized(self, w: nat, h: nat) -> MapView {
        MapView {
            width: w,
            height: h,
            background: resized_cells(self.background, self.width, self.height, w, h),
            foreground: resized_cells(self.foreground, self.width, self.height, w, h),
        }
    }
}

/// A `w` by `h` map with every cell of both layers empty.
pub open spec fn empty_map(w: nat, h: nat) -> MapView {
    MapView { width: w, height: h, background: empty_cells(w, h), foreground: empty_cells(w, h) }
}

/// A grid of cells in two layers, background and foreground, of one extent.
#[derive(Debug, Clone)]
pub struct TileMap {
    background: LayerContent,
    foreground: LayerContent,
}

impl View for TileMap {
    type V = MapView;

    closed spec fn view(&self) -> MapView {
        MapView {
            width: self.background.width as nat,
            height: self.background.height as nat,
            background: self.background@,
            foreground: self.foreground@,
        }
    }
}

impl Default for TileMap {
    fn default() -> (r: Self)
        ensures
            r.wf(),
            r@ == empty_map(32, 32),
    {
        TileMap::new(32, 32)
    }
}

impl TileMap {
    /// The two layers agree on their extent.
    pub closed spec fn layers_agree(&self) -> bool {
        &&& self.foreground.width == self.background.width
        &&& self.foreground.height == self.background.height
    }

    pub open spec fn wf(&self) -> bool {
        self@.wf() && self.layers_agree()
    }

    pub fn new(width: u16, height: u16) -> (r: Self)
        ensures
            r.wf(),
            r@ == empty_map(width as nat, height as nat),
    {
        TileMap {
            background: LayerContent::new(width, height),
            foreground: LayerContent::new(width, height),
        }
    }

    /// Overwrites the cell `(x, y)` of `layer`; `None` erases it.
    pub fn set_tile(&mut self, x: u16, y: u16, value: Option<Tile>, layer: Layer)
        requires
            old(self).wf(),
            x < old(self)@.width,
            y < old(self)@.height,
        ensures
            final(self).wf(),
            final(self)@ == old(self)@.with_tile(x as int, y as int, value, layer),
    {
        match layer {
            Layer::Background => self.background.set_tile(x, y, value),
            Layer::Foreground => self.foreground.set_tile(x, y, value),
        }
    }

    /// The cell `(x, y)` of the background and of the foreground.
    pub fn get_tile(&self, x: u16, y: u16) -> (r: (Option<Tile>, Option<Tile>))
        requires
            self.wf(),
            x < self@.width,
            y < self@.height,
        ensures
            r.0 == self@.cell(Layer::Background, x as int, y as int),
            r.1 == self@.cell(Layer::Foreground, x as int, y as int),
    {
        (self.background.get_tile(x, y), self.foreground.get_tile(x, y))
    }

    /// Brings both layers to the new extent; cells outside it are dropped and
    /// cells that it adds are empty.
    pub fn resize(&mut self, new_width: u16, new_height: u16)
        requires
            old(self).wf(),
        ensures
            final(self).wf(),
            final(self)@ == old(self)@.resized(new_width as nat, new_height as nat),
    {
        self.background.resize(new_width, new_height);
        self.foreground.resize(new_width, new_height);
    }

    /// An independent map with the same extent and cells.
    pub fn snapshot(&self) -> (r: TileMap)
        requires
            self.wf(),
        ensures
            r.wf(),
            r@ == self@,
    {
        TileMap { background: self.background.duplicate(), foreground: self.foreground.duplicate() }
    }

    /// The extent of a map fits its `u16` dimensions.
    pub proof fn lemma_extent_fits(&self)
        ensures
            self@.width <= 0xffff,
            self@.height <= 0xffff,
    {
    }

    /// `(width, height)`.
    pub fn get_dimensions(&self) -> (r: (u16, u16))
        ensures
            r.0 as nat == self@.width,
            r.1 as nat == self@.height,
    {
        (self.background.width, self.background.height)
    }
}

/// Writing a cell and reading it back gives the value written, and the other
/// layer is left as it was.
pub proof fn lemma_set_then_get(m: MapView, x: int, y: int, value: Option<Tile>, layer: Layer)
    requires
        m.wf(),
        m.in_bounds(x, y),
    ensures
        m.with_tile(x, y, value, layer).wf(),
        m.with_tile(x, y, value, layer).cell(layer, x, y) == value,
        forall|other: Layer|
            other != layer ==> #[trigger] m.with_tile(x, y, value, layer).cells(other) == m.cells(
                other,
            ),
{
    let r = m.with_tile(x, y, value, layer);
    assert forall|j: int| 0 <= j < r.height implies #[trigger] r.background[j].len() == r.width by {
        if j != y {
            assert(r.background[j] == m.background[j]);
        }
    }
    assert forall|j: int| 0 <= j < r.height implies #[trigger] r.foreground[j].len() == r.width by {
        if j != y {
            assert(r.foreground[j] == m.foreground[j]);
        }
    }
}

/// Growing a map keeps every cell that was in bounds and leaves every cell it
/// adds empty.
pub proof fn lemma_grow_keeps_cells(m: MapView, w: nat, h: nat)
    requires
        m.wf(),
        m.width <= w,
        m.height <= h,
    ensures
        m.resized(w, h).wf(),
        forall|layer: Layer, x: int, y: int|
            m.in_bounds(x, y) ==> #[trigger] m.resized(w, h).cell(layer, x, y) == m.cell(
                layer,
                x,
                y,
            ),
        forall|layer: Layer, x: int, y: int|
            m.resized(w, h).in_bounds(x, y) && !m.in_bounds(x, y) ==> #[trigger] m.resized(
                w,
                h,
            ).cell(layer, x, y) == None::<Tile>,
{
}

/// Shrinking a map loses the cells outside the smaller extent: growing it back
/// to its first extent leaves them empty, and keeps the others.
pub proof fn lemma_shrink_then_grow(m: MapView, w: nat, h: nat)
    requires
        m.wf(),
        w <= m.width,
        h <= m.height,
    ensures
        m.resized(w, h).resized(m.width, m.height).wf(),
        forall|layer: Layer, x: int, y: int|
            m.in_bounds(x, y) ==> #[trigger] m.resized(w, h).resized(m.width, m.height).cell(
                layer,
                x,
                y,
            ) == (if x < w && y < h {
                m.cell(layer, x, y)
            } else {
                None
            }),
{
}

#[derive(Debug, Clone)]
struct LayerContent {
    width: u16,
    height: u16,
    tiles: Vec<Vec<Option<Tile>>>,
}

impl View for LayerContent {
    type V = Cells;

    closed spec fn view(&self) -> Cells {
        self.tiles@.map_values(|row: Vec<Option<Tile>>| row@)
    }
}

impl LayerContent {
    closed spec fn inv(&self) -> bool {
        cells_wf(self@, self.width as nat, self.height as nat)
    }

    fn new(width: u16, height: u16) -> (r: Self)
        ensures
            r.inv(),
            r.width == width,
            r.height == height,
            r@ == empty_cells(width as nat, height as nat),
    {
        let mut tiles: Vec<Vec<Option<Tile>>> = Vec::new();
        let mut y: u16 = 0;
        while y < height
            invariant
                y <= height,
                tiles@.len() == y,
                forall|j: int|
                    0 <= j < y ==> #[trigger] tiles@[j]@ == Seq::new(
                        width as nat,
                        |x: int| None::<Tile>,
                    ),
            decreases height - y,
        {
            let mut row: Vec<Option<Tile>> = Vec::new();
            let mut x: u16 = 0;
            while x < width
                invariant
                    x <= width,
                    row@ == Seq::new(x as nat, |i: int| None::<Tile>),
                decreases width - x,
            {
                row.push(None);
                x = x + 1;
                assert(row@ =~= Seq::new(x as nat, |i: int| None::<Tile>));
            }
            tiles.push(row);
            y = y + 1;
        }
        let r = LayerContent { width, height, tiles };
        assert(r@ =~= empty_cells(width as nat, height as nat));
        r
    }

    fn set_tile(&mut self, x: u16, y: u16, value: Option<Tile>)
        requires
            old(self).inv(),
            x < old(self).width,
            y < old(self).height,
        ensures
            final(self).inv(),
            final(self).width == old(self).width,
            final(self).height == old(self).height,
            final(self)@ == cells_with(old(self)@, x as int, y as int, value),
    {
        let x = x as usize;
        let y = y as usize;
        assert(self.tiles@[y as int]@ == self@[y as int]);
        self.tiles[y][x] = value;
        assert(self@ =~= cells_with(old(self)@, x as int, y as int, value));
    }

    fn resize(&mut self, new_width: u16, new_height: u16)
        requires
            old(self).inv(),
        ensures
            final(self).inv(),
            final(self).width == new_width,
            final(self).height == new_height,
            final(self)@ == resized_cells(
                old(self)@,
                old(self).width as nat,
                old(self).height as nat,
                new_width as nat,
                new_height as nat,
            ),
    {
        let ghost g = self@;
        let ghost ow = self.width as nat;
        let ghost oh = self.height as nat;
        // rows first: the kept rows stay as they were, new rows are empty
        if new_height > self.height {
            let mut y: u16 = self.height;
            while y < new_height
                invariant
                    self.height as nat == oh,
                    self.width as nat == ow,
                    oh <= y <= new_height,
                    self.tiles@.len() == y,
                    forall|j: int|
                        0 <= j < y ==> #[trigger] self.tiles@[j]@ == resized_cells(
                            g,
                            ow,
                            oh,
                            ow,
                            new_height as nat,
                        )[j],
                decreases new_height - y,
            {
                let mut row: Vec<Option<Tile>> = Vec::new();
                let mut x: u16 = 0;
                while x < self.width
                    invariant
                        x <= self.width,
                        row@ == Seq::new(x as nat, |i: int| None::<Tile>),
                    decreases self.width - x,
                {
                    row.push(None);
                    x = x + 1;
                    assert(row@ =~= Seq::new(x as nat, |i: int| None::<Tile>));
                }
                self.tiles.push(row);
                proof {
                    assert(self.tiles@[y as int]@ =~= resized_cells(
                        g,
                        ow,
                        oh,
                        ow,
                        new_height as nat,
                    )[y as int]);
                }
                y = y + 1;
            }
        } else {
            self.tiles.truncate(new_height as usize);
            proof {
                assert forall|j: int| 0 <= j < new_height implies #[trigger] self.tiles@[j]@
                    =~= resized_cells(g, ow, oh, ow, new_height as nat)[j] by {
                    assert(self.tiles@[j]@ == g[j]);
                }
            }
        }
        self.height = new_height;
        let ghost mid = resized_cells(g, ow, oh, ow, new_height as nat);
        let ghost goal = resized_cells(g, ow, oh, new_width as nat, new_height as nat);
        // then the cells of each row
        let mut i: usize = 0;
        while i < new_height as usize
            invariant
                self.height == new_height,
                self.width as nat == ow,
                mid == resized_cells(g, ow, oh, ow, new_height as nat),
                goal == resized_cells(g, ow, oh, new_width as nat, new_height as nat),
                0 <= i <= new_height,
                self.tiles@.len() == new_height,
                forall|j: int| 0 <= j < i ==> #[trigger] self.tiles@[j]@ == goal[j],
                forall|j: int| i <= j < new_height ==> #[trigger] self.tiles@[j]@ == mid[j],
            decreases new_height - i,
        {
            let ghost before = self.tiles@;
            assert(self.tiles@[i as int]@ == mid[i as int]);
            if new_width > self.width {
                let mut x: u16 = self.width;
                while x < new_width
                    invariant
                        self.width as nat == ow,
                        self.tiles@.len() == new_height,
                        ow <= x <= new_width,
                        i < new_height,
                        self.tiles@[i as int]@.len() == x,
                        self.height == new_height,
                        before.len() == new_height,
                        mid == resized_cells(g, ow, oh, ow, new_height as nat),
                        goal == resized_cells(g, ow, oh, new_width as nat, new_height as nat),
                        self.tiles@[i as int]@.subrange(0, ow as int) == mid[i as int],
                        forall|k: int|
                            ow <= k < x ==> #[trigger] self.tiles@[i as int]@[k] == None::<Tile>,
                        forall|j: int|
                            0 <= j < new_height && j != i ==> #[trigger] self.tiles@[j] == before[j],
                    decreases new_width - x,
                {
                    let ghost r0 = self.tiles@[i as int]@;
                    self.tiles[i].push(None);
                    assert(self.tiles@[i as int]@.subrange(0, ow as int) =~= r0.subrange(
                        0,
                        ow as int,
                    ));
                    x = x + 1;
                }
                assert forall|k: int| 0 <= k < new_width implies #[trigger] self.tiles@[i as int]@[k]
                    == goal[i as int][k] by {
                    if k < ow {
                        assert(self.tiles@[i as int]@[k] == self.tiles@[i as int]@.subrange(
                            0,
                            ow as int,
                        )[k]);
                    }
                }
            } else {
                self.tiles[i].truncate(new_width as usize);
                assert forall|k: int| 0 <= k < new_width implies #[trigger] self.tiles@[i as int]@[k]
                    == goal[i as int][k] by {
                    assert(self.tiles@[i as int]@[k] == mid[i as int][k]);
                }
            }
            assert(self.tiles@[i as int]@ =~= goal[i as int]);
            i = i + 1;
        }
        self.width = new_width;
        assert(self@ =~= goal);
    }

    fn duplicate(&self) -> (r: Self)
        requires
            self.inv(),
        ensures
            r.inv(),
            r.width == self.width,
            r.height == self.height,
            r@ == self@,
    {
        let mut tiles: Vec<Vec<Option<Tile>>> = Vec::new();
        let mut y: usize = 0;
        while y < self.tiles.len()
            invariant
                self.inv(),
                y <= self.tiles@.len(),
                tiles@.len() == y,
                forall|j: int| 0 <= j < y ==> #[trigger] tiles@[j]@ == self@[j],
            decreases self.tiles@.len() - y,
        {
            let mut row: Vec<Option<Tile>> = Vec::new();
            let mut x: usize = 0;
            while x < self.tiles[y].len()
                invariant
                    y < self.tiles@.len(),
                    x <= self.tiles@[y as int]@.len(),
                    row@ == self.tiles@[y as int]@.subrange(0, x as int),
                decreases self.tiles@[y as int]@.len() - x,
            {
                row.push(self.tiles[y][x]);
                x = x + 1;
                assert(row@ =~= self.tiles@[y as int]@.subrange(0, x as int));
            }
            assert(row@ =~= self.tiles@[y as int]@);
            tiles.push(row);
            y = y + 1;
        }
        let r = LayerContent { width: self.width, height: self.height, tiles };
        assert(r@ =~= self@);
        r
    }

    fn get_tile(&self, x: u16, y: u16) -> (r: Option<Tile>)
        requires
            self.inv(),
            x < self.width,
            y < self.height,
        ensures
            r == self@[y as int][x as int],
    {
        let x = x as usize;
        let y = y as usize;
        assert(self.tiles@[y as int]@ == self@[y as int]);
        self.tiles[y][x]
    }
}

} // verus!
