//! The occupancy map: which building, if any, stands on each tile of a
//! fixed-size grid.

use crate::components::Identity;
use vstd::prelude::*;

verus! {

/// Whether tile `(cx, cy)` lies in the footprint `size` anchored at `(x, y)`.
pub open spec fn covers(x: int, y: int, size: (int, int), cx: int, cy: int) -> bool {
    x <= cx < x + size.0 && y <= cy < y + size.1
}

/// The mathematical content of a [`TileMap`]: its dimensions and the
/// occupied tiles, each with the building standing on it.
pub struct TileGrid {
    pub width: nat,
    pub height: nat,
    pub occupants: Map<(int, int), Identity>,
}

impl TileGrid {
    /// A grid of the given dimensions with no tile occupied.
    pub open spec fn empty(width: nat, height: nat) -> TileGrid {
        TileGrid { width, height, occupants: Map::empty() }
    }

    pub open spec fn in_bounds(self, x: int, y: int) -> bool {
        0 <= x < self.width && 0 <= y < self.height
    }

    /// Every occupied tile lies on the grid.
    pub open spec fn wf(self) -> bool {
        forall|c: (int, int)| #[trigger] self.occupants.contains_key(c) ==> self.in_bounds(c.0, c.1)
    }

    /// Index of tile `(x, y)` in row-major order.
    pub open spec fn tile_idx(self, x: int, y: int) -> int {
        y * self.width + x
    }

    /// The building on tile `(x, y)`, if the tile is on the grid and occupied.
    pub open spec fn entity_at(self, x: int, y: int) -> Option<Identity> {
        if self.occupants.contains_key((x, y)) {
            Some(self.occupants[(x, y)])
        } else {
            None
        }
    }

    /// The footprint covers at least one tile and lies wholly on the grid.
    pub open spec fn fits(self, x: int, y: int, size: (int, int)) -> bool {
        &&& 0 < size.0
        &&& 0 < size.1
        &&& 0 <= x
        &&& 0 <= y
        &&& x + size.0 <= self.width
        &&& y + size.1 <= self.height
    }

    /// The footprint fits and none of its tiles is occupied.
    pub open spec fn can_place(self, x: int, y: int, size: (int, int)) -> bool {
        &&& self.fits(x, y, size)
        &&& forall|cx: int, cy: int|
            covers(x, y, size, cx, cy) ==> !#[trigger] self.occupants.contains_key((cx, cy))
    }

    /// The grid with every tile of the footprint given to `entity`.
    pub open spec fn placed(self, x: int, y: int, entity: Identity, size: (int, int)) -> TileGrid {
        TileGrid {
            width: self.width,
            height: self.height,
            occupants: Map::new(
                |c: (int, int)| covers(x, y, size, c.0, c.1) || self.occupants.contains_key(c),
                |c: (int, int)|
                    if covers(x, y, size, c.0, c.1) {
                        entity
                    } else {
                        self.occupants[c]
                    },
            ),
        }
    }

    /// What [`TileMap::place`] makes of the grid: the footprint is written
    /// where it can be placed, and nothing changes where it cannot.
    pub open spec fn place(self, x: int, y: int, entity: Identity, size: (int, int)) -> TileGrid {
        if self.can_place(x, y, size) {
            self.placed(x, y, entity, size)
        } else {
            self
        }
    }

    /// The grid with every tile of `entity` freed.
    pub open spec fn removed(self, entity: Identity) -> TileGrid {
        TileGrid {
            width: self.width,
            height: self.height,
            occupants: Map::new(
                |c: (int, int)| self.occupants.contains_key(c) && self.occupants[c] != entity,
                |c: (int, int)| self.occupants[c],
            ),
        }
    }
}

/// A tile inside a `width` by `height` grid has a row-major index inside
/// `width * height`.
pub proof fn lemma_tile_idx_in_range(width: int, height: int, x: int, y: int)
    requires
        0 <= x < width,
        0 <= y < height,
    ensures
        0 <= y * width <= y * width + x < width * height,
{
    assert(0 <= y * width) by (nonlinear_arith)
        requires
            0 <= y,
            0 <= width,
    ;
    assert((y + 1) * width <= height * width) by (nonlinear_arith)
        requires
            y + 1 <= height,
            0 <= width,
    ;
    assert((y + 1) * width == y * width + width) by (nonlinear_arith);
    assert(height * width == width * height) by (nonlinear_arith);
}

/// Two tiles of one grid with the same row-major index are the same tile.
pub proof fn lemma_tile_idx_injective(width: int, x1: int, y1: int, x2: int, y2: int)
    requires
        0 <= x1 < width,
        0 <= x2 < width,
        y1 * width + x1 == y2 * width + x2,
    ensures
        x1 == x2,
        y1 == y2,
{
    if y1 < y2 {
        assert((y1 + 1) * width <= y2 * width) by (nonlinear_arith)
            requires
                y1 + 1 <= y2,
                0 <= width,
        ;
        assert((y1 + 1) * width == y1 * width + width) by (nonlinear_arith);
    } else if y2 < y1 {
        assert((y2 + 1) * width <= y1 * width) by (nonlinear_arith)
            requires
                y2 + 1 <= y1,
                0 <= width,
        ;
        assert((y2 + 1) * width == y2 * width + width) by (nonlinear_arith);
    }
}

/// A fixed-size grid of tiles, each free or occupied by one building.
#[derive(Debug, Clone, PartialEq, Eq)]
pub struct TileMap {
    width: usize,
    height: usize,
    tiles: Vec<Option<Identity>>,
}

impl View for TileMap {
    type V = TileGrid;

    closed spec fn view(&self) -> TileGrid {
        TileGrid {
            width: self.width as nat,
            height: self.height as nat,
            occupants: Map::new(
                |c: (int, int)|
                    0 <= c.0 < self.width && 0 <= c.1 < self.height && self.tiles@[c.1 * self.width
                        + c.0] is Some,
                |c: (int, int)| self.tiles@[c.1 * self.width + c.0]->0,
            ),
        }
    }
}

impl TileMap {
    /// The map holds one entry per tile.
    pub closed spec fn wf(&self) -> bool {
        self.tiles.len() == self.width * self.height
    }

    /// The occupied tiles of any map lie on its grid.
    pub proof fn lemma_view_wf(&self)
        ensures
            self@.wf(),
    {
    }

    /// An empty map of `width` by `height` tiles.
    pub fn new(width: usize, height: usize) -> (map: Self)
        requires
            width * height <= usize::MAX,
        ensures
            map.wf(),
            map@ == TileGrid::empty(width as nat, height as nat),
    {
        let count: usize = width * height;
        let mut tiles: Vec<Option<Identity>> = Vec::new();
        let mut filled: usize = 0;
        while filled < count
            invariant
                filled <= count,
                tiles.len() == filled,
                forall|i: int| 0 <= i < filled ==> tiles@[i] is None,
            decreases count - filled,
        {
            tiles.push(None);
            filled = filled + 1;
        }
        let map = TileMap { width, height, tiles };
        proof {
            assert forall|c: (int, int)| !map@.occupants.contains_key(c) by {
                if 0 <= c.0 < width && 0 <= c.1 < height {
                    lemma_tile_idx_in_range(width as int, height as int, c.0, c.1);
                }
            }
            assert(map@.occupants =~= Map::<(int, int), Identity>::empty());
        }
        map
    }

    /// Number of tiles in a row.
    pub fn width(&self) -> (width: usize)
        ensures
            width == self@.width,
    {
        self.width
    }

    /// Number of rows.
    pub fn height(&self) -> (height: usize)
        ensures
            height == self@.height,
    {
        self.height
    }

    /// Row-major index of tile `(x, y)`, or `None` when the tile is off the
    /// grid.
    pub fn get_tile_idx(&self, x: usize, y: usize) -> (idx: Option<usize>)
        requires
            self.wf(),
        ensures
            idx == (if self@.in_bounds(x as int, y as int) {
                Some(self@.tile_idx(x as int, y as int) as usize)
            } else {
                None
            }),
            self@.in_bounds(x as int, y as int) ==> self@.tile_idx(x as int, y as int)
                < self@.width * self@.height <= usize::MAX,
    {
        if x < self.width && y < self.height {
            proof {
                lemma_tile_idx_in_range(self.width as int, self.height as int, x as int, y as int);
            }
            Some(y * self.width + x)
        } else {
            None
        }
    }

    /// The building on tile `(x, y)`; `None` when the tile is free or off the
    /// grid.
    pub fn get_entity_at(&self, x: usize, y: usize) -> (entity: Option<Identity>)
        requires
            self.wf(),
        ensures
            entity == self@.entity_at(x as int, y as int),
    {
        match self.get_tile_idx(x, y) {
            Some(idx) => self.tiles[idx],
            None => None,
        }
    }

    /// Whether a footprint of `size` anchored at `(x, y)` lies on the grid,
    /// covers at least one tile and touches no occupied tile. Reads only.
    pub fn can_place(&self, x: usize, y: usize, size: (usize, usize)) -> (free: bool)
        requires
            self.wf(),
        ensures
            free == self@.can_place(x as int, y as int, (size.0 as int, size.1 as int)),
    {
        let ghost area = (size.0 as int, size.1 as int);
        if size.0 == 0 || size.1 == 0 {
            return false;
        }
        if size.0 > self.width || x > self.width - size.0 {
            return false;
        }
        if size.1 > self.height || y > self.height - size.1 {
            return false;
        }
        let mut dy: usize = 0;
        while dy < size.1
            invariant
                self.wf(),
                area == (size.0 as int, size.1 as int),
                self@.fits(x as int, y as int, area),
                dy <= size.1,
                forall|cx: int, cy: int|
                    covers(x as int, y as int, area, cx, cy) && cy < y + dy
                        ==> !#[trigger] self@.occupants.contains_key((cx, cy)),
            decreases size.1 - dy,
        {
            let mut dx: usize = 0;
            while dx < size.0
                invariant
                    self.wf(),
                    area == (size.0 as int, size.1 as int),
                    self@.fits(x as int, y as int, area),
                    dy < size.1,
                    dx <= size.0,
                    forall|cx: int, cy: int|
                        covers(x as int, y as int, area, cx, cy) && (cy < y + dy || (cy == y + dy
                            && cx < x + dx)) ==> !#[trigger] self@.occupants.contains_key((cx, cy)),
                decreases size.0 - dx,
            {
                match self.get_tile_idx(x + dx, y + dy) {
                    Some(idx) => {
                        if self.tiles[idx].is_some() {
                            assert(self@.occupants.contains_key((x + dx, y + dy)));
                            assert(covers(x as int, y as int, area, x + dx, y + dy));
                            return false;
                        }
                    },
                    None => {
                        return false;
                    },
                }
                dx = dx + 1;
            }
            dy = dy + 1;
        }
        true
    }

    /// Gives every tile of the footprint to `entity` if the footprint can be
    /// placed; otherwise leaves the map as it is.
    pub fn place(&mut self, x: usize, y: usize, entity: Identity, size: (usize, usize))
        requires
            old(self).wf(),
        ensures
            final(self).wf(),
            final(self)@ == old(self)@.place(
                x as int,
                y as int,
                entity,
                (size.0 as int, size.1 as int),
            ),
    {
        let ghost area = (size.0 as int, size.1 as int);
        let ghost before = *self;
        if !self.can_place(x, y, size) {
            return ;
        }
        let mut dy: usize = 0;
        while dy < size.1
            invariant
                self.wf(),
                before.wf(),
                self.width == before.width,
                self.height == before.height,
                area == (size.0 as int, size.1 as int),
                before@.can_place(x as int, y as int, area),
                dy <= size.1,
                forall|cx: int, cy: int|
                    0 <= cx < self.width && 0 <= cy < self.height ==> #[trigger] self.tiles@[cy
                        * self.width + cx] == (if covers(x as int, y as int, area, cx, cy) && cy < y
                        + dy {
                        Some(entity)
                    } else {
                        before.tiles@[cy * self.width + cx]
                    }),
            decreases size.1 - dy,
        {
            let mut dx: usize = 0;
            while dx < size.0
                invariant
                    self.wf(),
                    before.wf(),
                    self.width == before.width,
                    self.height == before.height,
                    area == (size.0 as int, size.1 as int),
                    before@.can_place(x as int, y as int, area),
                    dy < size.1,
                    dx <= size.0,
                    forall|cx: int, cy: int|
                        0 <= cx < self.width && 0 <= cy < self.height ==> #[trigger] self.tiles@[cy
                            * self.width + cx] == (if covers(x as int, y as int, area, cx, cy) && (cy
                            < y + dy || (cy == y + dy && cx < x + dx)) {
                            Some(entity)
                        } else {
                            before.tiles@[cy * self.width + cx]
                        }),
                decreases size.0 - dx,
            {
                let ghost row = self.tiles@;
                if let Some(idx) = self.get_tile_idx(x + dx, y + dy) {
                    self.tiles[idx] = Some(entity);
                    proof {
                        assert forall|cx: int, cy: int|
                            0 <= cx < self.width && 0 <= cy < self.height implies #[trigger] self.tiles@[cy
                            * self.width + cx] == (if covers(x as int, y as int, area, cx, cy) && (cy
                            < y + dy || (cy == y + dy && cx < x + dx + 1)) {
                            Some(entity)
                        } else {
                            before.tiles@[cy * self.width + cx]
                        }) by {
                            lemma_tile_idx_in_range(self.width as int, self.height as int, cx, cy);
                            if cy * self.width + cx == idx {
                                lemma_tile_idx_injective(
                                    self.width as int,
                                    cx,
                                    cy,
                                    x + dx,
                                    y + dy,
                                );
                            } else {
                                assert(self.tiles@[cy * self.width + cx] == row[cy * self.width
                                    + cx]);
                            }
                        }
                    }
                }
                dx = dx + 1;
            }
            dy = dy + 1;
        }
        proof {
            let target = before@.placed(x as int, y as int, entity, area);
            assert forall|c: (int, int)|
                self@.occupants.contains_key(c) <==> target.occupants.contains_key(c) by {
                if 0 <= c.0 < self.width && 0 <= c.1 < self.height {
                    assert(self.tiles@[c.1 * self.width + c.0] == (if covers(
                        x as int,
                        y as int,
                        area,
                        c.0,
                        c.1,
                    ) {
                        Some(entity)
                    } else {
                        before.tiles@[c.1 * self.width + c.0]
                    }));
                }
            }
            assert forall|c: (int, int)| self@.occupants.contains_key(c) implies self@.occupants[c]
                == target.occupants[c] by {
                assert(self.tiles@[c.1 * self.width + c.0] == (if covers(
                    x as int,
                    y as int,
                    area,
                    c.0,
                    c.1,
                ) {
                    Some(entity)
                } else {
                    before.tiles@[c.1 * self.width + c.0]
                }));
            }
            assert(self@.occupants =~= target.occupants);
        }
    }

    /// Frees every tile that `entity` occupies.
    pub fn remove(&mut self, entity: Identity)
        requires
            old(self).wf(),
        ensures
            final(self).wf(),
            final(self)@ == old(self)@.removed(entity),
    {
        let ghost before = *self;
        let mut idx: usize = 0;
        while idx < self.tiles.len()
            invariant
                self.wf(),
                self.width == before.width,
                self.height == before.height,
                self.tiles.len() == before.tiles.len(),
                idx <= self.tiles.len(),
                forall|i: int|
                    0 <= i < self.tiles.len() ==> #[trigger] self.tiles@[i] == (if i < idx
                        && before.tiles@[i] == Some(entity) {
                        None
                    } else {
                        before.tiles@[i]
                    }),
            decreases self.tiles.len() - idx,
        {
            let occupied: bool = match self.tiles[idx] {
                Some(occupant) => occupant.0 == entity.0,
                None => false,
            };
            if occupied {
                self.tiles[idx] = None;
            }
            idx = idx + 1;
        }
        proof {
            let target = before@.removed(entity);
            assert forall|c: (int, int)|
                self@.occupants.contains_key(c) <==> target.occupants.contains_key(c) by {
                if 0 <= c.0 < self.width && 0 <= c.1 < self.height {
                    lemma_tile_idx_in_range(self.width as int, self.height as int, c.0, c.1);
                }
            }
            assert forall|c: (int, int)| self@.occupants.contains_key(c) implies self@.occupants[c]
                == target.occupants[c] by {
                lemma_tile_idx_in_range(self.width as int, self.height as int, c.0, c.1);
            }
            assert(self@.occupants =~= target.occupants);
        }
    }
}

} // verus!
