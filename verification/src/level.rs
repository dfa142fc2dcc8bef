//! The brick grid of a level and what becomes of a brick that is hit.

use vstd::prelude::*;

use crate::collision::{circle_overlaps, circle_rectangle_collision, penetration};
use crate::entity::{Color, Drawable, EntityKind, Sprite};
use crate::error::GameError;
use crate::math::{dominant_direction, IntVec2, Vector2};
use crate::{ARENA_HEIGHT, ARENA_WIDTH};

verus! {

/// One of the four compass directions, used to tell which way a collision
/// normal points.
#[derive(Clone, Copy, Debug, PartialEq, Eq, Structural)]
pub enum Direction {
    Up,
    Down,
    Left,
    Right,
}

/// The outcome of testing a circle against a rectangle.
#[derive(Clone, Copy, Debug, PartialEq, Eq, Structural)]
pub enum CollisionResult {
    /// The circle reaches into the rectangle. Carries the compass direction
    /// of the penetration vector and the vector itself, which leads from
    /// the circle's centre to the nearest point of the rectangle.
    Hit(Direction, Vector2),
    /// The circle does not reach into the rectangle.
    Miss,
}

/// What a collision pass over a level reports of the brick it struck.
#[derive(Clone, Copy, Debug, PartialEq, Eq, Structural)]
pub struct BrickHit {
    /// The row of the brick's cell.
    pub row: usize,
    /// The column of the brick's cell.
    pub col: usize,
    /// The compass direction of the penetration vector.
    pub direction: Direction,
    /// The vector from the circle's centre to the nearest point of the
    /// brick.
    pub penetration: Vector2,
}

/// What a [`Brick`] is, as plain values.
pub struct BrickModel {
    /// The corner of least coordinates.
    pub position: Vector2,
    /// The extent along each axis.
    pub size: Vector2,
    /// Whether a hit destroys the brick.
    pub destructible: bool,
    /// The tint the brick is drawn with.
    pub color: Color,
    /// Whether the brick has been destroyed.
    pub destroyed: bool,
}

impl BrickModel {
    /// Only a destructible brick can have been destroyed.
    pub open spec fn wf(self) -> bool {
        self.destroyed ==> self.destructible
    }

    /// The brick after an attempt to destroy it: a destructible brick is
    /// destroyed, a solid one stays as it is.
    pub open spec fn struck(self) -> BrickModel {
        BrickModel { destroyed: self.destroyed || self.destructible, ..self }
    }

    /// The picture of the brick: solid bricks have one of their own.
    pub open spec fn sprite(self) -> Sprite {
        if self.destructible {
            Sprite::Block
        } else {
            Sprite::BlockSolid
        }
    }

    /// What a renderer is handed for the brick.
    pub open spec fn drawable(self) -> Drawable {
        Drawable {
            kind: EntityKind::Brick,
            sprite: self.sprite(),
            position: self.position,
            size: self.size,
            color: self.color,
        }
    }
}

/// One brick of a level.
#[derive(Clone, Copy, Debug)]
pub struct Brick {
    position: Vector2,
    size: Vector2,
    destructible: bool,
    color: Color,
    destroyed: bool,
}

impl View for Brick {
    type V = BrickModel;

    closed spec fn view(&self) -> BrickModel {
        BrickModel {
            position: self.position,
            size: self.size,
            destructible: self.destructible,
            color: self.color,
            destroyed: self.destroyed,
        }
    }
}

impl Brick {
    /// Marks the brick destroyed if it is destructible; a solid brick is
    /// left as it is. A destroyed brick stays destroyed.
    pub fn destroy(&mut self)
        ensures
            final(self)@ == old(self)@.struck(),
    {
        if self.destructible {
            self.destroyed = true;
        }
    }

    /// Whether the brick has been destroyed.
    pub fn is_destroyed(&self) -> (b: bool)
        ensures
            b == self@.destroyed,
    {
        self.destroyed
    }

    /// Whether a hit destroys the brick.
    pub fn is_destructible(&self) -> (b: bool)
        ensures
            b == self@.destructible,
    {
        self.destructible
    }

    /// Tests the circle of the given centre and radius against the brick.
    pub fn collides_with(&self, position: Vector2, radius: i64) -> (r: CollisionResult)
        ensures
            match r {
                CollisionResult::Hit(direction, delta) => {
                    &&& circle_overlaps(position@, radius as int, self@.position@, self@.size@)
                    &&& delta@ == penetration(position@, self@.position@, self@.size@)
                    &&& direction == dominant_direction(delta@)
                },
                CollisionResult::Miss => !circle_overlaps(
                    position@,
                    radius as int,
                    self@.position@,
                    self@.size@,
                ),
            },
    {
        circle_rectangle_collision(position, radius, self.position, self.size)
    }

    /// The picture of the brick.
    pub fn get_sprite(&self) -> (sprite: Sprite)
        ensures
            sprite == self@.sprite(),
    {
        if self.destructible {
            Sprite::Block
        } else {
            Sprite::BlockSolid
        }
    }

    /// The corner of least coordinates.
    pub fn get_position(&self) -> (position: Vector2)
        ensures
            position == self@.position,
    {
        self.position
    }

    /// The extent along each axis.
    pub fn get_size(&self) -> (size: Vector2)
        ensures
            size == self@.size,
    {
        self.size
    }

    /// The tint the brick is drawn with.
    pub fn get_color(&self) -> (color: Color)
        ensures
            color == self@.color,
    {
        self.color
    }

    /// What a renderer is handed for the brick.
    pub fn drawable(&self) -> (d: Drawable)
        ensures
            d == self@.drawable(),
    {
        Drawable {
            kind: EntityKind::Brick,
            sprite: self.get_sprite(),
            position: self.position,
            size: self.size,
            color: self.color,
        }
    }
}

/// Whether a cell value is one that the level format knows: `0` for an
/// empty cell, `1` for a solid brick, `2` to `5` for destructible bricks
/// of four colours.
pub open spec fn known_cell(cell: u32) -> bool {
    cell <= 5
}

/// The tint of the brick that a cell value stands for.
pub open spec fn cell_color(cell: u32) -> Color {
    if cell == 1 {
        Color { red: 800, green: 800, blue: 700 }
    } else if cell == 2 {
        Color { red: 200, green: 600, blue: 1000 }
    } else if cell == 3 {
        Color { red: 0, green: 700, blue: 0 }
    } else if cell == 4 {
        Color { red: 800, green: 800, blue: 400 }
    } else {
        Color { red: 1000, green: 500, blue: 0 }
    }
}

/// The index of the cell `(row, col)` in a grid of the given width, its
/// cells laid out row after row.
pub open spec fn cell_index(row: int, col: int, width: int) -> int {
    row * width + col
}

/// What a [`LevelData`] is, as plain values.
pub struct LevelGrid {
    /// The declared count by which the arena's width is divided.
    pub rows: int,
    /// The declared count by which half the arena's height is divided.
    pub cols: int,
    /// The cell values, row by row.
    pub map: Seq<Seq<u32>>,
}

impl LevelGrid {
    /// The number of rows of cells.
    pub open spec fn height(self) -> int {
        self.map.len() as int
    }

    /// The number of cells in a row: that of the first row.
    pub open spec fn width(self) -> int {
        if self.map.len() == 0 {
            0
        } else {
            self.map[0].len() as int
        }
    }

    /// Whether `(row, col)` names a cell of the grid.
    pub open spec fn in_grid(self, row: int, col: int) -> bool {
        0 <= row < self.height() && 0 <= col < self.width()
    }

    /// Whether all rows are as long as the first.
    pub open spec fn rectangular(self) -> bool {
        forall|i: int| 0 <= i < self.map.len() ==> (#[trigger] self.map[i]).len() == self.width()
    }

    /// Whether every cell holds a known value.
    pub open spec fn known_cells(self) -> bool {
        forall|i: int, j: int|
            0 <= i < self.map.len() && 0 <= j < self.map[i].len() ==> known_cell(
                #[trigger] self.map[i][j],
            )
    }

    /// The width of a brick: the arena's width divided by the declared
    /// row count.
    pub open spec fn unit_width(self) -> int {
        ARENA_WIDTH as int / self.rows
    }

    /// The height of a brick: half the arena's height divided by the
    /// declared column count.
    pub open spec fn unit_height(self) -> int {
        (ARENA_HEIGHT as int / 2) / self.cols
    }

    /// Whether the far edges of the grid are coordinates that a brick can
    /// hold.
    pub open spec fn placeable(self) -> bool {
        &&& self.unit_width() * self.width() <= i64::MAX
        &&& self.unit_height() * self.height() <= i64::MAX
    }

    /// Whether a level can be built from the description.
    pub open spec fn well_formed(self) -> bool {
        &&& self.rows > 0
        &&& self.cols > 0
        &&& self.rectangular()
        &&& self.known_cells()
        &&& self.placeable()
    }

    /// The brick that the cell `(row, col)` stands for, if it stands for
    /// one: none for the value `0`, a solid brick for `1`, a destructible
    /// one for any other value.
    pub open spec fn brick(self, row: int, col: int) -> Option<BrickModel> {
        let cell = self.map[row][col];
        if cell == 0 {
            None
        } else {
            Some(
                BrickModel {
                    position: Vector2 {
                        x: (self.unit_width() * col) as i64,
                        y: (self.unit_height() * row) as i64,
                    },
                    size: Vector2 { x: self.unit_width() as i64, y: self.unit_height() as i64 },
                    destructible: cell != 1,
                    color: cell_color(cell),
                    destroyed: false,
                },
            )
        }
    }
}

/// Bricks tile the upper half of the arena: in a grid no wider than the
/// declared row count and no higher than the declared column count,
/// every brick lies between the left and the right wall and between the
/// top wall and the middle of the arena, and the brick of the next cell
/// of a row begins where the brick of a cell ends.
pub proof fn bricks_tile_the_upper_half(grid: LevelGrid, row: int, col: int)
    requires
        grid.well_formed(),
        grid.width() <= grid.rows,
        grid.height() <= grid.cols,
        grid.in_grid(row, col),
        grid.brick(row, col) is Some,
    ensures
        ({
            let brick = grid.brick(row, col).unwrap();
            &&& 0 <= brick.position.x
            &&& brick.position.x + brick.size.x <= ARENA_WIDTH
            &&& 0 <= brick.position.y
            &&& brick.position.y + brick.size.y <= ARENA_HEIGHT / 2
            &&& brick.size.x == grid.unit_width()
            &&& brick.size.y == grid.unit_height()
            &&& brick.position.x == col * grid.unit_width()
            &&& brick.position.y == row * grid.unit_height()
        }),
{
    let unit_w = grid.unit_width();
    let unit_h = grid.unit_height();
    assert(0 <= unit_w && unit_w * grid.rows <= ARENA_WIDTH && 0 <= unit_h && unit_h * grid.cols
        <= ARENA_HEIGHT / 2) by (nonlinear_arith)
        requires
            grid.rows > 0,
            grid.cols > 0,
            unit_w == ARENA_WIDTH as int / grid.rows,
            unit_h == (ARENA_HEIGHT as int / 2) / grid.cols,
    ;
    assert(0 <= unit_w * col && unit_w * col + unit_w <= unit_w * grid.rows && unit_w * col
        == col * unit_w) by (nonlinear_arith)
        requires
            0 <= unit_w,
            0 <= col < grid.rows,
    ;
    assert(0 <= unit_h * row && unit_h * row + unit_h <= unit_h * grid.cols && unit_h * row
        == row * unit_h) by (nonlinear_arith)
        requires
            0 <= unit_h,
            0 <= row < grid.cols,
    ;
}

/// The description from which a level is built: a grid of cell values and
/// two declared counts that fix the size of a brick.
#[derive(Clone, Debug)]
pub struct LevelData {
    pub rows: u32,
    pub cols: u32,
    pub map: Vec<Vec<u32>>,
}

impl View for LevelData {
    type V = LevelGrid;

    open spec fn view(&self) -> LevelGrid {
        LevelGrid {
            rows: self.rows as int,
            cols: self.cols as int,
            map: Seq::new(self.map@.len(), |i: int| self.map@[i]@),
        }
    }
}

/// What a [`Level`] is, as plain values.
pub struct LevelModel {
    /// The number of rows of cells.
    pub height: int,
    /// The number of cells in a row.
    pub width: int,
    /// The cells, row after row; a cell holds a brick or nothing.
    pub cells: Seq<Option<BrickModel>>,
}

impl LevelModel {
    /// The grid is as large as its two sides say, and every brick in it
    /// is well formed.
    pub open spec fn wf(self) -> bool {
        &&& 0 <= self.height
        &&& 0 <= self.width
        &&& self.cells.len() == self.height * self.width
        &&& forall|k: int|
            0 <= k < self.cells.len() ==> ((#[trigger] self.cells[k]) matches Some(brick)
                ==> brick.wf())
    }

    /// Whether `(row, col)` names a cell of the grid.
    pub open spec fn in_grid(self, row: int, col: int) -> bool {
        0 <= row < self.height && 0 <= col < self.width
    }

    /// The brick at `(row, col)`, if that is a cell of the grid and holds
    /// one.
    pub open spec fn brick_at(self, row: int, col: int) -> Option<BrickModel> {
        if self.in_grid(row, col) {
            self.cells[cell_index(row, col, self.width)]
        } else {
            None
        }
    }
}

/// What a renderer is handed for a cell: the description of its brick,
/// unless the cell is empty or the brick destroyed.
pub open spec fn live_drawable(cell: Option<BrickModel>) -> Option<Drawable> {
    match cell {
        Some(brick) => if brick.destroyed {
            None
        } else {
            Some(brick.drawable())
        },
        None => None,
    }
}

/// [`live_drawable`] as a function value.
pub open spec fn live_drawable_of() -> spec_fn(Option<BrickModel>) -> Option<Drawable> {
    |cell: Option<BrickModel>| live_drawable(cell)
}

impl LevelModel {
    /// The descriptions of the bricks that are not destroyed, in the order
    /// of their cells.
    pub open spec fn live_drawables(self) -> Seq<Drawable> {
        self.cells.filter_map(live_drawable_of())
    }

    /// Whether the cell of index `k` holds a brick that is not destroyed
    /// and that the circle reaches into.
    pub open spec fn struck_at(self, k: int, center: IntVec2, radius: int) -> bool {
        &&& 0 <= k < self.cells.len()
        &&& self.cells[k] matches Some(brick)
        &&& !brick.destroyed
        &&& circle_overlaps(center, radius, brick.position@, brick.size@)
    }

    /// The least index from `from` on of a cell that is struck, or the
    /// number of cells if there is none.
    pub open spec fn first_struck_from(self, from: int, center: IntVec2, radius: int) -> int
        decreases self.cells.len() - from,
    {
        if from < 0 || from >= self.cells.len() {
            self.cells.len() as int
        } else if self.struck_at(from, center, radius) {
            from
        } else {
            self.first_struck_from(from + 1, center, radius)
        }
    }

    /// The least index of a cell that is struck, or the number of cells if
    /// the circle strikes no brick.
    pub open spec fn first_struck(self, center: IntVec2, radius: int) -> int {
        self.first_struck_from(0, center, radius)
    }

    /// The level after one collision pass: the first brick that the circle
    /// strikes is destroyed if it is destructible, and nothing else
    /// changes.
    pub open spec fn after_collision(self, center: IntVec2, radius: int) -> LevelModel {
        let k = self.first_struck(center, radius);
        if 0 <= k < self.cells.len() {
            LevelModel { cells: self.cells.update(k, Some(self.cells[k].unwrap().struck())), ..self }
        } else {
            self
        }
    }

    /// The level after a series of collision passes, each given by the
    /// centre and the radius of its circle.
    pub open spec fn after_collisions(self, passes: Seq<(IntVec2, int)>) -> LevelModel
        decreases passes.len(),
    {
        if passes.len() == 0 {
            self
        } else {
            self.after_collisions(passes.drop_last()).after_collision(
                passes.last().0,
                passes.last().1,
            )
        }
    }

    /// Whether `hit` is the true report of a collision pass: it names the
    /// cell of the first brick struck, with the penetration vector and
    /// that vector's dominant direction, or it is nothing where no brick
    /// is struck.
    pub open spec fn reports(self, center: IntVec2, radius: int, hit: Option<BrickHit>) -> bool {
        let k = self.first_struck(center, radius);
        match hit {
            Some(found) => {
                &&& 0 <= k < self.cells.len()
                &&& self.cells[k] is Some
                &&& self.in_grid(found.row as int, found.col as int)
                &&& cell_index(found.row as int, found.col as int, self.width) == k
                &&& found.penetration@ == penetration(
                    center,
                    self.cells[k].unwrap().position@,
                    self.cells[k].unwrap().size@,
                )
                &&& found.direction == dominant_direction(found.penetration@)
            },
            None => k == self.cells.len(),
        }
    }
}

/// No cell between `from` and `to` being struck, the search for the first
/// struck cell from `from` on finds what the search from `to` on finds.
proof fn lemma_first_struck_skips(
    level: LevelModel,
    from: int,
    to: int,
    center: IntVec2,
    radius: int,
)
    requires
        0 <= from <= to <= level.cells.len(),
        forall|k: int| from <= k < to ==> !level.struck_at(k, center, radius),
    ensures
        level.first_struck_from(from, center, radius) == level.first_struck_from(
            to,
            center,
            radius,
        ),
    decreases to - from,
{
    if from < to {
        lemma_first_struck_skips(level, from + 1, to, center, radius);
    }
}

/// The first struck cell is struck, and no cell before it is; where the
/// search finds none, no cell is struck.
pub proof fn first_struck_is_least(level: LevelModel, center: IntVec2, radius: int)
    ensures
        0 <= level.first_struck(center, radius) <= level.cells.len(),
        level.first_struck(center, radius) < level.cells.len() ==> level.struck_at(
            level.first_struck(center, radius),
            center,
            radius,
        ),
        forall|k: int|
            0 <= k < level.first_struck(center, radius) ==> !level.struck_at(k, center, radius),
{
    lemma_first_struck_from_is_least(level, 0, center, radius);
}

/// [`first_struck_is_least`] for a search that starts at `from`.
proof fn lemma_first_struck_from_is_least(
    level: LevelModel,
    from: int,
    center: IntVec2,
    radius: int,
)
    requires
        0 <= from <= level.cells.len(),
    ensures
        from <= level.first_struck_from(from, center, radius) <= level.cells.len(),
        level.first_struck_from(from, center, radius) < level.cells.len() ==> level.struck_at(
            level.first_struck_from(from, center, radius),
            center,
            radius,
        ),
        forall|k: int|
            from <= k < level.first_struck_from(from, center, radius) ==> !level.struck_at(
                k,
                center,
                radius,
            ),
    decreases level.cells.len() - from,
{
    if from < level.cells.len() && !level.struck_at(from, center, radius) {
        lemma_first_struck_from_is_least(level, from + 1, center, radius);
    }
}

/// One collision pass keeps the grid's size and the place, extent, kind
/// and tint of every brick, keeps the level well formed, and never
/// brings a destroyed brick back.
pub proof fn collision_pass_keeps_grid(level: LevelModel, center: IntVec2, radius: int)
    requires
        level.wf(),
    ensures
        ({
            let next = level.after_collision(center, radius);
            &&& next.wf()
            &&& next.height == level.height
            &&& next.width == level.width
            &&& next.cells.len() == level.cells.len()
            &&& forall|k: int|
                0 <= k < level.cells.len() ==> match (#[trigger] level.cells[k]) {
                    Some(brick) => next.cells[k] matches Some(later) && later.position
                        == brick.position && later.size == brick.size && later.destructible
                        == brick.destructible && later.color == brick.color && (brick.destroyed
                        ==> later == brick),
                    None => next.cells[k] is None,
                }
        }),
{
    first_struck_is_least(level, center, radius);
}

/// Destruction is one-way: a brick that is destroyed stays exactly as it
/// is through any series of collision passes.
pub proof fn destruction_is_permanent(level: LevelModel, passes: Seq<(IntVec2, int)>, k: int)
    requires
        level.wf(),
        0 <= k < level.cells.len(),
        level.cells[k] matches Some(brick) && brick.destroyed,
    ensures
        level.after_collisions(passes).wf(),
        level.after_collisions(passes).cells.len() == level.cells.len(),
        level.after_collisions(passes).cells[k] == level.cells[k],
    decreases passes.len(),
{
    if passes.len() > 0 {
        destruction_is_permanent(level, passes.drop_last(), k);
        let before = level.after_collisions(passes.drop_last());
        collision_pass_keeps_grid(before, passes.last().0, passes.last().1);
    }
}

/// The grid of bricks of one level. Its size never changes after loading:
/// a destroyed brick stays in its cell.
#[derive(Debug)]
pub struct Level {
    cells: Vec<Option<Brick>>,
    height: usize,
    width: usize,
}

/// The plain value of a cell.
pub closed spec fn cell_model(cell: Option<Brick>) -> Option<BrickModel> {
    match cell {
        Some(brick) => Some(brick@),
        None => None,
    }
}

impl View for Level {
    type V = LevelModel;

    closed spec fn view(&self) -> LevelModel {
        LevelModel {
            height: self.height as int,
            width: self.width as int,
            cells: Seq::new(self.cells@.len(), |k: int| cell_model(self.cells@[k])),
        }
    }
}

/// A cell of a grid has an index below the number of cells, and the row
/// below a cell's row ends before the cell.
proof fn lemma_cell_index_in_range(row: int, col: int, height: int, width: int)
    by (nonlinear_arith)
    requires
        0 <= row < height,
        0 <= col < width,
    ensures
        0 <= cell_index(row, col, width) < height * width,
        row * width <= cell_index(row, col, width) < (row + 1) * width,
        (row + 1) * width == row * width + width,
        (row + 1) * width <= height * width,
{
}

impl Level {
    /// Whether the level is well formed: see [`LevelModel::wf`].
    pub open spec fn wf(&self) -> bool {
        self@.wf()
    }

    /// Builds the level that a description stands for.
    ///
    /// Every cell with a value other than `0` becomes one brick, placed by
    /// its row and column; the value `1` gives a solid brick, the values
    /// `2` to `5` destructible ones. A description with a declared count
    /// of zero, with rows of different lengths, with an unknown cell value
    /// or too large to be placed is refused.
    pub fn load(data: &LevelData) -> (r: Result<Level, GameError>)
        ensures
            match r {
                Ok(level) => {
                    &&& data@.well_formed()
                    &&& level.wf()
                    &&& level@.height == data@.height()
                    &&& level@.width == data@.width()
                    &&& forall|row: int, col: int|
                        data@.in_grid(row, col) ==> level@.brick_at(row, col)
                            == #[trigger] data@.brick(row, col)
                },
                Err(e) => !data@.well_formed() && e == GameError::MalformedLevel,
            },
    {
        if data.rows == 0 || data.cols == 0 {
            return Err(GameError::MalformedLevel);
        }
        let height: usize = data.map.len();
        let width: usize = if height == 0 {
            0
        } else {
            data.map[0].len()
        };
        let unit_w: u64 = ARENA_WIDTH as u64 / (data.rows as u64);
        let unit_h: u64 = (ARENA_HEIGHT as u64 / 2) / (data.cols as u64);
        assert(unit_w == data@.unit_width() && unit_h == data@.unit_height());
        assert(unit_w <= 1_024_000 && unit_h <= 384_000) by (nonlinear_arith)
            requires
                unit_w == 1_024_000int / (data.rows as int),
                unit_h == 384_000int / (data.cols as int),
                data.rows > 0,
                data.cols > 0,
        ;
        assert(unit_w * width <= 0x10_0000 * 0x1_0000_0000_0000_0000 && unit_h * height
            <= 0x10_0000 * 0x1_0000_0000_0000_0000) by (nonlinear_arith)
            requires
                unit_w <= 0x10_0000,
                unit_h <= 0x10_0000,
                width <= 0x1_0000_0000_0000_0000,
                height <= 0x1_0000_0000_0000_0000,
        ;
        let far_x: u128 = (unit_w as u128) * (width as u128);
        let far_y: u128 = (unit_h as u128) * (height as u128);
        if far_x > i64::MAX as u128 || far_y > i64::MAX as u128 {
            return Err(GameError::MalformedLevel);
        }
        let mut cells: Vec<Option<Brick>> = Vec::new();
        let mut i: usize = 0;
        while i < height
            invariant
                height == data.map@.len(),
                width == data@.width(),
                height == data@.height(),
                data.rows > 0,
                data.cols > 0,
                unit_w == data@.unit_width(),
                unit_h == data@.unit_height(),
                data@.placeable(),
                0 <= i <= height,
                cells@.len() == i * width,
                forall|a: int| 0 <= a < i ==> (#[trigger] data.map@[a])@.len() == width,
                forall|a: int, b: int|
                    0 <= a < i && 0 <= b < width ==> known_cell(#[trigger] data@.map[a][b]),
                forall|a: int, b: int|
                    0 <= a < i && 0 <= b < width ==> cell_model(
                        cells@[cell_index(a, b, width as int)],
                    ) == #[trigger] data@.brick(a, b),
                forall|k: int|
                    0 <= k < cells@.len() ==> ((#[trigger] cells@[k]) matches Some(brick)
                        ==> brick@.wf()),
            decreases height - i,
        {
            let row: &Vec<u32> = &data.map[i];
            assert(data@.map[i as int] == row@);
            if row.len() != width {
                assert(!data@.rectangular());
                return Err(GameError::MalformedLevel);
            }
            let ghost before = cells@;
            let mut j: usize = 0;
            while j < width
                invariant
                    height == data.map@.len(),
                    width == data@.width(),
                    height == data@.height(),
                    data.rows > 0,
                    data.cols > 0,
                    unit_w == data@.unit_width(),
                    unit_h == data@.unit_height(),
                    data@.placeable(),
                    0 <= i < height,
                    row@ == data@.map[i as int],
                    row@.len() == width,
                    0 <= j <= width,
                    before.len() == i * width,
                    cells@.len() == i * width + j,
                    forall|k: int| 0 <= k < before.len() ==> cells@[k] == before[k],
                    forall|b: int| 0 <= b < j ==> known_cell(#[trigger] row@[b]),
                    forall|b: int|
                        0 <= b < j ==> cell_model(cells@[cell_index(i as int, b, width as int)])
                            == #[trigger] data@.brick(i as int, b),
                    forall|k: int|
                        0 <= k < cells@.len() ==> ((#[trigger] cells@[k]) matches Some(brick)
                            ==> brick@.wf()),
                decreases width - j,
            {
                let cell: u32 = row[j];
                if cell > 5 {
                    assert(!known_cell(data@.map[i as int][j as int]));
                    assert(!data@.known_cells());
                    return Err(GameError::MalformedLevel);
                }
                proof {
                    lemma_brick_placement(
                        unit_w as int,
                        unit_h as int,
                        i as int,
                        j as int,
                        height as int,
                        width as int,
                    );
                }
                let entry: Option<Brick> = if cell == 0 {
                    None
                } else {
                    let x: u128 = (unit_w as u128) * (j as u128);
                    let y: u128 = (unit_h as u128) * (i as u128);
                    Some(
                        Brick {
                            position: Vector2 { x: x as i64, y: y as i64 },
                            size: Vector2 { x: unit_w as i64, y: unit_h as i64 },
                            destructible: cell != 1,
                            color: color_of_cell(cell),
                            destroyed: false,
                        },
                    )
                };
                assert(cell_model(entry) == data@.brick(i as int, j as int));
                let ghost grown = cells@;
                cells.push(entry);
                assert(cells@[cell_index(i as int, j as int, width as int)] == entry);
                assert forall|b: int| 0 <= b < j + 1 implies cell_model(
                    cells@[cell_index(i as int, b, width as int)],
                ) == #[trigger] data@.brick(i as int, b) by {
                    if b < j {
                        assert(cells@[cell_index(i as int, b, width as int)] == grown[cell_index(
                            i as int,
                            b,
                            width as int,
                        )]);
                    }
                }
                j = j + 1;
            }
            proof {
                assert((i + 1) * width == i * width + width) by (nonlinear_arith);
                assert forall|a: int, b: int| 0 <= a < i + 1 && 0 <= b < width implies cell_model(
                    cells@[cell_index(a, b, width as int)],
                ) == #[trigger] data@.brick(a, b) by {
                    if a < i {
                        lemma_cell_index_in_range(a, b, i as int, width as int);
                        assert(cells@[cell_index(a, b, width as int)] == before[cell_index(
                            a,
                            b,
                            width as int,
                        )]);
                    }
                }
                assert forall|a: int, b: int| 0 <= a < i + 1 && 0 <= b < width implies known_cell(
                    #[trigger] data@.map[a][b],
                ) by {
                    if a == i {
                        assert(known_cell(row@[b]));
                    }
                }
            }
            i = i + 1;
        }
        let level = Level { cells, height, width };
        proof {
            assert(level@.cells.len() == height * width);
            assert forall|row: int, col: int| data@.in_grid(row, col) implies level@.brick_at(
                row,
                col,
            ) == #[trigger] data@.brick(row, col) by {
                lemma_cell_index_in_range(row, col, height as int, width as int);
                assert(level@.cells[cell_index(row, col, width as int)] == cell_model(
                    level.cells@[cell_index(row, col, width as int)],
                ));
            }
            assert forall|k: int| 0 <= k < level@.cells.len() implies ((
            #[trigger] level@.cells[k]) matches Some(brick) ==> brick.wf()) by {
                assert(level@.cells[k] == cell_model(level.cells@[k]));
            }
            assert(data@.rectangular());
            assert(data@.known_cells());
        }
        Ok(level)
    }

    /// The brick at `(row, col)`, if that is a cell of the grid and holds
    /// one.
    pub fn brick_at(&self, row: usize, col: usize) -> (r: Option<&Brick>)
        requires
            self.wf(),
        ensures
            match r {
                Some(brick) => self@.brick_at(row as int, col as int) == Some(brick@),
                None => self@.brick_at(row as int, col as int) is None,
            },
    {
        if row >= self.height || col >= self.width {
            return None;
        }
        proof {
            lemma_cell_index_in_range(
                row as int,
                col as int,
                self.height as int,
                self.width as int,
            );
        }
        assert(self@.cells.len() == self.cells@.len());
        assert(row * self.width + col < self.cells.len());
        let k: usize = row * self.width + col;
        assert(self@.cells[k as int] == cell_model(self.cells@[k as int]));
        match &self.cells[k] {
            Some(brick) => Some(brick),
            None => None,
        }
    }

    /// Hands out, for the renderer, the description of every brick that is
    /// not destroyed, in the order of the cells.
    pub fn render(&self) -> (drawables: Vec<Drawable>)
        ensures
            drawables@ == self@.live_drawables(),
    {
        let mut drawables: Vec<Drawable> = Vec::new();
        let mut k: usize = 0;
        assert(self@.cells.take(0).filter_map(live_drawable_of()) == Seq::<Drawable>::empty());
        while k < self.cells.len()
            invariant
                0 <= k <= self.cells.len(),
                self@.cells.len() == self.cells@.len(),
                drawables@ == self@.cells.take(k as int).filter_map(live_drawable_of()),
            decreases self.cells.len() - k,
        {
            proof {
                self@.cells.lemma_filter_map_take_succ(live_drawable_of(), k as int);
                assert(self@.cells[k as int] == cell_model(self.cells@[k as int]));
            }
            match &self.cells[k] {
                Some(brick) => {
                    if !brick.is_destroyed() {
                        drawables.push(brick.drawable());
                    }
                },
                None => {},
            }
            k = k + 1;
        }
        assert(self@.cells.take(k as int) == self@.cells);
        drawables
    }

    /// Looks for the brick that a collision pass would strike, without
    /// changing anything.
    ///
    /// The bricks that are not destroyed are tested in the order of their
    /// cells, row after row, and the first that the circle reaches into is
    /// reported: see [`LevelModel::reports`].
    pub fn find_collision(&self, position: Vector2, radius: i64) -> (hit: Option<BrickHit>)
        requires
            self.wf(),
        ensures
            self@.reports(position@, radius as int, hit),
    {
        let ghost start = self@;
        let mut k: usize = 0;
        let mut row: usize = 0;
        let mut col: usize = 0;
        assert(start.cells.len() > 0 ==> start.height > 0 && start.width > 0) by (nonlinear_arith)
            requires
                start.cells.len() == start.height * start.width,
                0 <= start.height,
                0 <= start.width,
        ;
        while k < self.cells.len()
            invariant
                start == self@,
                self.wf(),
                start.cells.len() == self.cells@.len(),
                0 <= k <= self.cells.len(),
                k == cell_index(row as int, col as int, self.width as int),
                k < self.cells.len() ==> col < self.width && row < self.height,
                forall|j: int| 0 <= j < k ==> !start.struck_at(j, position@, radius as int),
            decreases self.cells.len() - k,
        {
            assert(start.cells[k as int] == cell_model(self.cells@[k as int]));
            match &self.cells[k] {
                Some(brick) => {
                    if !brick.is_destroyed() {
                        match brick.collides_with(position, radius) {
                            CollisionResult::Hit(direction, delta) => {
                                proof {
                                    lemma_first_struck_skips(
                                        start,
                                        0,
                                        k as int,
                                        position@,
                                        radius as int,
                                    );
                                    assert(start.struck_at(k as int, position@, radius as int));
                                }
                                return Some(BrickHit { row, col, direction, penetration: delta });
                            },
                            CollisionResult::Miss => {},
                        }
                    }
                },
                None => {},
            }
            proof {
                lemma_next_cell(
                    row as int,
                    col as int,
                    self.height as int,
                    self.width as int,
                );
            }
            k = k + 1;
            col = col + 1;
            if col == self.width {
                col = 0;
                row = row + 1;
            }
        }
        proof {
            lemma_first_struck_skips(start, 0, k as int, position@, radius as int);
        }
        None
    }

    /// Runs one collision pass for the circle of the given centre and
    /// radius.
    ///
    /// The brick that [`Level::find_collision`] finds is reported and is
    /// destroyed if it is destructible; a solid brick is reported in the
    /// same way and stays. No other brick changes, and at most one brick
    /// is struck in a pass.
    pub fn perform_collisions(&mut self, position: Vector2, radius: i64) -> (hit: Option<BrickHit>)
        requires
            old(self).wf(),
        ensures
            final(self).wf(),
            final(self)@ == old(self)@.after_collision(position@, radius as int),
            old(self)@.reports(position@, radius as int, hit),
            final(self)@.cells.len() == old(self)@.cells.len(),
            forall|k: int|
                0 <= k < old(self)@.cells.len() && (#[trigger] old(self)@.cells[k] matches Some(
                    brick,
                ) && brick.destroyed) ==> final(self)@.cells[k] == old(self)@.cells[k],
    {
        let hit: Option<BrickHit> = self.find_collision(position, radius);
        let ghost start = self@;
        proof {
            collision_pass_keeps_grid(start, position@, radius as int);
        }
        match hit {
            Some(found) => {
                proof {
                    lemma_cell_index_in_range(
                        found.row as int,
                        found.col as int,
                        self.height as int,
                        self.width as int,
                    );
                }
                assert(found.row * self.width + found.col < self.cells.len());
                let k: usize = found.row * self.width + found.col;
                assert(start.cells[k as int] == cell_model(self.cells@[k as int]));
                match self.cells[k] {
                    Some(brick) => {
                        let mut struck: Brick = brick;
                        struck.destroy();
                        self.cells.set(k, Some(struck));
                        assert(self@.cells =~= start.cells.update(
                            k as int,
                            Some(brick@.struck()),
                        ));
                    },
                    None => {},
                }
            },
            None => {},
        }
        hit
    }

    /// The number of rows of cells.
    pub fn height(&self) -> (n: usize)
        ensures
            n == self@.height,
    {
        self.height
    }

    /// The number of cells in a row.
    pub fn width(&self) -> (n: usize)
        ensures
            n == self@.width,
    {
        self.width
    }
}

/// The cell after `(row, col)` is the next of its row, or the first of
/// the next row where `(row, col)` ends its row; as long as cells are
/// left, it lies in the grid.
proof fn lemma_next_cell(row: int, col: int, height: int, width: int)
    by (nonlinear_arith)
    requires
        0 <= row < height,
        0 <= col < width,
    ensures
        cell_index(row, col, width) + 1 == if col + 1 == width {
            cell_index(row + 1, 0, width)
        } else {
            cell_index(row, col + 1, width)
        },
        cell_index(row, col, width) + 1 < height * width ==> (col + 1 == width ==> row + 1
            < height),
        cell_index(row, col, width) < height * width,
{
}

/// The tint of the brick that a known cell value other than `0` stands
/// for.
fn color_of_cell(cell: u32) -> (color: Color)
    ensures
        color == cell_color(cell),
{
    if cell == 1 {
        Color { red: 800, green: 800, blue: 700 }
    } else if cell == 2 {
        Color { red: 200, green: 600, blue: 1000 }
    } else if cell == 3 {
        Color { red: 0, green: 700, blue: 0 }
    } else if cell == 4 {
        Color { red: 800, green: 800, blue: 400 }
    } else {
        Color { red: 1000, green: 500, blue: 0 }
    }
}

/// In a grid whose far edges are representable, so is the corner of
/// every brick.
proof fn lemma_brick_placement(
    unit_w: int,
    unit_h: int,
    row: int,
    col: int,
    height: int,
    width: int,
)
    by (nonlinear_arith)
    requires
        0 <= unit_w,
        0 <= unit_h,
        0 <= row < height,
        0 <= col < width,
        unit_w * width <= i64::MAX,
        unit_h * height <= i64::MAX,
    ensures
        0 <= unit_w * col <= i64::MAX,
        0 <= unit_h * row <= i64::MAX,
{
}

} // verus!
