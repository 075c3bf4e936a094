//! The grid engine: construction, neighbor lookup, generation update and
//! rendering, each proved against [`GridModel`].
use vstd::prelude::*;
use crate::cell::{Cell, glyph_of};
use crate::model::{
    GridModel, WrapMode, digit_of, lemma_coords_round_trip, lemma_index_round_trip,
    lemma_sides_bounded, rows_text,
};

verus! {

/// Why a grid could not be built.
#[derive(Clone, Copy, Debug, PartialEq, Eq, Structural)]
pub enum GridError {
    /// The width or the height is zero.
    ZeroDimension,
    /// `width * height` exceeds `isize::MAX`.
    TooLarge,
    /// The number of cells given is not `width * height`.
    CellCountMismatch,
}

/// The error that dimensions `width` by `height` are rejected with, if any.
pub open spec fn dimension_error(width: nat, height: nat) -> Option<GridError> {
    if width == 0 || height == 0 {
        Some(GridError::ZeroDimension)
    } else if width * height > isize::MAX {
        Some(GridError::TooLarge)
    } else {
        None
    }
}

/// A Game of Life grid: `width * height` cells in row-major order and the
/// boundary policy used for every neighbor lookup.
pub struct GameOfLife {
    width: usize,
    height: usize,
    field: Vec<Cell>,
    wrap: WrapMode,
}

impl View for GameOfLife {
    type V = GridModel;

    closed spec fn view(&self) -> GridModel {
        GridModel {
            width: self.width as nat,
            height: self.height as nat,
            cells: self.field@.map_values(|c: Cell| c@),
            wrap: self.wrap,
        }
    }
}

/// Relies on `rand::random::<bool>`: a bit drawn from the thread-local
/// generator. Nothing is known of its value.
#[verifier::external_body]
fn coin_flip() -> bool {
    rand::random::<bool>()
}

/// Relies on `String::push`: appends one character at the end.
#[verifier::external_body]
fn push_char(s: &mut String, c: char)
    ensures
        final(s)@ == old(s)@.push(c),
{
    s.push(c)
}

/// The number of cells of a `width` by `height` grid, or the reason such a
/// grid is rejected.
fn check_dimensions(width: usize, height: usize) -> (r: Result<usize, GridError>)
    ensures
        match dimension_error(width as nat, height as nat) {
            Some(e) => r == Err::<usize, GridError>(e),
            None => r == Ok::<usize, GridError>((width * height) as usize),
        },
{
    if width == 0 || height == 0 {
        return Err(GridError::ZeroDimension);
    }
    match width.checked_mul(height) {
        Some(n) => {
            if n <= isize::MAX as usize {
                Ok(n)
            } else {
                Err(GridError::TooLarge)
            }
        },
        None => Err(GridError::TooLarge),
    }
}

/// `v` wrapped into `0..n`: the Euclidean remainder of `v` by `n`.
fn wrap_coord(v: isize, n: usize) -> (r: usize)
    requires
        0 < n <= isize::MAX,
    ensures
        r == v as int % n as int,
{
    match v.checked_rem_euclid(n as isize) {
        Some(m) => m as usize,
        None => 0,
    }
}

/// `chars` laid out in rows of `width` characters separated by line breaks.
fn lay_out_rows(width: usize, chars: &Vec<char>) -> (r: String)
    requires
        width > 0,
    ensures
        r@ == rows_text(width as nat, chars@),
{
    let mut s = String::new();
    let mut i: usize = 0;
    while i < chars.len()
        invariant
            width > 0,
            i <= chars@.len(),
            s@ == rows_text(width as nat, chars@.take(i as int)),
        decreases chars@.len() - i,
    {
        if i > 0 && i % width == 0 {
            push_char(&mut s, '\n');
        }
        push_char(&mut s, chars[i]);
        proof {
            assert(chars@.take(i + 1).take(i as int) =~= chars@.take(i as int));
        }
        i = i + 1;
    }
    proof {
        assert(chars@.take(chars@.len() as int) =~= chars@);
    }
    s
}

/// The decimal digit of `n`.
fn digit(n: usize) -> (r: char)
    requires
        n <= 9,
    ensures
        r == digit_of(n as int),
{
    ((n as u8) + 48u8) as char
}

impl GameOfLife {
    /// A `width` by `height` grid whose cells are each alive or dead at
    /// random, or the reason such a grid is rejected.
    pub fn new(width: usize, height: usize, wrap: WrapMode) -> (r: Result<GameOfLife, GridError>)
        ensures
            match dimension_error(width as nat, height as nat) {
                Some(e) => r == Err::<GameOfLife, GridError>(e),
                None => {
                    &&& r is Ok
                    &&& r->Ok_0@.wf()
                    &&& r->Ok_0@.width == width
                    &&& r->Ok_0@.height == height
                    &&& r->Ok_0@.wrap == wrap
                },
            },
    {
        let count = match check_dimensions(width, height) {
            Ok(n) => n,
            Err(e) => {
                return Err(e);
            },
        };
        let field = GameOfLife::generate_field(count);
        GameOfLife::from_cells(width, height, field, wrap)
    }

    /// A `width` by `height` grid with the given cells in row-major order,
    /// or the reason it is rejected.
    pub fn from_cells(width: usize, height: usize, field: Vec<Cell>, wrap: WrapMode) -> (r: Result<
        GameOfLife,
        GridError,
    >)
        ensures
            match dimension_error(width as nat, height as nat) {
                Some(e) => r == Err::<GameOfLife, GridError>(e),
                None => if field@.len() == width * height {
                    &&& r is Ok
                    &&& r->Ok_0@.wf()
                    &&& r->Ok_0@ == (GridModel {
                        width: width as nat,
                        height: height as nat,
                        cells: field@.map_values(|c: Cell| c@),
                        wrap,
                    })
                } else {
                    r == Err::<GameOfLife, GridError>(GridError::CellCountMismatch)
                },
            },
    {
        let count = match check_dimensions(width, height) {
            Ok(n) => n,
            Err(e) => {
                return Err(e);
            },
        };
        if field.len() != count {
            return Err(GridError::CellCountMismatch);
        }
        Ok(GameOfLife { width, height, field, wrap })
    }

    /// `count` cells, each alive or dead at random.
    fn generate_field(count: usize) -> (r: Vec<Cell>)
        ensures
            r@.len() == count,
    {
        let mut field: Vec<Cell> = Vec::new();
        let mut i: usize = 0;
        while i < count
            invariant
                i <= count,
                field@.len() == i,
            decreases count - i,
        {
            field.push(Cell::from_state(coin_flip()));
            i = i + 1;
        }
        field
    }

    pub fn width(&self) -> (r: usize)
        ensures
            r == self@.width,
    {
        self.width
    }

    pub fn height(&self) -> (r: usize)
        ensures
            r == self@.height,
    {
        self.height
    }

    /// Column and row of the linear index `index`.
    pub fn index_to_coords(&self, index: usize) -> (r: (usize, usize))
        requires
            self@.wf(),
        ensures
            r.0 == self@.coords_of(index as int).0,
            r.1 == self@.coords_of(index as int).1,
    {
        let x = index % self.width;
        let y = index / self.width;
        (x, y)
    }

    /// Row-major index of column `x`, row `y`.
    pub fn index(&self, x: usize, y: usize) -> (r: usize)
        requires
            y * self@.width + x <= usize::MAX,
        ensures
            r == self@.index_of(x as int, y as int),
    {
        proof {
            assert(y * self.width <= y * self.width + x);
        }
        y * self.width + x
    }

    /// The cell that `(x, y)` stands for under the boundary policy: wrapped
    /// onto the torus, or `None` outside the grid when clipped.
    pub fn get(&self, x: isize, y: isize) -> (r: Option<&Cell>)
        requires
            self@.wf(),
        ensures
            match self@.resolve(x as int, y as int) {
                Some(i) => r is Some && r->0@ == self@.cells[i],
                None => r is None,
            },
    {
        proof {
            lemma_sides_bounded(self@);
        }
        match self.wrap {
            WrapMode::Wrap => {
                let x = wrap_coord(x, self.width);
                let y = wrap_coord(y, self.height);
                proof {
                    lemma_coords_round_trip(self@, x as int, y as int);
                }
                let index = self.index(x, y);
                Some(&self.field[index])
            },
            WrapMode::NoWrap => {
                if x < 0 || x >= self.width as isize || y < 0 || y >= self.height as isize {
                    None
                } else {
                    proof {
                        lemma_coords_round_trip(self@, x as int, y as int);
                    }
                    let index = self.index(x as usize, y as usize);
                    Some(&self.field[index])
                }
            },
        }
    }

    /// Whether `(x, y)` stands for a live cell; coordinates that stand for
    /// no cell count as dead.
    pub fn is_alive(&self, x: isize, y: isize) -> (r: bool)
        requires
            self@.wf(),
        ensures
            r == self@.alive_at(x as int, y as int),
    {
        match self.get(x, y) {
            Some(c) => c.is_alive(),
            None => false,
        }
    }

    /// The number of live cells among the eight around the cell at `index`.
    pub fn count_neighbors(&self, index: usize) -> (r: usize)
        requires
            self@.wf(),
            index < self@.cells.len(),
        ensures
            r == self@.neighbor_count(index as int),
            r <= 8,
    {
        let (x, y) = self.index_to_coords(index);
        proof {
            lemma_index_round_trip(self@, index as int);
        }
        let x = x as isize;
        let y = y as isize;
        let mut n: usize = 0;
        if self.is_alive(x - 1, y - 1) {
            n = n + 1;
        }
        if self.is_alive(x, y - 1) {
            n = n + 1;
        }
        if self.is_alive(x + 1, y - 1) {
            n = n + 1;
        }
        if self.is_alive(x - 1, y) {
            n = n + 1;
        }
        if self.is_alive(x + 1, y) {
            n = n + 1;
        }
        if self.is_alive(x - 1, y + 1) {
            n = n + 1;
        }
        if self.is_alive(x, y + 1) {
            n = n + 1;
        }
        if self.is_alive(x + 1, y + 1) {
            n = n + 1;
        }
        n
    }

    /// Advances the grid one generation. Every cell's next state is computed
    /// from the grid as it stood before the call: two live neighbors keep a
    /// cell as it is, three make it alive, any other count makes it dead.
    pub fn update(&mut self)
        requires
            old(self)@.wf(),
        ensures
            final(self)@ == old(self)@.next(),
            final(self)@.wf(),
    {
        let count = self.field.len();
        let mut next: Vec<Cell> = Vec::new();
        let mut i: usize = 0;
        while i < count
            invariant
                self@.wf(),
                count == self@.cells.len(),
                i <= count,
                next@.len() == i,
                forall|j: int| 0 <= j < i ==> #[trigger] next@[j]@ == self@.next_cells()[j],
            decreases count - i,
        {
            let c = self.field[i];
            let neighbors = self.count_neighbors(i);
            let cell = match neighbors {
                2 => c,
                3 => Cell::alive(),
                _ => Cell::dead(),
            };
            next.push(cell);
            i = i + 1;
        }
        proof {
            assert(next@.map_values(|c: Cell| c@) =~= self@.next_cells());
        }
        self.field = next;
    }

    /// Whether any cell of the grid is alive.
    pub fn any_alive(&self) -> (r: bool)
        requires
            self@.wf(),
        ensures
            r == self@.has_live_cell(),
    {
        let mut i: usize = 0;
        while i < self.field.len()
            invariant
                i <= self@.cells.len(),
                forall|j: int| 0 <= j < i ==> !#[trigger] self@.cells[j],
            decreases self@.cells.len() - i,
        {
            if self.field[i].is_alive() {
                assert(self@.cells[i as int]);
                return true;
            }
            i = i + 1;
        }
        false
    }

    /// The grid drawn row by row, `#` for a live cell and a space for a dead
    /// one, with a line break between rows.
    pub fn render(&self) -> (r: String)
        requires
            self@.wf(),
        ensures
            r@ == self@.text(),
    {
        let mut chars: Vec<char> = Vec::new();
        let mut i: usize = 0;
        while i < self.field.len()
            invariant
                i <= self@.cells.len(),
                chars@.len() == i,
                forall|j: int|
                    0 <= j < i ==> #[trigger] chars@[j] == glyph_of(self@.cells[j]),
            decreases self@.cells.len() - i,
        {
            chars.push(self.field[i].glyph());
            i = i + 1;
        }
        proof {
            assert(chars@ =~= self@.cells.map_values(|c: bool| glyph_of(c)));
        }
        lay_out_rows(self.width, &chars)
    }

    /// The grid drawn row by row with each cell's live-neighbor count as a
    /// digit, with a line break between rows.
    pub fn render_neighbors(&self) -> (r: String)
        requires
            self@.wf(),
        ensures
            r@ == self@.neighbor_text(),
    {
        let mut chars: Vec<char> = Vec::new();
        let mut i: usize = 0;
        while i < self.field.len()
            invariant
                self@.wf(),
                i <= self@.cells.len(),
                chars@.len() == i,
                forall|j: int|
                    0 <= j < i ==> #[trigger] chars@[j] == digit_of(self@.neighbor_count(j)),
            decreases self@.cells.len() - i,
        {
            let n = self.count_neighbors(i);
            chars.push(digit(n));
            i = i + 1;
        }
        proof {
            assert(chars@ =~= Seq::new(
                self@.cells.len(),
                |j: int| digit_of(self@.neighbor_count(j)),
            ));
        }
        lay_out_rows(self.width, &chars)
    }
}

} // verus!
