use vstd::prelude::*;

verus! {

/// One grid cell: its coordinates and its rate in thousandths of an inch per hour.
pub type Cell = ([i64; 2], u16);

/// A grid of cells, row by row.
pub type GridData = Vec<Vec<Cell>>;

/// A grid with at least one row, all rows as long as the first, and a cell count that fits
/// in `usize`.
pub open spec fn is_grid(g: Seq<Vec<Cell>>) -> bool {
    &&& g.len() > 0
    &&& forall|y: int| 0 <= y < g.len() ==> #[trigger] g[y]@.len() == g[0]@.len()
    &&& g.len() * g[0]@.len() <= usize::MAX
}

/// Two grids of the same shape.
pub open spec fn same_shape(a: Seq<Vec<Cell>>, b: Seq<Vec<Cell>>) -> bool {
    &&& a.len() == b.len()
    &&& forall|y: int| 0 <= y < b.len() ==> #[trigger] b[y]@.len() == a[0]@.len()
}

/// The squared difference of two rates.
pub open spec fn sq_diff(a: u16, b: u16) -> int {
    (a as int - b as int) * (a as int - b as int)
}

/// The squared errors of row `r1` against row `r2` moved by `dx`, over the columns below
/// `x_end` whose moved column lies in `0..m`.
pub open spec fn row_sse(r1: Seq<Cell>, r2: Seq<Cell>, m: int, dx: int, x_end: int) -> int
    decreases x_end,
{
    if x_end <= 0 {
        0
    } else {
        let x = x_end - 1;
        row_sse(r1, r2, m, dx, x) + if 0 <= x + dx < m {
            sq_diff(r1[x].1, r2[x + dx].1)
        } else {
            0
        }
    }
}

/// The squared errors of grid `t1` against grid `t2` moved by `(dx, dy)`, over the rows
/// below `y_end` whose moved row exists.
pub open spec fn grid_sse(t1: Seq<Vec<Cell>>, t2: Seq<Vec<Cell>>, dx: int, dy: int, y_end: int) -> int
    decreases y_end,
{
    if y_end <= 0 {
        0
    } else {
        let y = y_end - 1;
        grid_sse(t1, t2, dx, dy, y) + if 0 <= y + dy < t1.len() {
            row_sse(t1[y]@, t2[y + dy]@, t1[0]@.len() as int, dx, t1[0]@.len() as int)
        } else {
            0
        }
    }
}

/// The sum of squared differences between each cell of `t1` and the cell `(dx, dy)` away
/// from it in `t2`, over the cells where both exist.
pub open spec fn sse(t1: Seq<Vec<Cell>>, t2: Seq<Vec<Cell>>, dx: int, dy: int) -> int {
    grid_sse(t1, t2, dx, dy, t1.len() as int)
}

/// The largest squared difference of two rates.
const MAX_SQ: u128 = 0xfffe_0001;

proof fn lemma_row_sse_bounds(r1: Seq<Cell>, r2: Seq<Cell>, m: int, dx: int, x_end: int)
    requires
        0 <= x_end,
    ensures
        0 <= row_sse(r1, r2, m, dx, x_end) <= x_end * MAX_SQ,
    decreases x_end,
{
    if x_end > 0 {
        let x = x_end - 1;
        lemma_row_sse_bounds(r1, r2, m, dx, x);
        if 0 <= x + dx < m {
            let a = r1[x].1 as int;
            let b = r2[x + dx].1 as int;
            assert(0 <= (a - b) * (a - b) <= 0xfffe_0001) by (nonlinear_arith)
                requires
                    0 <= a <= 0xffff,
                    0 <= b <= 0xffff,
            ;
        }
    }
}

proof fn lemma_grid_sse_bounds(t1: Seq<Vec<Cell>>, t2: Seq<Vec<Cell>>, dx: int, dy: int, y_end: int)
    requires
        0 <= y_end,
    ensures
        0 <= grid_sse(t1, t2, dx, dy, y_end) <= y_end * t1[0]@.len() * MAX_SQ,
    decreases y_end,
{
    if y_end > 0 {
        let y = y_end - 1;
        let m = t1[0]@.len() as int;
        lemma_grid_sse_bounds(t1, t2, dx, dy, y);
        if 0 <= y + dy < t1.len() {
            lemma_row_sse_bounds(t1[y]@, t2[y + dy]@, m, dx, m);
        }
        assert(y * m * MAX_SQ + m * MAX_SQ == y_end * m * MAX_SQ) by (nonlinear_arith)
            requires
                y_end == y + 1,
        ;
    }
}

/// The sum of squared differences between `t1` and `t2` moved by `(dx, dy)`.
pub fn compute_sse_for_offset(t1: &GridData, t2: &GridData, dx: i64, dy: i64) -> (r: u128)
    requires
        is_grid(t1@),
        same_shape(t1@, t2@),
    ensures
        r == sse(t1@, t2@, dx as int, dy as int),
{
    let n = t1.len();
    let m = t1[0].len();
    let mut total: u128 = 0;
    let mut y: usize = 0;
    while y < n
        invariant
            n == t1@.len(),
            m == t1@[0]@.len(),
            is_grid(t1@),
            same_shape(t1@, t2@),
            y <= n,
            total == grid_sse(t1@, t2@, dx as int, dy as int, y as int),
        decreases n - y,
    {
        let y2 = y as i128 + dy as i128;
        if 0 <= y2 && y2 < n as i128 {
            let row1 = &t1[y];
            let row2 = &t2[y2 as usize];
            let mut row_total: u128 = 0;
            let mut x: usize = 0;
            while x < m
                invariant
                    n == t1@.len(),
                    m == t1@[0]@.len(),
                    is_grid(t1@),
                    same_shape(t1@, t2@),
                    y < n,
                    0 <= y2 < n,
                    row1@ == t1@[y as int]@,
                    row2@ == t2@[y2 as int]@,
                    x <= m,
                    total == grid_sse(t1@, t2@, dx as int, dy as int, y as int),
                    row_total == row_sse(row1@, row2@, m as int, dx as int, x as int),
                decreases m - x,
            {
                proof {
                    lemma_row_sse_bounds(row1@, row2@, m as int, dx as int, x as int);
                    lemma_row_sse_bounds(row1@, row2@, m as int, dx as int, x + 1);
                    assert(x + 1 <= m);
                    assert((x + 1) * MAX_SQ <= m * MAX_SQ) by (nonlinear_arith)
                        requires
                            x + 1 <= m,
                    ;
                    assert(m * MAX_SQ <= usize::MAX * MAX_SQ) by (nonlinear_arith)
                        requires
                            m <= usize::MAX,
                    ;
                }
                let x2 = x as i128 + dx as i128;
                if 0 <= x2 && x2 < m as i128 {
                    let a = row1[x].1 as i64;
                    let b = row2[x2 as usize].1 as i64;
                    let d = a - b;
                    assert(0 <= d * d <= MAX_SQ) by (nonlinear_arith)
                        requires
                            -0xffff <= d <= 0xffff,
                    ;
                    row_total = row_total + (d * d) as u128;
                }
                x = x + 1;
            }
            proof {
                lemma_grid_sse_bounds(t1@, t2@, dx as int, dy as int, y + 1);
                assert((y + 1) * m * MAX_SQ <= n * m * MAX_SQ) by (nonlinear_arith)
                    requires
                        y + 1 <= n,
                ;
                assert(n * m * MAX_SQ <= usize::MAX * MAX_SQ) by (nonlinear_arith)
                    requires
                        n * m <= usize::MAX,
                ;
            }
            total = total + row_total;
        }
        y = y + 1;
    }
    total
}

/// How far, in rows and columns, the offset search reaches for a grid of `n` rows.
pub open spec fn search_radius(n: int) -> int {
    if n < 50 {
        n / 2
    } else {
        n / 20
    }
}

/// Offsets `(dy, dx)` with both parts in `-rad..rad`.
pub open spec fn in_window(rad: int, dy: int, dx: int) -> bool {
    -rad <= dy < rad && -rad <= dx < rad
}

/// `(a1, b1)` comes before `(a2, b2)` in the search, rows first.
pub open spec fn lex_before(a1: int, b1: int, a2: int, b2: int) -> bool {
    a1 < a2 || (a1 == a2 && b1 < b2)
}

/// `(dy, dx)` is the offset that the search settles on: `(0, 0)` when the window is empty,
/// else the first offset of the window, rows first, with the least sum of squared errors.
pub open spec fn is_best_offset(t1: Seq<Vec<Cell>>, t2: Seq<Vec<Cell>>, dy: int, dx: int) -> bool {
    let rad = search_radius(t1.len() as int);
    if rad <= 0 {
        dy == 0 && dx == 0
    } else {
        &&& in_window(rad, dy, dx)
        &&& forall|a: int, b: int|
            in_window(rad, a, b) ==> sse(t1, t2, dx, dy) <= #[trigger] sse(t1, t2, b, a)
        &&& forall|a: int, b: int|
            in_window(rad, a, b) && lex_before(a, b, dy, dx) ==> sse(t1, t2, dx, dy)
                < #[trigger] sse(t1, t2, b, a)
    }
}

/// The offsets that the search has tried once it reaches `(dy, dx)`.
pub open spec fn scanned(rad: int, dy: int, dx: int, a: int, b: int) -> bool {
    (-rad <= a < dy && -rad <= b < rad) || (a == dy && -rad <= b < dx)
}

/// Finds the offset `(dy, dx)` that best carries `t1` onto `t2`: the one, among all
/// offsets within the search radius, whose moved grid differs least from `t2` in the sum of
/// squared differences; the earliest in row-first order on ties.
pub fn find_best_offset(t1: &GridData, t2: &GridData) -> (r: (i32, i32))
    requires
        is_grid(t1@),
        same_shape(t1@, t2@),
        t1@.len() <= i32::MAX,
    ensures
        is_best_offset(t1@, t2@, r.0 as int, r.1 as int),
{
    let n = t1.len() as i32;
    let rad: i32 = if n < 50 {
        n / 2
    } else {
        n / 20
    };
    let mut best: (i32, i32) = (0, 0);
    let mut best_sse: u128 = 0;
    let mut found = false;
    let mut dy: i32 = -rad;
    while dy < rad
        invariant
            rad == search_radius(t1@.len() as int),
            is_grid(t1@),
            same_shape(t1@, t2@),
            -rad <= dy <= rad,
            rad > 0 ==> found == (dy > -rad),
            rad <= 0 ==> !found && best == (0i32, 0i32),
            found ==> in_window(rad as int, best.0 as int, best.1 as int) && best_sse == sse(
                t1@,
                t2@,
                best.1 as int,
                best.0 as int,
            ) && scanned(rad as int, dy as int, -rad as int, best.0 as int, best.1 as int),
            forall|a: int, b: int|
                scanned(rad as int, dy as int, -rad as int, a, b) ==> best_sse <= #[trigger] sse(
                    t1@,
                    t2@,
                    b,
                    a,
                ),
            forall|a: int, b: int|
                scanned(rad as int, dy as int, -rad as int, a, b) && lex_before(
                    a,
                    b,
                    best.0 as int,
                    best.1 as int,
                ) ==> best_sse < #[trigger] sse(t1@, t2@, b, a),
        decreases rad - dy,
    {
        let mut dx: i32 = -rad;
        while dx < rad
            invariant
                rad == search_radius(t1@.len() as int),
                is_grid(t1@),
                same_shape(t1@, t2@),
                -rad <= dy < rad,
                -rad <= dx <= rad,
                found == (dy > -rad || dx > -rad),
                found ==> in_window(rad as int, best.0 as int, best.1 as int) && best_sse == sse(
                    t1@,
                    t2@,
                    best.1 as int,
                    best.0 as int,
                ) && scanned(rad as int, dy as int, dx as int, best.0 as int, best.1 as int),
                forall|a: int, b: int|
                    scanned(rad as int, dy as int, dx as int, a, b) ==> best_sse
                        <= #[trigger] sse(t1@, t2@, b, a),
                forall|a: int, b: int|
                    scanned(rad as int, dy as int, dx as int, a, b) && lex_before(
                        a,
                        b,
                        best.0 as int,
                        best.1 as int,
                    ) ==> best_sse < #[trigger] sse(t1@, t2@, b, a),
            decreases rad - dx,
        {
            let e = compute_sse_for_offset(t1, t2, dx as i64, dy as i64);
            if !found || e < best_sse {
                best = (dy, dx);
                best_sse = e;
                found = true;
            }
            dx = dx + 1;
        }
        dy = dy + 1;
    }
    best
}

/// How many rows a shift by `dy` carries over in a grid of `n` rows.
pub open spec fn overlap(n: int, dy: int) -> int {
    if dy >= n || dy <= -n {
        0
    } else if dy >= 0 {
        n - dy
    } else {
        n + dy
    }
}

/// The rate at `(y, x)` once the grid is moved by `(dx, dy)`: the rate from the cell the
/// move brings there, or the cell's own rate where no cell is brought.
pub open spec fn shifted_value(g: Seq<Vec<Cell>>, dx: int, dy: int, y: int, x: int) -> u16 {
    let sy = y - dy;
    let sx = x - dx;
    if 0 <= sy < g.len() && 0 <= sx < g[0]@.len() {
        g[sy]@[sx].1
    } else {
        g[y]@[x].1
    }
}

/// `out` is `g` moved by `(dx, dy)`: each cell keeps its coordinates and takes the moved
/// rate, and one empty row follows for each row that the move carries over.
pub open spec fn is_shift(out: Seq<Vec<Cell>>, g: Seq<Vec<Cell>>, dx: int, dy: int) -> bool {
    &&& out.len() == g.len() + overlap(g.len() as int, dy)
    &&& forall|y: int| 0 <= y < g.len() ==> #[trigger] out[y]@.len() == g[0]@.len()
    &&& forall|y: int, x: int|
        0 <= y < g.len() && 0 <= x < g[0]@.len() ==> #[trigger] out[y]@[x] == (
            g[y]@[x].0,
            shifted_value(g, dx, dy, y, x),
        )
    &&& forall|y: int| g.len() <= y < out.len() ==> #[trigger] out[y]@.len() == 0
}

/// Moves the rates of `input` by `dx` columns and `dy` rows.
pub fn shift(input: &GridData, dx: i32, dy: i32) -> (r: GridData)
    requires
        is_grid(input@),
    ensures
        is_shift(r@, input@, dx as int, dy as int),
{
    let n = input.len();
    let m = input[0].len();
    let mut out: GridData = Vec::new();
    let mut y: usize = 0;
    while y < n
        invariant
            n == input@.len(),
            m == input@[0]@.len(),
            is_grid(input@),
            y <= n,
            out@.len() == y,
            forall|yy: int| 0 <= yy < y ==> #[trigger] out@[yy]@.len() == m,
            forall|yy: int, x: int|
                0 <= yy < y && 0 <= x < m ==> #[trigger] out@[yy]@[x] == (
                    input@[yy]@[x].0,
                    shifted_value(input@, dx as int, dy as int, yy, x),
                ),
        decreases n - y,
    {
        let mut row: Vec<Cell> = Vec::new();
        let mut x: usize = 0;
        while x < m
            invariant
                n == input@.len(),
                m == input@[0]@.len(),
                is_grid(input@),
                y < n,
                x <= m,
                row@.len() == x,
                forall|xx: int|
                    0 <= xx < x ==> #[trigger] row@[xx] == (
                        input@[y as int]@[xx].0,
                        shifted_value(input@, dx as int, dy as int, y as int, xx),
                    ),
            decreases m - x,
        {
            let sy = y as i128 - dy as i128;
            let sx = x as i128 - dx as i128;
            let value = if 0 <= sy && sy < n as i128 && 0 <= sx && sx < m as i128 {
                input[sy as usize][sx as usize].1
            } else {
                input[y][x].1
            };
            row.push((input[y][x].0, value));
            x = x + 1;
        }
        out.push(row);
        y = y + 1;
    }
    let d = dy as i128;
    let nn = n as i128;
    let extra: usize = if d >= nn || d <= -nn {
        0
    } else if d >= 0 {
        (nn - d) as usize
    } else {
        (nn + d) as usize
    };
    let mut k: usize = 0;
    while k < extra
        invariant
            n == input@.len(),
            m == input@[0]@.len(),
            k <= extra,
            extra == overlap(n as int, dy as int),
            out@.len() == n + k,
            forall|yy: int| 0 <= yy < n ==> #[trigger] out@[yy]@.len() == m,
            forall|yy: int, x: int|
                0 <= yy < n && 0 <= x < m ==> #[trigger] out@[yy]@[x] == (
                    input@[yy]@[x].0,
                    shifted_value(input@, dx as int, dy as int, yy, x),
                ),
            forall|yy: int| n <= yy < out@.len() ==> #[trigger] out@[yy]@.len() == 0,
        decreases extra - k,
    {
        out.push(Vec::new());
        k = k + 1;
    }
    out
}

/// `offset * t / dti` rounded toward zero, then held to the range of `i32`.
pub open spec fn scaled_step(offset: int, t: int, dti: int) -> int {
    let p = offset * t;
    let q = if p >= 0 {
        p / dti
    } else {
        -((-p) / dti)
    };
    if q > i32::MAX {
        i32::MAX as int
    } else if q < i32::MIN {
        i32::MIN as int
    } else {
        q
    }
}

/// The part of a shift of `offset` cells per `dti` seconds that falls in `t` seconds.
fn scale_step(offset: i32, t: u32, dti: u16) -> (r: i32)
    requires
        dti > 0,
        t <= 0x1_0000,
    ensures
        r as int == scaled_step(offset as int, t as int, dti as int),
{
    assert(-0x8000_0000_0000 <= offset * t <= 0x8000_0000_0000) by (nonlinear_arith)
        requires
            i32::MIN <= offset <= i32::MAX,
            0 <= t <= 0x1_0000,
    ;
    let p = offset as i64 * t as i64;
    let q: i64 = if p >= 0 {
        p / dti as i64
    } else {
        -((-p) / dti as i64)
    };
    if q > i32::MAX as i64 {
        i32::MAX
    } else if q < i32::MIN as i64 {
        i32::MIN
    } else {
        q as i32
    }
}

/// The seconds from now to prediction step `k`, given the age `delta_t_now` of the second
/// grid.
pub open spec fn step_seconds(delta_t_now: int, k: int) -> int {
    delta_t_now + 300 * k
}

/// Predicts the precipitation from now to sixty minutes ahead in five-minute steps, from two
/// grids of the same shape taken `delta_t_image` seconds apart, the second one
/// `delta_t_now` seconds ago. The best offset from the first grid to the second is taken as
/// the motion of all precipitation; step `k` is the first grid moved by that offset scaled
/// by `(delta_t_now + 300 k) / delta_t_image`, rounded toward zero.
pub fn predict_two(input: [&GridData; 2], delta_t_image: u16, delta_t_now: u16) -> (r: [GridData; 13])
    requires
        is_grid(input@[0]@),
        same_shape(input@[0]@, input@[1]@),
        input@[0]@.len() <= i32::MAX,
        delta_t_image > 0,
        delta_t_now + 3600 <= u16::MAX,
    ensures
        exists|dy: int, dx: int|
            is_best_offset(input@[0]@, input@[1]@, dy, dx) && forall|k: int|
                0 <= k < 13 ==> is_shift(
                    #[trigger] r@[k]@,
                    input@[0]@,
                    scaled_step(dx, step_seconds(delta_t_now as int, k), delta_t_image as int),
                    scaled_step(dy, step_seconds(delta_t_now as int, k), delta_t_image as int),
                ),
{
    let first = input[0];
    let offset = find_best_offset(first, input[1]);
    let mut steps: Vec<GridData> = Vec::new();
    let mut k: u32 = 0;
    while k < 13
        invariant
            k <= 13,
            first@ == input@[0]@,
            is_grid(first@),
            delta_t_image > 0,
            delta_t_now + 3600 <= u16::MAX,
            steps@.len() == k,
            forall|j: int|
                0 <= j < k ==> is_shift(
                    #[trigger] steps@[j]@,
                    first@,
                    scaled_step(
                        offset.1 as int,
                        step_seconds(delta_t_now as int, j),
                        delta_t_image as int,
                    ),
                    scaled_step(
                        offset.0 as int,
                        step_seconds(delta_t_now as int, j),
                        delta_t_image as int,
                    ),
                ),
        decreases 13 - k,
    {
        let t = delta_t_now as u32 + 300 * k;
        let dx = scale_step(offset.1, t, delta_t_image);
        let dy = scale_step(offset.0, t, delta_t_image);
        steps.push(shift(first, dx, dy));
        k = k + 1;
    }
    let r: [GridData; 13] = [
        steps.remove(0), steps.remove(0), steps.remove(0), steps.remove(0), steps.remove(0),
        steps.remove(0), steps.remove(0), steps.remove(0), steps.remove(0), steps.remove(0),
        steps.remove(0), steps.remove(0), steps.remove(0),
    ];
    r
}

/// `(y, x)` is the cell that holds `(lat, lon)`: row `y` is the first row whose first cell
/// has a latitude code at most `lat`, and `x` the first cell of that row whose longitude
/// code is at least `lon`. Rows run from north to south and cells from west to east.
pub open spec fn pixel_at(g: Seq<Vec<Cell>>, lat: i64, lon: i64, y: int, x: int) -> bool {
    &&& 0 <= y < g.len()
    &&& 0 <= x < g[y]@.len()
    &&& g[y]@.len() > 0 && g[y]@[0].0[0] <= lat
    &&& forall|yy: int| 0 <= yy < y ==> #[trigger] g[yy]@.len() > 0 && g[yy]@[0].0[0] > lat
    &&& g[y]@[x].0[1] >= lon
    &&& forall|xx: int| 0 <= xx < x ==> #[trigger] g[y]@[xx].0[1] < lon
}

/// Finds the cell that holds the coordinates `(lat, lon)`, given in the grid's own codes:
/// see [`pixel_at`].
pub fn find_pixel_by_lat_long(pixels: &GridData, lat: i64, lon: i64) -> (r: Option<(usize, usize)>)
    ensures
        match r {
            Some((y, x)) => pixel_at(pixels@, lat, lon, y as int, x as int),
            None => forall|y: int, x: int| !pixel_at(pixels@, lat, lon, y, x),
        },
{
    let mut y: usize = 0;
    while y < pixels.len() && pixels[y].len() > 0 && pixels[y][0].0[0] > lat
        invariant
            y <= pixels@.len(),
            forall|yy: int|
                0 <= yy < y ==> #[trigger] pixels@[yy]@.len() > 0 && pixels@[yy]@[0].0[0] > lat,
        decreases pixels@.len() - y,
    {
        assert(pixels@[y as int]@.len() > 0 && pixels@[y as int]@[0].0[0] > lat);
        y = y + 1;
    }
    if y == pixels.len() || pixels[y].len() == 0 {
        return None;
    }
    let row = &pixels[y];
    let mut x: usize = 0;
    while x < row.len() && row[x].0[1] < lon
        invariant
            row@ == pixels@[y as int]@,
            x <= row@.len(),
            forall|xx: int| 0 <= xx < x ==> #[trigger] row@[xx].0[1] < lon,
        decreases row@.len() - x,
    {
        x = x + 1;
    }
    if x == row.len() {
        return None;
    }
    Some((y, x))
}

} // verus!
