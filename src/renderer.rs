//! The camera over the world plane, its frame buffer and its scene.
use vstd::prelude::*;

use crate::error::ConfigError;
use crate::shape::{lemma_common_point_overlaps, lemma_shape_in_bbox, Rect, Shape};
use crate::vector2::{lemma_product_bound, Vector2};

verus! {

/// The viewport size, in character cells.
#[derive(Debug, Clone, Copy, PartialEq, Eq)]
pub struct RendererOptions {
    pub viewport_width: usize,
    pub viewport_height: usize,
}

/// A camera with a fixed-size viewport, the frame it last drew and the shapes it draws.
///
/// `position` is the world point seen in the top-left cell. The cell in column
/// `x` and row `y` shows the world point `(position.0 + x, position.1 - y)`:
/// rows grow downward while world `y` grows upward.
pub struct Renderer {
    options: RendererOptions,
    position: Vector2<i64>,
    buffer: Vec<char>,
    drawables: Vec<Shape>,
}

/// What a renderer holds, as mathematical values.
pub struct RendererView {
    pub width: nat,
    pub height: nat,
    pub position: Vector2<i64>,
    /// Row-major: cell `(x, y)` is at `x + y * width`.
    pub buffer: Seq<char>,
    pub shapes: Seq<Shape>,
}

/// The world point shown in column `x`, row `y` of a camera at `pos`.
pub open spec fn world_point(pos: Vector2<i64>, x: int, y: int) -> Vector2<i64> {
    Vector2((pos.0 + x) as i64, (pos.1 - y) as i64)
}

/// Some shape of the scene holds `p`.
pub open spec fn covered(shapes: Seq<Shape>, p: Vector2<i64>) -> bool {
    exists|i: int| 0 <= i < shapes.len() && #[trigger] shapes[i].contains_spec(p)
}

pub open spec fn pixel_char(shapes: Seq<Shape>, p: Vector2<i64>) -> char {
    if covered(shapes, p) {
        '#'
    } else {
        ' '
    }
}

/// The frame of a `width` by `height` camera at `pos` over `shapes`: `#` where
/// some shape holds the cell's world point, a space elsewhere.
pub open spec fn frame(width: nat, height: nat, pos: Vector2<i64>, shapes: Seq<Shape>) -> Seq<char> {
    Seq::new(
        width * height,
        |i: int| pixel_char(shapes, world_point(pos, i % (width as int), i / (width as int))),
    )
}

/// The world cells a `width` by `height` camera at `pos` sees.
pub open spec fn camera_rect(width: nat, height: nat, pos: Vector2<i64>) -> Rect {
    Rect { position: pos, width: width as i64, height: height as i64 }
}

/// The shapes whose bounding boxes meet the camera's rectangle.
pub open spec fn culled(shapes: Seq<Shape>, cam: Rect) -> Seq<Shape> {
    shapes.filter(|s: Shape| cam.overlaps(s.bbox_spec()))
}

/// The viewport has cells, they can be counted, and every world point it shows
/// is an `i64` pair.
pub open spec fn viewport_fits(width: nat, height: nat, pos: Vector2<i64>) -> bool {
    &&& 0 < width <= i64::MAX
    &&& 0 < height <= i64::MAX
    &&& width * height <= usize::MAX
    &&& pos.0 + width - 1 <= i64::MAX
    &&& pos.1 - (height - 1) >= i64::MIN
}

/// `pos` moved by `distance` steps along `direction`.
pub open spec fn walked(pos: Vector2<i64>, direction: Vector2<i64>, distance: i64) -> Vector2<i64> {
    Vector2(
        (pos.0 + direction.0 * distance) as i64,
        (pos.1 + direction.1 * distance) as i64,
    )
}

/// Each character followed by one space.
pub open spec fn spaced(s: Seq<char>) -> Seq<char> {
    Seq::new(2 * s.len(), |k: int| if k % 2 == 0 { s[k / 2] } else { ' ' })
}

impl RendererView {
    pub open spec fn wf(self) -> bool {
        &&& viewport_fits(self.width, self.height, self.position)
        &&& self.buffer.len() == self.width * self.height
        &&& forall|i: int| 0 <= i < self.shapes.len() ==> #[trigger] self.shapes[i].wf()
    }

    /// Row `y` of the buffer.
    pub open spec fn row(self, y: int) -> Seq<char> {
        self.buffer.subrange(y * self.width, y * self.width + self.width)
    }

    /// What rendering draws for the current camera and scene.
    pub open spec fn frame(self) -> Seq<char> {
        frame(self.width, self.height, self.position, self.shapes)
    }

    pub open spec fn camera_rect(self) -> Rect {
        camera_rect(self.width, self.height, self.position)
    }
}

impl View for Renderer {
    type V = RendererView;

    closed spec fn view(&self) -> RendererView {
        RendererView {
            width: self.options.viewport_width as nat,
            height: self.options.viewport_height as nat,
            position: self.position,
            buffer: self.buffer@,
            shapes: self.drawables@,
        }
    }
}

proof fn lemma_cell_in_viewport(i: int, w: int, h: int)
    requires
        0 <= i < w * h,
        w > 0,
        h > 0,
    ensures
        0 <= i % w < w,
        0 <= i / w < h,
        i == i % w + (i / w) * w,
{
    assert(0 <= i / w < h) by (nonlinear_arith)
        requires
            0 <= i < w * h,
            w > 0,
    ;
    assert(i == i % w + (i / w) * w) by (nonlinear_arith)
        requires
            w > 0,
    ;
}

proof fn lemma_row_bounds(y: int, x: int, w: int, h: int)
    requires
        0 <= y < h,
        0 <= x < w,
    ensures
        0 <= y * w + x < w * h,
        y * w + w <= w * h,
{
    assert(0 <= y * w + x < w * h && y * w + w <= w * h) by (nonlinear_arith)
        requires
            0 <= y < h,
            0 <= x < w,
    ;
}

/// Culling changes nothing: a shape whose bounding box misses the camera
/// holds none of the points the camera shows.
pub proof fn lemma_culling_equivalence(v: RendererView)
    requires
        v.wf(),
    ensures
        frame(v.width, v.height, v.position, culled(v.shapes, v.camera_rect())) == v.frame(),
{
    let cam = v.camera_rect();
    let pred = |s: Shape| cam.overlaps(s.bbox_spec());
    let kept = culled(v.shapes, cam);
    let w = v.width as int;
    assert forall|i: int| 0 <= i < v.width * v.height implies #[trigger] frame(
        v.width,
        v.height,
        v.position,
        kept,
    )[i] == v.frame()[i] by {
        lemma_cell_in_viewport(i, w, v.height as int);
        let p = world_point(v.position, i % w, i / w);
        if covered(kept, p) {
            let j = choose|j: int| 0 <= j < kept.len() && #[trigger] kept[j].contains_spec(p);
            assert(kept.contains(kept[j]));
            v.shapes.lemma_filter_contains_rev(pred, kept[j]);
            let k = choose|k: int| 0 <= k < v.shapes.len() && v.shapes[k] == kept[j];
            assert(v.shapes[k].contains_spec(p));
        }
        if covered(v.shapes, p) {
            let k = choose|k: int| 0 <= k < v.shapes.len() && #[trigger] v.shapes[k].contains_spec(p);
            let s = v.shapes[k];
            assert(s.wf());
            lemma_shape_in_bbox(s, p);
            assert(cam.contains_spec(p));
            lemma_common_point_overlaps(cam, s.bbox_spec(), p);
            assert(pred(s));
            v.shapes.lemma_filter_contains(pred, k);
            let j = choose|j: int| 0 <= j < kept.len() && kept[j] == s;
            assert(kept[j].contains_spec(p));
        }
    }
}

/// The move of `walk` stays within `i64` and keeps the viewport's world
/// points within `i64`.
pub open spec fn can_walk(v: RendererView, direction: Vector2<i64>, distance: i64) -> bool {
    &&& i64::MIN <= direction.0 * distance <= i64::MAX
    &&& i64::MIN <= direction.1 * distance <= i64::MAX
    &&& i64::MIN <= v.position.0 + direction.0 * distance <= i64::MAX
    &&& i64::MIN <= v.position.1 + direction.1 * distance <= i64::MAX
    &&& viewport_fits(v.width, v.height, walked(v.position, direction, distance))
}

/// Rendering twice gives the same buffer: the frame depends on the camera,
/// the viewport and the scene, never on the buffer it replaces.
pub proof fn lemma_render_idempotent(v: RendererView)
    requires
        v.wf(),
    ensures
        (RendererView { buffer: v.frame(), ..v }).frame() == v.frame(),
        (RendererView { buffer: v.frame(), ..v }).wf(),
{
}

/// With no shapes every cell is blank, wherever the camera stands.
pub proof fn lemma_empty_scene_blank(v: RendererView)
    requires
        v.wf(),
        v.shapes.len() == 0,
    ensures
        forall|i: int| 0 <= i < v.frame().len() ==> #[trigger] v.frame()[i] == ' ',
{
}

/// Walking up and then down by the same distance returns the camera to where it was.
pub proof fn lemma_walk_round_trip(pos: Vector2<i64>, distance: i64)
    requires
        i64::MIN <= pos.1 + distance <= i64::MAX,
    ensures
        walked(walked(pos, Vector2(0i64, 1i64), distance), Vector2(0i64, -1i64), distance) == pos,
{
}

/// Cell `(x, y)` of row `y` is the buffer's entry at `x + y * width`.
pub proof fn lemma_lines_round_trip(v: RendererView, x: int, y: int)
    requires
        v.wf(),
        0 <= x < v.width,
        0 <= y < v.height,
    ensures
        v.row(y).len() == v.width,
        v.row(y)[x] == v.buffer[x + y * v.width],
{
    lemma_row_bounds(y, x, v.width as int, v.height as int);
}

/// Whether some shape of `shapes` holds `p`.
fn any_contains(shapes: &Vec<Shape>, p: &Vector2<i64>) -> (r: bool)
    ensures
        r == covered(shapes@, *p),
{
    let mut i: usize = 0;
    while i < shapes.len()
        invariant
            i <= shapes@.len(),
            forall|j: int| 0 <= j < i ==> !(#[trigger] shapes@[j].contains_spec(*p)),
        decreases shapes@.len() - i,
    {
        if shapes[i].contains(p) {
            return true;
        }
        i += 1;
    }
    false
}

impl Renderer {
    /// A renderer at world `(0, 0)` with a blank buffer and no shapes.
    pub fn new(options: RendererOptions) -> (r: Result<Renderer, ConfigError>)
        ensures
            options.viewport_width == 0 || options.viewport_height == 0 ==> r
                == Err::<Renderer, ConfigError>(ConfigError::EmptyViewport),
            options.viewport_width > 0 && options.viewport_height > 0 && !viewport_fits(
                options.viewport_width as nat,
                options.viewport_height as nat,
                Vector2(0i64, 0i64),
            ) ==> r == Err::<Renderer, ConfigError>(ConfigError::ViewportTooLarge),
            viewport_fits(
                options.viewport_width as nat,
                options.viewport_height as nat,
                Vector2(0i64, 0i64),
            ) ==> r is Ok,
            r matches Ok(rd) ==> rd@.wf() && rd@ == (RendererView {
                width: options.viewport_width as nat,
                height: options.viewport_height as nat,
                position: Vector2(0i64, 0i64),
                buffer: Seq::new(
                    (options.viewport_width * options.viewport_height) as nat,
                    |i: int| ' ',
                ),
                shapes: Seq::empty(),
            }),
    {
        let w = options.viewport_width;
        let h = options.viewport_height;
        if w == 0 || h == 0 {
            return Err(ConfigError::EmptyViewport);
        }
        assert(w as u128 * h as u128 <= u128::MAX) by (nonlinear_arith)
            requires
                w <= usize::MAX,
                h <= usize::MAX,
        ;
        if w as u128 > i64::MAX as u128 || h as u128 > i64::MAX as u128 || w as u128 * h as u128
            > usize::MAX as u128 {
            return Err(ConfigError::ViewportTooLarge);
        }
        let n = w * h;
        let mut buffer: Vec<char> = Vec::with_capacity(n);
        let mut i: usize = 0;
        while i < n
            invariant
                i <= n,
                buffer@ == Seq::new(i as nat, |j: int| ' '),
            decreases n - i,
        {
            buffer.push(' ');
            i += 1;
            assert(buffer@ =~= Seq::new(i as nat, |j: int| ' '));
        }
        Ok(Renderer { options, position: Vector2(0, 0), buffer, drawables: Vec::new() })
    }

    /// The frame buffer, row-major.
    pub fn buffer(&self) -> (r: &Vec<char>)
        ensures
            r@ == self@.buffer,
    {
        &self.buffer
    }

    /// The world point shown in the top-left cell.
    pub fn position(&self) -> (r: Vector2<i64>)
        ensures
            r == self@.position,
    {
        self.position
    }

    pub fn options(&self) -> (r: RendererOptions)
        ensures
            r.viewport_width == self@.width,
            r.viewport_height == self@.height,
    {
        self.options
    }

    /// The world rectangle the camera sees.
    pub fn bbox(&self) -> (r: Rect)
        requires
            self@.wf(),
        ensures
            r == self@.camera_rect(),
    {
        Rect {
            position: self.position,
            width: self.options.viewport_width as i64,
            height: self.options.viewport_height as i64,
        }
    }

    /// Whether `rect` meets the world rectangle the camera sees.
    pub fn collides_with_rect(&self, rect: &Rect) -> (r: bool)
        requires
            self@.wf(),
        ensures
            r == self@.camera_rect().overlaps(*rect),
    {
        self.bbox().intersects(rect)
    }

    /// Moves the camera by `distance` steps along `direction`. The move must
    /// keep every world point of the viewport within `i64`.
    pub fn walk(&mut self, direction: Vector2<i64>, distance: i64)
        requires
            old(self)@.wf(),
            can_walk(old(self)@, direction, distance),
        ensures
            final(self)@ == (RendererView {
                position: walked(old(self)@.position, direction, distance),
                ..old(self)@
            }),
            final(self)@.wf(),
    {
        self.position = self.position.add(direction.scale(distance));
    }

    /// Moves the camera like `walk` when the move keeps every world point of
    /// the viewport within `i64`, and reports whether it moved.
    pub fn try_walk(&mut self, direction: Vector2<i64>, distance: i64) -> (r: bool)
        requires
            old(self)@.wf(),
        ensures
            r == can_walk(old(self)@, direction, distance),
            r ==> final(self)@ == (RendererView {
                position: walked(old(self)@.position, direction, distance),
                ..old(self)@
            }),
            !r ==> final(self)@ == old(self)@,
            final(self)@.wf(),
    {
        proof {
            lemma_product_bound(direction.0 as int, distance as int);
            lemma_product_bound(direction.1 as int, distance as int);
        }
        let dx = direction.0 as i128 * distance as i128;
        let dy = direction.1 as i128 * distance as i128;
        if dx < i64::MIN as i128 || dx > i64::MAX as i128 || dy < i64::MIN as i128 || dy
            > i64::MAX as i128 {
            return false;
        }
        let x = self.position.0 as i128 + dx;
        let y = self.position.1 as i128 + dy;
        if x < i64::MIN as i128 || x > i64::MAX as i128 || y < i64::MIN as i128 || y
            > i64::MAX as i128 {
            return false;
        }
        let w = self.options.viewport_width as i128;
        let h = self.options.viewport_height as i128;
        if x + w - 1 > i64::MAX as i128 || y - (h - 1) < i64::MIN as i128 {
            return false;
        }
        self.walk(direction, distance);
        true
    }

    /// Adds a shape to the scene; it is drawn from the next `render` on.
    pub fn add_shape(&mut self, shape: Shape)
        requires
            old(self)@.wf(),
            shape.wf(),
        ensures
            final(self)@ == (RendererView { shapes: old(self)@.shapes.push(shape), ..old(self)@ }),
            final(self)@.wf(),
    {
        self.drawables.push(shape);
        proof {
            assert forall|i: int| 0 <= i < self@.shapes.len() implies #[trigger] self@.shapes[i].wf() by {
                if i < old(self)@.shapes.len() {
                    assert(self@.shapes[i] == old(self)@.shapes[i]);
                }
            }
        }
    }

    /// The world point shown in column `point.0`, row `point.1`.
    pub fn global_position_of(&self, point: &Vector2<usize>) -> (r: Vector2<i64>)
        requires
            self@.wf(),
            point.0 < self@.width,
            point.1 < self@.height,
        ensures
            r == world_point(self@.position, point.0 as int, point.1 as int),
    {
        Vector2(self.position.0 + point.0 as i64, self.position.1 - point.1 as i64)
    }

    /// The row-major index of the cell in column `point.0`, row `point.1`.
    pub fn index_of(&self, point: &Vector2<usize>) -> (r: usize)
        requires
            self@.wf(),
            point.0 < self@.width,
            point.1 < self@.height,
        ensures
            r == point.0 + point.1 * self@.width,
    {
        proof {
            lemma_row_bounds(point.1 as int, point.0 as int, self@.width as int, self@.height as int);
        }
        point.0 + point.1 * self.options.viewport_width
    }

    /// Every cell of the viewport as `(column, row)`, row by row.
    pub fn local_pixels(&self) -> (r: Vec<Vector2<usize>>)
        requires
            self@.wf(),
        ensures
            r@.len() == self@.width * self@.height,
            forall|i: int|
                0 <= i < r@.len() ==> #[trigger] r@[i] == Vector2(
                    (i % (self@.width as int)) as usize,
                    (i / (self@.width as int)) as usize,
                ),
    {
        let w = self.options.viewport_width;
        let total = w * self.options.viewport_height;
        let mut pixels: Vec<Vector2<usize>> = Vec::with_capacity(total);
        let mut k: usize = 0;
        while k < total
            invariant
                self@.wf(),
                w == self@.width,
                total == self@.width * self@.height,
                k <= total,
                pixels@.len() == k,
                forall|i: int|
                    0 <= i < k ==> #[trigger] pixels@[i] == Vector2(
                        (i % (w as int)) as usize,
                        (i / (w as int)) as usize,
                    ),
            decreases total - k,
        {
            pixels.push(Vector2(k % w, k / w));
            k += 1;
        }
        pixels
    }

    /// The world point of every cell of the viewport, row by row.
    pub fn global_pixels(&self) -> (r: Vec<Vector2<i64>>)
        requires
            self@.wf(),
        ensures
            r@.len() == self@.width * self@.height,
            forall|i: int|
                0 <= i < r@.len() ==> #[trigger] r@[i] == world_point(
                    self@.position,
                    i % (self@.width as int),
                    i / (self@.width as int),
                ),
    {
        let local = self.local_pixels();
        let mut pixels: Vec<Vector2<i64>> = Vec::with_capacity(local.len());
        let mut k: usize = 0;
        while k < local.len()
            invariant
                self@.wf(),
                local@.len() == self@.width * self@.height,
                forall|i: int|
                    0 <= i < local@.len() ==> #[trigger] local@[i] == Vector2(
                        (i % (self@.width as int)) as usize,
                        (i / (self@.width as int)) as usize,
                    ),
                k <= local@.len(),
                pixels@.len() == k,
                forall|i: int|
                    0 <= i < k ==> #[trigger] pixels@[i] == world_point(
                        self@.position,
                        i % (self@.width as int),
                        i / (self@.width as int),
                    ),
            decreases local@.len() - k,
        {
            proof {
                lemma_cell_in_viewport(k as int, self@.width as int, self@.height as int);
            }
            pixels.push(self.global_position_of(&local[k]));
            k += 1;
        }
        pixels
    }

    /// Draws the scene into the buffer: every cell becomes `#` if some shape
    /// holds its world point and a space otherwise. Shapes whose bounding
    /// boxes miss the camera are skipped, which changes nothing.
    pub fn render(&mut self)
        requires
            old(self)@.wf(),
        ensures
            final(self)@ == (RendererView { buffer: old(self)@.frame(), ..old(self)@ }),
            final(self)@.wf(),
    {
        let ghost cam = self@.camera_rect();
        let ghost pred = |s: Shape| cam.overlaps(s.bbox_spec());
        let n = self.drawables.len();
        let mut kept: Vec<Shape> = Vec::new();
        let mut i: usize = 0;
        while i < n
            invariant
                self@ == old(self)@,
                self@.wf(),
                n == self@.shapes.len(),
                i <= n,
                cam == self@.camera_rect(),
                pred == (|s: Shape| cam.overlaps(s.bbox_spec())),
                kept@ == self@.shapes.take(i as int).filter(pred),
            decreases n - i,
        {
            let b = self.drawables[i].bounding_box();
            let keep = self.collides_with_rect(&b);
            if keep {
                kept.push(self.drawables[i]);
            }
            proof {
                reveal(Seq::filter);
                let t = self@.shapes.take(i + 1);
                assert(t.drop_last() =~= self@.shapes.take(i as int));
                assert(t.last() == self@.shapes[i as int]);
                assert(t.filter(pred) == if pred(t.last()) {
                    t.drop_last().filter(pred).push(t.last())
                } else {
                    t.drop_last().filter(pred)
                });
                assert(pred(t.last()) == keep);
            }
            i += 1;
        }
        assert(self@.shapes.take(n as int) =~= self@.shapes);
        let w = self.options.viewport_width;
        let h = self.options.viewport_height;
        let total = w * h;
        let ghost culled_frame = frame(self@.width, self@.height, self@.position, kept@);
        let mut k: usize = 0;
        while k < total
            invariant
                self@ == (RendererView { buffer: self@.buffer, ..old(self)@ }),
                old(self)@.wf(),
                w == self@.width,
                h == self@.height,
                total == w * h,
                self@.buffer.len() == total,
                k <= total,
                cam == self@.camera_rect(),
                kept@ == culled(self@.shapes, cam),
                culled_frame == frame(self@.width, self@.height, self@.position, kept@),
                forall|j: int| 0 <= j < k ==> self@.buffer[j] == culled_frame[j],
            decreases total - k,
        {
            proof {
                lemma_cell_in_viewport(k as int, w as int, h as int);
            }
            let p = self.global_position_of(&Vector2(k % w, k / w));
            let c = if any_contains(&kept, &p) {
                '#'
            } else {
                ' '
            };
            self.buffer.set(k, c);
            k += 1;
        }
        proof {
            lemma_culling_equivalence(old(self)@);
            assert(self@.buffer =~= old(self)@.frame());
        }
    }

    /// The buffer cut into `height` rows of `width` characters, top row first.
    pub fn lines(&self) -> (r: Vec<String>)
        requires
            self@.wf(),
        ensures
            r@.len() == self@.height,
            forall|y: int| 0 <= y < self@.height ==> (#[trigger] r@[y])@ == self@.row(y),
    {
        let w = self.options.viewport_width;
        let h = self.options.viewport_height;
        let mut rows: Vec<String> = Vec::new();
        let mut y: usize = 0;
        while y < h
            invariant
                self@.wf(),
                w == self@.width,
                h == self@.height,
                y <= h,
                rows@.len() == y,
                forall|j: int| 0 <= j < y ==> (#[trigger] rows@[j])@ == self@.row(j),
            decreases h - y,
        {
            let mut line = String::new();
            let mut x: usize = 0;
            proof {
                lemma_row_bounds(y as int, 0, w as int, h as int);
                assert(line@ =~= self@.buffer.subrange(y * w, y * w + x));
                assert(line@ =~= spaced(self@.buffer.subrange(y * w, y * w + x)));
            }
            while x < w
                invariant
                    self@.wf(),
                    w == self@.width,
                    h == self@.height,
                    y < h,
                    x <= w,
                    y * w + w <= w * h,
                    line@ == self@.buffer.subrange(y * w, y * w + x),
                decreases w - x,
            {
                proof {
                    lemma_row_bounds(y as int, x as int, w as int, h as int);
                }
                push_char(&mut line, self.buffer[y * w + x]);
                x += 1;
                assert(line@ =~= self@.buffer.subrange(y * w, y * w + x));
            }
            rows.push(line);
            y += 1;
        }
        rows
    }

    /// Each row of the buffer with a space after every character, as a
    /// terminal shows it to make the cells look square.
    pub fn display_lines(&self) -> (r: Vec<String>)
        requires
            self@.wf(),
        ensures
            r@.len() == self@.height,
            forall|y: int| 0 <= y < self@.height ==> (#[trigger] r@[y])@ == spaced(self@.row(y)),
    {
        let w = self.options.viewport_width;
        let h = self.options.viewport_height;
        let mut rows: Vec<String> = Vec::new();
        let mut y: usize = 0;
        while y < h
            invariant
                self@.wf(),
                w == self@.width,
                h == self@.height,
                y <= h,
                rows@.len() == y,
                forall|j: int| 0 <= j < y ==> (#[trigger] rows@[j])@ == spaced(self@.row(j)),
            decreases h - y,
        {
            let mut line = String::new();
            let mut x: usize = 0;
            proof {
                lemma_row_bounds(y as int, 0, w as int, h as int);
                assert(line@ =~= self@.buffer.subrange(y * w, y * w + x));
                assert(line@ =~= spaced(self@.buffer.subrange(y * w, y * w + x)));
            }
            while x < w
                invariant
                    self@.wf(),
                    w == self@.width,
                    h == self@.height,
                    y < h,
                    x <= w,
                    y * w + w <= w * h,
                    line@ == spaced(self@.buffer.subrange(y * w, y * w + x)),
                decreases w - x,
            {
                proof {
                    lemma_row_bounds(y as int, x as int, w as int, h as int);
                }
                push_char(&mut line, self.buffer[y * w + x]);
                push_char(&mut line, ' ');
                x += 1;
                assert(line@ =~= spaced(self@.buffer.subrange(y * w, y * w + x)));
            }
            rows.push(line);
            y += 1;
        }
        rows
    }
}

/// Relies on `String::push`: appends one character at the end.
#[verifier::external_body]
fn push_char(s: &mut String, c: char)
    ensures
        final(s)@ == old(s)@.push(c),
{
    s.push(c);
}

} // verus!
