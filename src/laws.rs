//! Properties that relate the operations of a buffered display.
use vstd::prelude::*;
use crate::buffered_graphics::{lemma_flush_window, lemma_page_end, lemma_page_span};
use crate::geometry::Geometry;
use crate::model::{
    DisplayModel, after_flush, buffer_window, clear_spec, covers_picture, flush_output, fresh, page_count,
    planned_transfer, read_bit, set_pixel_spec, set_pixels_spec, set_rotation_spec, write_bit,
};
use crate::rotation::{DisplayRotation, in_picture, lemma_page_index_in_buffer, pixel_location};

verus! {

/// Writing bit `bit` and reading it back gives the value written.
proof fn lemma_bit_round_trip(b: u8, bit: u8, v: bool)
    requires
        bit < 8,
    ensures
        read_bit(write_bit(b, bit, v), bit) == v,
        write_bit(write_bit(b, bit, v), bit, v) == write_bit(b, bit, v),
{
    let one = 1u8;
    let zero = 0u8;
    assert(((b & !(1u8 << bit)) | (one << bit)) >> bit & 1u8 == 1u8) by (bit_vector)
        requires
            bit < 8,
            one == 1u8,
    ;
    assert(((b & !(1u8 << bit)) | (zero << bit)) >> bit & 1u8 == 0u8) by (bit_vector)
        requires
            bit < 8,
            zero == 0u8,
    ;
    assert(((((b & !(1u8 << bit)) | (one << bit)) & !(1u8 << bit)) | (one << bit)) == ((b & !(
    1u8 << bit)) | (one << bit))) by (bit_vector)
        requires
            bit < 8,
            one == 1u8,
    ;
    assert(((((b & !(1u8 << bit)) | (zero << bit)) & !(1u8 << bit)) | (zero << bit)) == ((b
        & !(1u8 << bit)) | (zero << bit))) by (bit_vector)
        requires
            bit < 8,
            zero == 0u8,
    ;
}

/// The pixel mapping of a coordinate on the picture lands inside the buffer.
proof fn lemma_location_in_buffer(d: DisplayModel, x: int, y: int)
    requires
        d.wf(),
        in_picture(d.geometry, d.rotation, x, y),
    ensures
        0 <= pixel_location(d.geometry, d.rotation, x, y).0 < d.buffer.len(),
        0 <= pixel_location(d.geometry, d.rotation, x, y).1 < 8,
{
    let g = d.geometry;
    lemma_page_index_in_buffer(g.width as int, g.height as int, x, y);
    lemma_page_index_in_buffer(g.width as int, g.height as int, y, x);
}

/// Setting a pixel keeps the display well formed and its configuration unchanged.
pub proof fn lemma_set_pixel_wf(d: DisplayModel, x: u32, y: u32, v: bool)
    requires
        d.wf(),
    ensures
        set_pixel_spec(d, x, y, v).wf(),
        set_pixel_spec(d, x, y, v).geometry == d.geometry,
        set_pixel_spec(d, x, y, v).rotation == d.rotation,
{
    if in_picture(d.geometry, d.rotation, x as int, y as int) {
        lemma_location_in_buffer(d, x as int, y as int);
    }
}

/// Reading back a pixel through the pixel mapping after setting it on the picture gives the
/// value written, and setting a coordinate off the picture leaves the buffer byte for byte
/// as it was.
pub proof fn lemma_set_pixel_reads_back(d: DisplayModel, x: u32, y: u32, v: bool)
    requires
        d.wf(),
    ensures
        in_picture(d.geometry, d.rotation, x as int, y as int) ==> set_pixel_spec(
            d,
            x,
            y,
            v,
        ).pixel(x as int, y as int) == v,
        !in_picture(d.geometry, d.rotation, x as int, y as int) ==> set_pixel_spec(
            d,
            x,
            y,
            v,
        ).buffer == d.buffer,
{
    if in_picture(d.geometry, d.rotation, x as int, y as int) {
        lemma_location_in_buffer(d, x as int, y as int);
        let loc = pixel_location(d.geometry, d.rotation, x as int, y as int);
        lemma_bit_round_trip(d.buffer[loc.0], loc.1 as u8, v);
    }
}

/// Writing one bit leaves the other bits of the byte as they were.
proof fn lemma_bit_others(b: u8, bit: u8, other: u8, v: bool)
    requires
        bit < 8,
        other < 8,
        bit != other,
    ensures
        read_bit(write_bit(b, bit, v), other) == read_bit(b, other),
{
    let one = 1u8;
    let zero = 0u8;
    assert((((b & !(1u8 << bit)) | (one << bit)) >> other) & 1u8 == (b >> other) & 1u8)
        by (bit_vector)
        requires
            bit < 8,
            other < 8,
            bit != other,
            one == 1u8,
    ;
    assert((((b & !(1u8 << bit)) | (zero << bit)) >> other) & 1u8 == (b >> other) & 1u8)
        by (bit_vector)
        requires
            bit < 8,
            other < 8,
            bit != other,
            zero == 0u8,
    ;
}

/// Two distinct cells of a page-major grid `w` wide have distinct (byte, bit) places.
proof fn lemma_cells_distinct(w: int, c: int, p: int, c2: int, p2: int)
    requires
        0 <= c < w,
        0 <= c2 < w,
        0 <= p,
        0 <= p2,
        (c, p) != (c2, p2),
    ensures
        (p / 8) * w + c != (p2 / 8) * w + c2 || p % 8 != p2 % 8,
{
    if (p / 8) * w + c == (p2 / 8) * w + c2 && p % 8 == p2 % 8 {
        let a = p / 8;
        let b = p2 / 8;
        assert(a == b) by (nonlinear_arith)
            requires
                a * w + c == b * w + c2,
                0 <= c < w,
                0 <= c2 < w,
                0 <= a,
                0 <= b,
        ;
        assert(c == c2);
        assert(p == p2);
    }
}

/// Setting one pixel leaves every other pixel of the picture as it was.
pub proof fn lemma_set_pixel_keeps_others(d: DisplayModel, x: u32, y: u32, v: bool, x2: int, y2: int)
    requires
        d.wf(),
        in_picture(d.geometry, d.rotation, x2, y2),
        (x2, y2) != (x as int, y as int),
    ensures
        set_pixel_spec(d, x, y, v).pixel(x2, y2) == d.pixel(x2, y2),
{
    if in_picture(d.geometry, d.rotation, x as int, y as int) {
        lemma_location_in_buffer(d, x as int, y as int);
        lemma_location_in_buffer(d, x2, y2);
        let g = d.geometry;
        let loc = pixel_location(g, d.rotation, x as int, y as int);
        let loc2 = pixel_location(g, d.rotation, x2, y2);
        if d.rotation.swaps_axes() {
            lemma_cells_distinct(g.width as int, y as int, x as int, y2, x2);
        } else {
            lemma_cells_distinct(g.width as int, x as int, y as int, x2, y2);
        }
        if loc.0 == loc2.0 {
            lemma_bit_others(d.buffer[loc.0], loc.1 as u8, loc2.1 as u8, v);
        }
    }
}

/// Setting the same pixel to the same value twice has the effect of setting it once.
pub proof fn lemma_set_pixel_idempotent(d: DisplayModel, x: u32, y: u32, v: bool)
    requires
        d.wf(),
    ensures
        set_pixel_spec(set_pixel_spec(d, x, y, v), x, y, v) == set_pixel_spec(d, x, y, v),
{
    if in_picture(d.geometry, d.rotation, x as int, y as int) {
        lemma_location_in_buffer(d, x as int, y as int);
        let loc = pixel_location(d.geometry, d.rotation, x as int, y as int);
        lemma_bit_round_trip(d.buffer[loc.0], loc.1 as u8, v);
        let e = set_pixel_spec(d, x, y, v);
        assert(e.buffer.update(loc.0, write_bit(e.buffer[loc.0], loc.1 as u8, v)) =~= e.buffer);
        assert(set_pixel_spec(e, x, y, v) =~= e);
    }
}

/// A new display, a cleared one and one whose rotation changed are dirty over the whole
/// picture.
pub proof fn lemma_reset_marks_whole_picture(
    g: Geometry,
    r: DisplayRotation,
    d: DisplayModel,
    v: bool,
    s: DisplayRotation,
)
    requires
        g.wf(),
        d.wf(),
    ensures
        covers_picture(fresh(g, r)),
        fresh(g, r).wf(),
        covers_picture(clear_spec(d, v)),
        clear_spec(d, v).wf(),
        covers_picture(set_rotation_spec(d, s)),
        set_rotation_spec(d, s).wf(),
{
}

/// A flush leaves the display clean, and a second flush with no writes in between sends
/// nothing.
pub proof fn lemma_second_flush_sends_nothing(d: DisplayModel)
    requires
        d.wf(),
    ensures
        after_flush(d).wf(),
        after_flush(d).is_clean(),
        flush_output(after_flush(d)) is None,
        after_flush(after_flush(d)) == after_flush(d),
{
}

/// Point `i` of `pts` lies on the picture of `d`, so setting it widens the dirty region.
pub open spec fn touches(d: DisplayModel, pts: Seq<(u32, u32, bool)>, i: int) -> bool {
    in_picture(d.geometry, d.rotation, pts[i].0 as int, pts[i].1 as int)
}

/// Some point of `pts` lies on the picture.
pub open spec fn touches_any(d: DisplayModel, pts: Seq<(u32, u32, bool)>) -> bool {
    exists|i: int| 0 <= i < pts.len() && #[trigger] touches(d, pts, i)
}

/// The box `e` holds every point of `pts` that lies on the picture.
pub open spec fn box_holds_touched(d: DisplayModel, pts: Seq<(u32, u32, bool)>, e: DisplayModel) -> bool {
    forall|i: int|
        0 <= i < pts.len() && #[trigger] touches(d, pts, i) ==> e.min_x <= pts[i].0 <= e.max_x
            && e.min_y <= pts[i].1 <= e.max_y
}

/// Each bound of the box `e` is a coordinate of some point of `pts` on the picture.
pub open spec fn box_bounds_attained(d: DisplayModel, pts: Seq<(u32, u32, bool)>, e: DisplayModel) -> bool {
    &&& exists|i: int| 0 <= i < pts.len() && #[trigger] touches(d, pts, i) && pts[i].0 == e.min_x
    &&& exists|i: int| 0 <= i < pts.len() && #[trigger] touches(d, pts, i) && pts[i].0 == e.max_x
    &&& exists|i: int| 0 <= i < pts.len() && #[trigger] touches(d, pts, i) && pts[i].1 == e.min_y
    &&& exists|i: int| 0 <= i < pts.len() && #[trigger] touches(d, pts, i) && pts[i].1 == e.max_y
}

/// Starting clean, the dirty region after a sequence of pixel writes is the tight bounding
/// box of the written coordinates that lie on the picture: it holds each of them, each of
/// its bounds is one of them, and it stays empty when none lies on the picture.
pub proof fn lemma_dirty_is_bounding_box(d: DisplayModel, pts: Seq<(u32, u32, bool)>)
    requires
        d.wf(),
        d.is_clean(),
    ensures
        set_pixels_spec(d, pts).wf(),
        set_pixels_spec(d, pts).geometry == d.geometry,
        set_pixels_spec(d, pts).rotation == d.rotation,
        box_holds_touched(d, pts, set_pixels_spec(d, pts)),
        touches_any(d, pts) ==> box_bounds_attained(d, pts, set_pixels_spec(d, pts)),
        !touches_any(d, pts) ==> set_pixels_spec(d, pts).is_clean(),
    decreases pts.len(),
{
    if pts.len() == 0 {
        return;
    }
    let n = pts.len() - 1;
    let q = pts.drop_last();
    let p = pts.last();
    lemma_dirty_is_bounding_box(d, q);
    let e0 = set_pixels_spec(d, q);
    let e = set_pixels_spec(d, pts);
    lemma_set_pixel_wf(e0, p.0, p.1, p.2);
    assert(e == set_pixel_spec(e0, p.0, p.1, p.2));
    assert(forall|i: int| 0 <= i < n ==> pts[i] == q[i]);
    assert(forall|i: int| 0 <= i < n ==> touches(d, pts, i) == touches(d, q, i));
    if !touches(d, pts, n) {
        assert(e == e0);
        if touches_any(d, pts) {
            let i = choose|i: int| 0 <= i < pts.len() && #[trigger] touches(d, pts, i);
            assert(touches(d, q, i));
            assert(touches_any(d, q));
            let a = choose|i: int| 0 <= i < q.len() && #[trigger] touches(d, q, i) && q[i].0 == e0.min_x;
            let b = choose|i: int| 0 <= i < q.len() && #[trigger] touches(d, q, i) && q[i].0 == e0.max_x;
            let c = choose|i: int| 0 <= i < q.len() && #[trigger] touches(d, q, i) && q[i].1 == e0.min_y;
            let f = choose|i: int| 0 <= i < q.len() && #[trigger] touches(d, q, i) && q[i].1 == e0.max_y;
            assert(touches(d, pts, a) && touches(d, pts, b) && touches(d, pts, c) && touches(d, pts, f));
        } else {
            assert forall|i: int| 0 <= i < q.len() implies !touches(d, q, i) by {
                if touches(d, q, i) {
                    assert(touches(d, pts, i));
                }
            }
        }
    } else {
        assert(touches_any(d, pts)) by {
            assert(touches(d, pts, n));
        }
        if touches_any(d, q) {
            let a = choose|i: int| 0 <= i < q.len() && #[trigger] touches(d, q, i) && q[i].0 == e0.min_x;
            let b = choose|i: int| 0 <= i < q.len() && #[trigger] touches(d, q, i) && q[i].0 == e0.max_x;
            let c = choose|i: int| 0 <= i < q.len() && #[trigger] touches(d, q, i) && q[i].1 == e0.min_y;
            let f = choose|i: int| 0 <= i < q.len() && #[trigger] touches(d, q, i) && q[i].1 == e0.max_y;
            assert(touches(d, pts, a) && touches(d, pts, b) && touches(d, pts, c) && touches(d, pts, f));
            assert(touches(d, pts, n));
        } else {
            assert(e0.is_clean());
            assert(touches(d, pts, n));
            assert forall|i: int| 0 <= i < pts.len() && #[trigger] touches(d, pts, i) implies i == n by {
                if i < n {
                    assert(touches(d, q, i));
                }
            }
        }
    }
}

/// Total number of bytes in a run of data writes.
pub open spec fn total_len(chunks: Seq<Seq<u8>>) -> int
    decreases chunks.len(),
{
    if chunks.len() == 0 {
        0
    } else {
        total_len(chunks.drop_last()) + chunks.last().len()
    }
}

/// Spans that all have length `l` add up to `l` times their number.
proof fn lemma_total_len_uniform(chunks: Seq<Seq<u8>>, l: int)
    requires
        forall|k: int| 0 <= k < chunks.len() ==> (#[trigger] chunks[k]).len() == l,
    ensures
        total_len(chunks) == chunks.len() * l,
    decreases chunks.len(),
{
    if chunks.len() > 0 {
        let q = chunks.drop_last();
        assert(forall|k: int| 0 <= k < q.len() ==> q[k] == chunks[k]);
        lemma_total_len_uniform(q, l);
        assert(chunks.len() * l == q.len() * l + l) by (nonlinear_arith)
            requires
                chunks.len() == q.len() + 1,
        ;
    }
}

/// Each planned data write is one page row cut to the dirty columns.
proof fn lemma_chunk_lengths(d: DisplayModel)
    requires
        d.wf(),
        !d.is_clean(),
    ensures
        forall|k: int|
            0 <= k < planned_transfer(d).chunks.len() ==> (#[trigger] planned_transfer(
                d,
            ).chunks[k]).len() == buffer_window(d).1.0 - buffer_window(d).0.0,
        planned_transfer(d).chunks.len() == page_count(buffer_window(d).0.1, buffer_window(d).1.1),
{
    lemma_flush_window(d);
    let w = buffer_window(d);
    let rl = d.geometry.width as int;
    let first = w.0.1 / 8;
    let n = page_count(w.0.1, w.1.1);
    assert forall|k: int| 0 <= k < n implies (#[trigger] planned_transfer(d).chunks[k]).len() == w.1.0
        - w.0.0 by {
        assert((first + k) * rl + rl <= (first + n) * rl) by (nonlinear_arith)
            requires
                0 <= k < n,
                0 <= rl,
        ;
        assert(0 <= (first + k) * rl) by (nonlinear_arith)
            requires
                0 <= k,
                0 <= first,
                0 <= rl,
        ;
    }
}

/// The bytes a flush streams number exactly the touched pages times the touched columns,
/// whatever sequence of writes produced the dirty region: on a page-major buffer (no
/// rotation or half a turn) pages follow rows and columns follow x, and with a quarter
/// turn the two trade places.
pub proof fn lemma_flush_length(d: DisplayModel)
    requires
        d.wf(),
        !d.is_clean(),
    ensures
        flush_output(d) is Some,
        !d.rotation.swaps_axes() ==> total_len(planned_transfer(d).chunks) == (d.max_y / 8
            - d.min_y / 8 + 1) * (d.max_x - d.min_x + 1),
        d.rotation.swaps_axes() ==> total_len(planned_transfer(d).chunks) == (d.max_x / 8
            - d.min_x / 8 + 1) * (d.max_y - d.min_y + 1),
{
    lemma_flush_window(d);
    lemma_chunk_lengths(d);
    let g = d.geometry;
    let w = buffer_window(d);
    lemma_total_len_uniform(planned_transfer(d).chunks, w.1.0 - w.0.0);
    if d.rotation.swaps_axes() {
        lemma_page_span(d.min_x, d.max_x, g.height, g.width);
        lemma_page_end(d.max_x, g.height);
    } else {
        lemma_page_span(d.min_y, d.max_y, g.height, g.width);
        lemma_page_end(d.max_y, g.height);
    }
}

/// After a rotation change with no writes since the last flush, the next flush sends the
/// whole buffer: every page row, each in full, in buffer order.
pub proof fn lemma_rotation_change_repaints_all(d: DisplayModel, r: DisplayRotation)
    requires
        d.wf(),
    ensures
        flush_output(set_rotation_spec(after_flush(d), r)) is Some,
        planned_transfer(set_rotation_spec(after_flush(d), r)).chunks.len() == d.geometry.height
            / 8,
        forall|k: int|
            0 <= k < d.geometry.height / 8 ==> #[trigger] planned_transfer(
                set_rotation_spec(after_flush(d), r),
            ).chunks[k] == d.buffer.subrange(
                k * d.geometry.width,
                (k + 1) * d.geometry.width,
            ),
        total_len(planned_transfer(set_rotation_spec(after_flush(d), r)).chunks)
            == d.buffer.len(),
{
    let e = set_rotation_spec(after_flush(d), r);
    let g = d.geometry;
    let h = g.height;
    let last = (h - 1) as u8;
    lemma_page_end(last, h);
    assert((last | 7u8) == last) by (nonlinear_arith)
        requires
            (last | 7u8) / 8 == last / 8,
            (last | 7u8) % 8 == 7,
            last % 8 == 7,
    ;
    assert(last % 8 == 7 && last / 8 + 1 == h / 8) by (nonlinear_arith)
        requires
            last == h - 1,
            h % 8 == 0,
            h > 0,
    ;
    lemma_flush_length(e);
    lemma_chunk_lengths(e);
    assert(h / 8 * g.width == g.buffer_size) by (nonlinear_arith)
        requires
            h % 8 == 0,
            g.buffer_size == g.width * h / 8,
    ;
    assert forall|k: int| 0 <= k < h / 8 implies #[trigger] planned_transfer(e).chunks[k]
        == d.buffer.subrange(k * g.width, (k + 1) * g.width) by {
        assert((k + 1) * g.width == k * g.width + g.width) by (nonlinear_arith);
    }
}

} // verus!
