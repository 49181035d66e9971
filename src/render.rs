//! Assembly of the pixel buffer from a grid of iteration counts.

use vstd::prelude::*;

use crate::canvas::Dimensions;
use crate::colour::{pixel_spec, push_pixel, ByteOrder, Colour};

verus! {

/// Why a render request was refused. No buffer is produced in any of these
/// cases.
#[derive(Clone, Copy, Debug, PartialEq, Eq, Structural)]
pub enum RenderError {
    /// The canvas is narrower or lower than two pixels.
    CanvasTooSmall,
    /// On one of the axes the range's minimum is not below its maximum.
    EmptyWindow,
    /// The palette has no entry for some count from zero to the iteration cap.
    PaletteTooShort,
    /// The grid of counts does not hold one count for each pixel of the canvas.
    GridMismatch,
    /// A count in the grid lies above the iteration cap.
    CountOutOfRange,
}

/// The first precondition of a render request that fails, in the order: canvas
/// size, plane window, palette length.
pub open spec fn request_error(
    dims: Dimensions,
    window_ordered: bool,
    max_iters: u32,
    palette_len: nat,
) -> Option<RenderError> {
    if !dims.is_drawable() {
        Some(RenderError::CanvasTooSmall)
    } else if !window_ordered {
        Some(RenderError::EmptyWindow)
    } else if palette_len <= max_iters {
        Some(RenderError::PaletteTooShort)
    } else {
        None
    }
}

/// Checks a render request before any count is computed: the canvas must be at
/// least two pixels wide and high, the plane window must be ordered on both
/// axes, and the palette must have an entry for each count from zero to
/// `max_iters`.
pub fn check_request(dims: &Dimensions, window_ordered: bool, max_iters: u32, palette_len: usize) -> (r:
    Result<(), RenderError>)
    ensures
        r == (match request_error(*dims, window_ordered, max_iters, palette_len as nat) {
            Some(e) => Err(e),
            None => Ok(()),
        }),
{
    if dims.width < 2 || dims.height < 2 {
        Err(RenderError::CanvasTooSmall)
    } else if !window_ordered {
        Err(RenderError::EmptyWindow)
    } else if palette_len <= max_iters as usize {
        Err(RenderError::PaletteTooShort)
    } else {
        Ok(())
    }
}

/// The bytes of the pixels whose counts are `counts`, in the same order: each
/// count selects its palette entry, which gives four bytes.
pub open spec fn image_spec(counts: Seq<u32>, palette: Seq<Colour>, order: ByteOrder) -> Seq<u8>
    decreases counts.len(),
{
    if counts.len() == 0 {
        Seq::empty()
    } else {
        image_spec(counts.drop_last(), palette, order) + pixel_spec(
            palette[counts.last() as int],
            order,
        )
    }
}

/// Some count of the grid lies above the cap.
pub open spec fn has_count_above(counts: Seq<u32>, max_iters: u32) -> bool {
    exists|p: int| 0 <= p < counts.len() && #[trigger] counts[p] > max_iters
}

/// What rendering the row-major grid `counts` on a canvas of `dims` gives.
pub open spec fn render_spec(
    dims: Dimensions,
    counts: Seq<u32>,
    max_iters: u32,
    palette: Seq<Colour>,
    order: ByteOrder,
) -> Result<Seq<u8>, RenderError> {
    match request_error(dims, true, max_iters, palette.len()) {
        Some(e) => Err(e),
        None => if counts.len() != dims.pixel_count() {
            Err(RenderError::GridMismatch)
        } else if has_count_above(counts, max_iters) {
            Err(RenderError::CountOutOfRange)
        } else {
            Ok(image_spec(counts, palette, order))
        },
    }
}

/// `r` is the outcome of rendering `counts` as `render_spec` gives it.
pub open spec fn renders_as(
    r: Result<Vec<u8>, RenderError>,
    dims: Dimensions,
    counts: Seq<u32>,
    max_iters: u32,
    palette: Seq<Colour>,
    order: ByteOrder,
) -> bool {
    match r {
        Ok(buffer) => render_spec(dims, counts, max_iters, palette, order) == Ok::<
            Seq<u8>,
            RenderError,
        >(buffer@),
        Err(e) => render_spec(dims, counts, max_iters, palette, order) == Err::<
            Seq<u8>,
            RenderError,
        >(e),
    }
}

/// Turns a row-major grid of iteration counts, one per pixel of `dims`, into an
/// RGBA pixel buffer: pixel `p` takes the bytes `4 * p .. 4 * p + 4`, which
/// `pixel_spec` gives for the palette entry of its count.
pub fn render_counts(
    dims: &Dimensions,
    counts: &Vec<u32>,
    max_iters: u32,
    palette: &Vec<Colour>,
    order: ByteOrder,
) -> (r: Result<Vec<u8>, RenderError>)
    ensures
        renders_as(r, *dims, counts@, max_iters, palette@, order),
{
    match check_request(dims, true, max_iters, palette.len()) {
        Err(e) => {
            return Err(e);
        },
        Ok(()) => {},
    }
    let width: u64 = dims.width as u64;
    let height: u64 = dims.height as u64;
    assert(width * height <= u64::MAX) by (nonlinear_arith)
        requires
            width <= u32::MAX,
            height <= u32::MAX,
    ;
    let pixels: u64 = width * height;
    if counts.len() as u64 != pixels {
        return Err(RenderError::GridMismatch);
    }
    let mut buffer: Vec<u8> = Vec::new();
    let mut i: usize = 0;
    while i < counts.len()
        invariant
            i <= counts.len(),
            palette.len() > max_iters,
            request_error(*dims, true, max_iters, palette@.len()) is None,
            counts@.len() == dims.pixel_count(),
            forall|p: int| 0 <= p < i ==> #[trigger] counts@[p] <= max_iters,
            buffer@ == image_spec(counts@.take(i as int), palette@, order),
        decreases counts.len() - i,
    {
        let count = counts[i];
        if count > max_iters {
            assert(has_count_above(counts@, max_iters));
            return Err(RenderError::CountOutOfRange);
        }
        push_pixel(&mut buffer, palette[count as usize], order);
        assert(counts@.take(i + 1).drop_last() =~= counts@.take(i as int));
        i = i + 1;
    }
    assert(counts@.take(i as int) =~= counts@);
    Ok(buffer)
}


/// Layout of a rendered buffer: four bytes per count, and the bytes
/// `4 * p .. 4 * p + 4` are the pixel of the palette entry of count `p`.
pub proof fn lemma_image_layout(counts: Seq<u32>, palette: Seq<Colour>, order: ByteOrder)
    ensures
        image_spec(counts, palette, order).len() == 4 * counts.len(),
        forall|p: int|
            0 <= p < counts.len() ==> #[trigger] image_spec(counts, palette, order).subrange(
                4 * p,
                4 * p + 4,
            ) == pixel_spec(palette[counts[p] as int], order),
    decreases counts.len(),
{
    if counts.len() > 0 {
        let init = counts.drop_last();
        lemma_image_layout(init, palette, order);
        let front = image_spec(init, palette, order);
        let whole = image_spec(counts, palette, order);
        let last = pixel_spec(palette[counts.last() as int], order);
        assert(whole == front + last);
        assert forall|p: int| 0 <= p < counts.len() implies #[trigger] whole.subrange(
            4 * p,
            4 * p + 4,
        ) == pixel_spec(palette[counts[p] as int], order) by {
            if p < init.len() {
                assert(front.subrange(4 * p, 4 * p + 4) == pixel_spec(
                    palette[init[p] as int],
                    order,
                ));
                assert(whole.subrange(4 * p, 4 * p + 4) =~= front.subrange(4 * p, 4 * p + 4));
            } else {
                assert(whole.subrange(4 * p, 4 * p + 4) =~= last);
            }
        }
    }
}

/// Rendering depends on its inputs alone: two renders of the same counts on
/// the same canvas, with the same cap, palette and byte order, either both fail
/// with the same error or both give the same bytes.
pub proof fn lemma_render_idempotent(
    first: Result<Vec<u8>, RenderError>,
    second: Result<Vec<u8>, RenderError>,
    dims: Dimensions,
    counts: Seq<u32>,
    max_iters: u32,
    palette: Seq<Colour>,
    order: ByteOrder,
)
    requires
        renders_as(first, dims, counts, max_iters, palette, order),
        renders_as(second, dims, counts, max_iters, palette, order),
    ensures
        first is Ok <==> second is Ok,
        first is Ok ==> first->Ok_0@ == second->Ok_0@,
        first is Err ==> first == second,
{
}

/// A palette without an entry for every count from zero to the cap is refused
/// on any canvas of the allowed size, whatever the counts are.
pub proof fn lemma_short_palette_refused(
    dims: Dimensions,
    counts: Seq<u32>,
    max_iters: u32,
    palette: Seq<Colour>,
    order: ByteOrder,
)
    requires
        dims.is_drawable(),
        palette.len() < max_iters + 1,
    ensures
        render_spec(dims, counts, max_iters, palette, order) == Err::<Seq<u8>, RenderError>(
            RenderError::PaletteTooShort,
        ),
{
}

/// Every count that a successful render looked up lies between zero and the
/// cap, and so has its entry in the palette.
pub proof fn lemma_rendered_counts_in_range(
    dims: Dimensions,
    counts: Seq<u32>,
    max_iters: u32,
    palette: Seq<Colour>,
    order: ByteOrder,
)
    requires
        render_spec(dims, counts, max_iters, palette, order) is Ok,
    ensures
        forall|p: int|
            0 <= p < counts.len() ==> #[trigger] counts[p] <= max_iters && counts[p] < palette.len(),
{
}

} // verus!
