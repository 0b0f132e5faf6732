//! One slice of a run: from the answers for its cells to the file that holds
//! its image. Slice `i` belongs to the `i`-th sample of X and goes to the
//! `i`-th file; nothing of one slice depends on another.

use crate::codec::{encode_rgb8, png_rgb8};
use crate::grid::Grid;
use crate::naming::{path_of_slice, slice_path};
use crate::raster::{
    lemma_sampling_repeatable, pixels_of, render_slice, sampled, single_valued,
};
use vstd::prelude::*;
use vstd::string::StringExecFns;

verus! {

/// What went wrong with a slice.
#[derive(Clone, Copy, Debug, PartialEq, Eq, Structural)]
pub enum Failure {
    /// The file could not be created or written.
    Io,
    /// The image could not be encoded.
    Encoding,
}

/// The failure of one slice. It says nothing of the other slices of the run.
#[derive(Debug, PartialEq, Eq)]
pub struct SliceError {
    /// Index of the slice that failed.
    pub index: usize,
    /// The class of the failure.
    pub kind: Failure,
    /// What the encoder or the file system reported.
    pub detail: String,
}

/// The image of one slice, ready to be written.
#[derive(Debug, PartialEq, Eq)]
pub struct SliceFile {
    /// Where the image goes.
    pub path: String,
    /// The encoded image.
    pub bytes: Vec<u8>,
}

/// Whether this machine can hold and encode a slice of `grid`: the encoder
/// counts the bits of a row and the bytes of the image in `usize`.
pub open spec fn encodable(grid: Grid) -> bool {
    &&& 24 * grid.y() <= usize::MAX
    &&& 3 * grid.y() * grid.z() <= usize::MAX
}

/// What a slice error says of a slice that this machine cannot take.
pub open spec fn oversize_detail() -> Seq<char> {
    "slice too large for this machine"@
}

/// What the encoder makes of a slice of `grid` whose cells are classified by
/// `mask`: the encoded image, or `None` where it refuses. The image is
/// declared `grid.y()` pixels wide and `grid.z()` high, and its data is the
/// pixel buffer of the mask as it stands: the pixels of the image, counted
/// along its scanlines, are the cells of the mask in their order. Where the
/// two step counts are equal, scanline `j` holds the cells of the `j`-th
/// sample of Y.
pub open spec fn slice_image(grid: Grid, mask: Seq<bool>) -> Option<Seq<u8>> {
    png_rgb8(grid.y(), grid.z(), pixels_of(mask))
}

impl SliceError {
    /// The failure of slice `index` to encode.
    pub fn encoding(index: usize, detail: String) -> (e: SliceError)
        ensures
            e.index == index,
            e.kind == Failure::Encoding,
            e.detail@ == detail@,
    {
        SliceError { index, kind: Failure::Encoding, detail }
    }

    /// The failure to create or write the file of slice `index`.
    pub fn io(index: usize, detail: String) -> (e: SliceError)
        ensures
            e.index == index,
            e.kind == Failure::Io,
            e.detail@ == detail@,
    {
        SliceError { index, kind: Failure::Io, detail }
    }
}

impl SliceFile {
    /// The file of slice `index` with the given content.
    pub fn new(index: usize, bytes: Vec<u8>) -> (file: SliceFile)
        ensures
            file.path@ == path_of_slice(index as nat),
            file.bytes@ == bytes@,
    {
        SliceFile { path: slice_path(index), bytes }
    }
}

/// Tells whether a slice of `grid` can be encoded on this machine.
pub fn can_encode(grid: &Grid) -> (b: bool)
    ensures
        b == encodable(*grid),
{
    let width = grid.y_steps() as usize;
    let height = grid.z_steps() as usize;
    match width.checked_mul(24) {
        None => false,
        Some(_) => match width.checked_mul(height) {
            None => {
                assert(3 * (width * height) > usize::MAX);
                assert(3 * grid.y() * grid.z() == 3 * (width * height)) by (nonlinear_arith)
                    requires
                        grid.y() == width,
                        grid.z() == height,
                ;
                false
            },
            Some(cells) => {
                assert(3 * grid.y() * grid.z() == 3 * cells) by (nonlinear_arith)
                    requires
                        grid.y() == width,
                        grid.z() == height,
                        cells == width * height,
                ;
                cells.checked_mul(3).is_some()
            },
        },
    }
}

/// The error for slice `id` of a grid that this machine cannot take.
fn oversize(id: usize) -> (e: SliceError)
    ensures
        e.index == id,
        e.kind == Failure::Encoding,
        e.detail@ == oversize_detail(),
{
    SliceError::encoding(id, String::from_str("slice too large for this machine"))
}

/// Encodes the pixel buffer of slice `id` of `grid` as an RGB image of eight
/// bits a channel, declared `grid.y()` pixels wide and `grid.z()` high, and
/// names the file that it goes to.
///
/// It succeeds exactly where the machine can take a slice of this size and
/// the encoder makes a stream of the buffer; the file then holds that stream.
/// The encoder refuses a buffer that does not hold three bytes for each cell
/// of the slice.
pub fn encode_slice(id: usize, grid: &Grid, pixels: &Vec<u8>) -> (r: Result<SliceFile, SliceError>)
    ensures
        r is Ok <==> encodable(*grid) && png_rgb8(grid.y(), grid.z(), pixels@) is Some,
        r matches Ok(file) ==> file.path@ == path_of_slice(id as nat) && png_rgb8(
            grid.y(),
            grid.z(),
            pixels@,
        ) == Some(file.bytes@),
        r matches Err(e) ==> e.index == id && e.kind == Failure::Encoding,
        !encodable(*grid) ==> (r matches Err(e) && e.detail@ == oversize_detail()),
        pixels@.len() != 3 * (grid.y() * grid.z()) ==> r is Err,
{
    if !can_encode(grid) {
        return Err(oversize(id));
    }
    assert(3 * grid.y() * grid.z() == 3 * (grid.y() * grid.z())) by (nonlinear_arith);
    match encode_rgb8(grid.y_steps(), grid.z_steps(), pixels) {
        Ok(bytes) => Ok(SliceFile::new(id, bytes)),
        Err(e) => Err(SliceError::encoding(id, e.to_string())),
    }
}

/// `file` is a file that slice `id` of a run over `grid` can come out as: the
/// machine can take the slice, the file has the path of slice `id`, and its
/// bytes are the image of a mask that holds the answers of `inside` for the
/// cells of that slice.
pub open spec fn slice_outcome<F: Fn(usize, usize, usize) -> bool>(
    id: usize,
    grid: Grid,
    inside: F,
    file: SliceFile,
) -> bool {
    &&& encodable(grid)
    &&& file.path@ == path_of_slice(id as nat)
    &&& exists|mask: Seq<bool>|
        sampled(id, grid.y() as int, grid.z() as int, inside, mask) && slice_image(grid, mask)
            == Some(file.bytes@)
}

/// Slice `id` of a run over `grid` can fail: the machine cannot take a slice
/// of this size, or the encoder refuses the image of a mask that holds the
/// answers of `inside` for the cells of that slice.
pub open spec fn slice_refused<F: Fn(usize, usize, usize) -> bool>(
    id: usize,
    grid: Grid,
    inside: F,
) -> bool {
    ||| !encodable(grid)
    ||| exists|mask: Seq<bool>|
        sampled(id, grid.y() as int, grid.z() as int, inside, mask) && slice_image(grid, mask)
            is None
}

/// `r` is a result that slice `id` of a run over `grid` can come to: a file
/// that it can come out as, or an encoding failure of this slice where the
/// slice can fail.
pub open spec fn slice_result<F: Fn(usize, usize, usize) -> bool>(
    id: usize,
    grid: Grid,
    inside: F,
    r: Result<SliceFile, SliceError>,
) -> bool {
    match r {
        Ok(file) => slice_outcome(id, grid, inside, file),
        Err(e) => e.index == id && e.kind == Failure::Encoding && slice_refused(id, grid, inside),
    }
}

/// Computes slice `id` of `grid`: renders its pixel buffer from the answers
/// of `inside` for the points `(id, j, k)`, encodes it and names the file
/// that it goes to.
///
/// It succeeds exactly where the machine can take a slice of this size and
/// the encoder makes a stream of the rendered buffer.
pub fn compute_slice<F: Fn(usize, usize, usize) -> bool>(
    id: usize,
    grid: &Grid,
    inside: &F,
) -> (r: Result<SliceFile, SliceError>)
    requires
        forall|j: usize, k: usize|
            j < grid.y() && k < grid.z() ==> call_requires(inside, (id, j, k)),
    ensures
        r matches Ok(file) ==> slice_outcome(id, *grid, *inside, file),
        r matches Err(e) ==> e.index == id && e.kind == Failure::Encoding,
        r is Err ==> slice_refused(id, *grid, *inside),
        !encodable(*grid) ==> (r matches Err(e) && e.detail@ == oversize_detail()),
{
    if !can_encode(grid) {
        return Err(oversize(id));
    }
    let pixels = render_slice(id, grid, inside);
    let ghost mask = choose|mask: Seq<bool>|
        sampled(id, grid.y() as int, grid.z() as int, *inside, mask) && pixels@ == pixels_of(mask);
    let r = encode_slice(id, grid, &pixels);
    assert(sampled(id, grid.y() as int, grid.z() as int, *inside, mask));
    assert(r matches Ok(file) ==> slice_image(*grid, mask) == Some(file.bytes@));
    assert(r is Err ==> slice_image(*grid, mask) is None);
    r
}

/// Rendering a slice twice gives the same file. Where `inside` has only one
/// answer for each point, any two results of a slice succeed together or fail
/// together, and two files that come out have the same path and the same
/// bytes.
pub proof fn lemma_rendering_repeatable<F: Fn(usize, usize, usize) -> bool>(
    id: usize,
    grid: Grid,
    inside: F,
    first: Result<SliceFile, SliceError>,
    second: Result<SliceFile, SliceError>,
)
    requires
        slice_result(id, grid, inside, first),
        slice_result(id, grid, inside, second),
        single_valued(inside),
    ensures
        first is Ok <==> second is Ok,
        first is Ok ==> first->Ok_0.path@ == second->Ok_0.path@ && first->Ok_0.bytes@
            == second->Ok_0.bytes@,
{
    let rows = grid.y() as int;
    let cols = grid.z() as int;
    if encodable(grid) {
        let one = if first is Ok {
            choose|mask: Seq<bool>|
                sampled(id, rows, cols, inside, mask) && slice_image(grid, mask) == Some(
                    first->Ok_0.bytes@,
                )
        } else {
            choose|mask: Seq<bool>|
                sampled(id, rows, cols, inside, mask) && slice_image(grid, mask) is None
        };
        let two = if second is Ok {
            choose|mask: Seq<bool>|
                sampled(id, rows, cols, inside, mask) && slice_image(grid, mask) == Some(
                    second->Ok_0.bytes@,
                )
        } else {
            choose|mask: Seq<bool>|
                sampled(id, rows, cols, inside, mask) && slice_image(grid, mask) is None
        };
        lemma_sampling_repeatable(id, rows, cols, inside, one, two);
    }
}

} // verus!
