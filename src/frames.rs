//! The frame bank: an ordered, fixed set of decoded RGBA frames, loaded once
//! and read-only afterwards.

use vstd::prelude::*;

verus! {

/// Width, height and RGBA bytes of the image that `bytes` encodes, or `None`
/// when the image library cannot decode them.
pub uninterp spec fn rgba_decoding(bytes: Seq<u8>) -> Option<(u32, u32, Seq<u8>)>;

/// Relies on `image::load_from_memory` (format guessed from the bytes) and
/// `DynamicImage::to_rgba8`: the decoded image, converted to 8-bit RGBA,
/// as its dimensions and raw buffer. A decoding error becomes `None`.
#[verifier::external_body]
fn decode_rgba(bytes: &[u8]) -> (r: Option<(u32, u32, Vec<u8>)>)
    ensures
        match r {
            Some((w, h, px)) => rgba_decoding(bytes@) == Some((w, h, px@)),
            None => rgba_decoding(bytes@) is None,
        },
{
    image::load_from_memory(bytes).ok().map(|img| {
        let rgba = img.to_rgba8();
        let (w, h) = rgba.dimensions();
        (w, h, rgba.into_raw())
    })
}

/// Whether `bytes` decode to an image whose buffer holds four bytes per pixel.
pub open spec fn decodes_to_frame(bytes: Seq<u8>) -> bool {
    match rgba_decoding(bytes) {
        Some((w, h, px)) => px.len() == 4 * w * h,
        None => false,
    }
}

/// One frame: its place in the bank and its RGBA pixels, row by row.
#[derive(Debug)]
pub struct Frame {
    pub index: usize,
    pub width: u32,
    pub height: u32,
    pub rgba: Vec<u8>,
}

impl Frame {
    pub open spec fn wf(&self) -> bool {
        self.rgba@.len() == 4 * self.width * self.height
    }
}

/// Why a frame bank could not be loaded.
#[derive(Clone, Copy, Debug, PartialEq, Eq, Structural)]
pub enum FrameLoadError {
    /// No frame was given.
    Empty,
    /// The frame at `index` could not be decoded.
    Undecodable { index: usize },
    /// The frame at `index` decoded to a buffer of the wrong size.
    BadLayout { index: usize },
}

/// A non-empty, immutable sequence of frames.
pub struct FrameBank {
    frames: Vec<Frame>,
}

impl View for FrameBank {
    type V = Seq<Frame>;

    closed spec fn view(&self) -> Seq<Frame> {
        self.frames@
    }
}

impl FrameBank {
    pub open spec fn wf(&self) -> bool {
        &&& self@.len() > 0
        &&& forall|i: int| 0 <= i < self@.len() ==> (#[trigger] self@[i]).wf() && self@[i].index == i
    }

    /// Decodes every encoded image of `files`, in order. Fails on the first
    /// frame that does not decode to a well-formed RGBA buffer, and on an
    /// empty list.
    pub fn load(files: &Vec<Vec<u8>>) -> (r: Result<FrameBank, FrameLoadError>)
        ensures
            r == Err::<FrameBank, FrameLoadError>(FrameLoadError::Empty) <==> files@.len() == 0,
            r is Ok <==> files@.len() > 0 && forall|i: int|
                0 <= i < files@.len() ==> decodes_to_frame(#[trigger] files@[i]@),
            r matches Ok(bank) ==> {
                &&& bank.wf()
                &&& bank@.len() == files@.len()
                &&& forall|i: int|
                    0 <= i < files@.len() ==> rgba_decoding(#[trigger] files@[i]@) == Some(
                        (bank@[i].width, bank@[i].height, bank@[i].rgba@),
                    )
            },
            r matches Err(FrameLoadError::Undecodable { index }) ==> {
                &&& index < files@.len()
                &&& forall|j: int| 0 <= j < index ==> decodes_to_frame(#[trigger] files@[j]@)
                &&& rgba_decoding(files@[index as int]@) is None
            },
            r matches Err(FrameLoadError::BadLayout { index }) ==> {
                &&& index < files@.len()
                &&& forall|j: int| 0 <= j < index ==> decodes_to_frame(#[trigger] files@[j]@)
                &&& rgba_decoding(files@[index as int]@) is Some
                &&& !decodes_to_frame(files@[index as int]@)
            },
    {
        if files.len() == 0 {
            return Err(FrameLoadError::Empty);
        }
        let mut frames: Vec<Frame> = Vec::new();
        let mut i: usize = 0;
        while i < files.len()
            invariant
                i <= files@.len(),
                frames@.len() == i,
                forall|j: int| 0 <= j < i ==> decodes_to_frame(#[trigger] files@[j]@),
                forall|j: int|
                    0 <= j < i ==> (#[trigger] frames@[j]).wf() && frames@[j].index == j
                        && rgba_decoding(files@[j]@) == Some(
                        (frames@[j].width, frames@[j].height, frames@[j].rgba@),
                    ),
            decreases files@.len() - i,
        {
            match decode_rgba(files[i].as_slice()) {
                None => {
                    return Err(FrameLoadError::Undecodable { index: i });
                },
                Some((width, height, rgba)) => {
                    let w: u128 = width as u128;
                    let h: u128 = height as u128;
                    assert(4 * w * h <= 4 * 0xffff_ffffu128 * 0xffff_ffffu128) by (nonlinear_arith)
                        requires w <= 0xffff_ffffu128, h <= 0xffff_ffffu128;
                    let expected: u128 = 4 * w * h;
                    if rgba.len() as u128 != expected {
                        return Err(FrameLoadError::BadLayout { index: i });
                    }
                    frames.push(Frame { index: i, width, height, rgba });
                },
            }
            i = i + 1;
        }
        let bank = FrameBank { frames };
        assert(bank@ == frames@);
        Ok(bank)
    }

    /// Number of frames.
    pub fn len(&self) -> (n: usize)
        ensures
            n == self@.len(),
    {
        self.frames.len()
    }

    /// The frame at `index`; the caller has already reduced the index modulo
    /// the bank size.
    pub fn frame_at(&self, index: usize) -> (f: &Frame)
        requires
            index < self@.len(),
        ensures
            *f == self@[index as int],
    {
        &self.frames[index]
    }
}

} // verus!
