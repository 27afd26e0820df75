//! Resizing decoded frames to the cell grid's pixel size, through fast_image_resize.
use vstd::prelude::*;
use fast_image_resize::{PixelType, ResizeOptions, Resizer};
use fast_image_resize::images::Image;

verus! {

#[verifier::external_type_specification]
#[verifier::external_body]
pub struct ExResizer(Resizer);

#[verifier::external_type_specification]
#[verifier::external_body]
pub struct ExResizeOptions(ResizeOptions);

pub assume_specification[ Resizer::new ]() -> Resizer;

pub assume_specification[ ResizeOptions::new ]() -> ResizeOptions;

/// Relies on fast_image_resize's `Image::from_vec_u8`, `Image::new`, `Resizer::resize` and
/// `Image::into_vec`, used together to resize one RGB24 buffer: `from_vec_u8` refuses a
/// buffer shorter than `width * height` pixels, and the destination image it fills is
/// `dst_w * dst_h` pixels of three bytes. With both images RGB24 and the default options
/// (no cropping) nothing else makes `resize` fail. The pixel values depend on the CPU
/// extensions the resizer picks, so nothing is said of them.
#[verifier::external_body]
fn resize_rgb24(
    resizer: &mut Resizer,
    options: &ResizeOptions,
    src: Vec<u8>,
    src_w: u32,
    src_h: u32,
    dst_w: u32,
    dst_h: u32,
) -> (r: Option<Vec<u8>>)
    requires
        src_w * src_h * 3 <= usize::MAX,
        dst_w * dst_h * 3 <= usize::MAX,
    ensures
        r is Some ==> r.unwrap()@.len() == dst_w * dst_h * 3,
        src@.len() < src_w * src_h * 3 <==> r is None,
{
    let src_image = Image::from_vec_u8(src_w, src_h, src, PixelType::U8x3).ok()?;
    let mut dst_image = Image::new(dst_w, dst_h, PixelType::U8x3);
    resizer.resize(&src_image, &mut dst_image, options).ok()?;
    Some(dst_image.into_vec())
}

/// Resizes RGB24 frames to `cols` by `2 * rows` pixels: one cell is two pixels tall.
pub struct FrameResizer {
    target_width: u32,
    target_height: u32,
    resizer: Resizer,
    options: ResizeOptions,
}

impl FrameResizer {
    pub closed spec fn width(&self) -> u32 {
        self.target_width
    }

    pub closed spec fn height(&self) -> u32 {
        self.target_height
    }

    /// A resizer to `target_cols` by `2 * target_rows` pixels. Its options are
    /// fast_image_resize's defaults: Lanczos3 convolution.
    pub fn new(target_cols: u16, target_rows: u16) -> (r: Self)
        ensures
            r.width() == target_cols,
            r.height() == 2 * target_rows,
    {
        FrameResizer {
            target_width: target_cols as u32,
            target_height: (target_rows as u32) * 2,
            resizer: Resizer::new(),
            options: ResizeOptions::new(),
        }
    }

    /// Resizes an RGB24 frame to the target size. A frame already of that size is
    /// returned as it is. Otherwise `None` exactly when the data is shorter than the frame.
    pub fn resize(&mut self, src_data: &[u8], src_width: u32, src_height: u32) -> (r: Option<
        Vec<u8>,
    >)
        requires
            src_width * src_height * 3 <= usize::MAX,
            old(self).width() * old(self).height() * 3 <= usize::MAX,
        ensures
            final(self).width() == old(self).width(),
            final(self).height() == old(self).height(),
            src_width == old(self).width() && src_height == old(self).height() ==> r is Some
                && r.unwrap()@ == src_data@,
            !(src_width == old(self).width() && src_height == old(self).height()) ==> {
                &&& r is Some ==> r.unwrap()@.len() == old(self).width() * old(self).height() * 3
                &&& src_data@.len() < src_width * src_height * 3 <==> r is None
            },
    {
        let mut data: Vec<u8> = Vec::new();
        data.extend_from_slice(src_data);
        assert(data@ =~= src_data@);
        if src_width == self.target_width && src_height == self.target_height {
            return Some(data);
        }
        resize_rgb24(
            &mut self.resizer,
            &self.options,
            data,
            src_width,
            src_height,
            self.target_width,
            self.target_height,
        )
    }

    pub fn target_width(&self) -> (r: u32)
        ensures
            r == self.width(),
    {
        self.target_width
    }

    pub fn target_height(&self) -> (r: u32)
        ensures
            r == self.height(),
    {
        self.target_height
    }
}

/// A decoded RGB24 video frame.
pub struct VideoFrame {
    pub data: Vec<u8>,
    pub width: u32,
    pub height: u32,
}

} // verus!
