//! Decoded video frames.

use vstd::prelude::*;

verus! {

/// The order of the colour channels in a pixel.
#[derive(Copy, Clone, Debug, PartialEq, Eq, Structural)]
pub enum PixelFormat {
    Rgba,
    Bgra,
}

impl Default for PixelFormat {
    fn default() -> (format: PixelFormat)
        ensures
            format == PixelFormat::Rgba,
    {
        PixelFormat::Rgba
    }
}

/// The layout of a frame: its pixels, and its width and height in pixels.
#[derive(Debug, PartialEq, Eq)]
pub struct VideoFormat {
    pub pixel_format: PixelFormat,
    pub dimensions: [u32; 2],
}

/// A frame of a video.
#[derive(Debug, PartialEq, Eq)]
pub struct VideoFrame {
    format: VideoFormat,
    data: Vec<u8>,
}

/// The pixel format of a frame as the decoder names it.
#[derive(Debug, PartialEq, Eq)]
pub enum DecodedPixelFormat {
    Rgba,
    Bgra,
    /// Any other format, by its name.
    Other(String),
}

/// A frame whose pixels are in a format that is not supported.
#[derive(Debug, PartialEq, Eq)]
pub struct UnsupportedPixelFormat {
    pub name: String,
}

impl UnsupportedPixelFormat {
    /// The message for the user.
    pub fn message(&self) -> (text: String)
        ensures
            text@ == "unsupported pixel format: "@ + self.name@,
    {
        let mut text = "unsupported pixel format: ".to_owned();
        text.append(self.name.as_str());
        text
    }
}

impl VideoFrame {
    /// The layout of the frame.
    pub closed spec fn spec_format(&self) -> VideoFormat {
        self.format
    }

    /// The bytes of the frame.
    pub closed spec fn spec_data(&self) -> Seq<u8> {
        self.data@
    }

    /// The width of the frame in pixels.
    pub fn width(&self) -> (width: u32)
        ensures
            width == self.spec_format().dimensions[0],
    {
        self.format.dimensions[0]
    }

    /// The height of the frame in pixels.
    pub fn height(&self) -> (height: u32)
        ensures
            height == self.spec_format().dimensions[1],
    {
        self.format.dimensions[1]
    }

    /// The order of the colour channels.
    pub fn pixel_format(&self) -> (format: PixelFormat)
        ensures
            format == self.spec_format().pixel_format,
    {
        self.format.pixel_format
    }

    /// The bytes of the frame.
    pub fn data(&self) -> (data: &[u8])
        ensures
            data@ == self.spec_data(),
    {
        self.data.as_slice()
    }

    /// The frame that a decoder produced: its pixel format, its width and
    /// height, and the bytes of its first plane.
    ///
    /// Fails for every pixel format but the two of [`PixelFormat`].
    pub fn try_from(
        format: DecodedPixelFormat,
        width: u32,
        height: u32,
        plane: &[u8],
    ) -> (frame: Result<VideoFrame, UnsupportedPixelFormat>)
        ensures
            match format {
                DecodedPixelFormat::Rgba => frame matches Ok(frame)
                    && frame.spec_format().pixel_format == PixelFormat::Rgba,
                DecodedPixelFormat::Bgra => frame matches Ok(frame)
                    && frame.spec_format().pixel_format == PixelFormat::Bgra,
                DecodedPixelFormat::Other(name) => frame matches Err(error) && error.name == name,
            },
            frame matches Ok(frame) ==> {
                &&& frame.spec_format().dimensions@ == seq![width, height]
                &&& frame.spec_data() == plane@
            },
    {
        let pixel_format = match format {
            DecodedPixelFormat::Rgba => PixelFormat::Rgba,
            DecodedPixelFormat::Bgra => PixelFormat::Bgra,
            DecodedPixelFormat::Other(name) => {
                return Err(UnsupportedPixelFormat { name });
            },
        };
        let frame = VideoFrame {
            format: VideoFormat { pixel_format, dimensions: [width, height] },
            data: vstd::slice::slice_to_vec(plane),
        };
        assert(frame.format.dimensions@ =~= seq![width, height]);
        Ok(frame)
    }
}

} // verus!
