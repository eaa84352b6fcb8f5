//! The fixed-layout records of the header list: the main header `avih`, and
//! the header and the format of each stream.

use vstd::prelude::*;
use crate::bytes::{le_i32, le_u16, le_u32, spec_text, tag, tag_is, tag_to_string};
use crate::error::{AviError, ErrorKind};
use crate::reader::{parsed, SubReader};

verus! {

/// The main header: timing and geometry of the whole file.
#[derive(Debug, Clone, Copy, PartialEq, Eq, Structural)]
pub struct AviHeader {
    /// The size the record declares for itself.
    pub size: u32,
    /// Microseconds from one frame to the next.
    pub time_between_frames: i32,
    pub maxium_data_rate: i32,
    pub padding_granularity: i32,
    pub flags: i32,
    pub total_number_of_frames: i32,
    pub number_of_initial_frames: i32,
    pub number_of_streams: i32,
    pub suggested_buffer_size: i32,
    pub width: i32,
    pub height: i32,
    pub time_scale: i32,
    pub data_rate: i32,
    pub start_time: i32,
    pub data_length: i32,
}

impl View for AviHeader {
    type V = AviHeader;

    open spec fn view(&self) -> AviHeader {
        *self
    }
}

/// The header of one stream.
#[derive(Debug, PartialEq, Eq)]
pub struct StreamHeader {
    pub data_type: String,
    pub data_handler: String,
    pub flags: i32,
    pub priority: i32,
    pub initial_frames: i32,
    pub time_scale: i32,
    pub data_rate: i32,
    pub start_time: i32,
    pub data_length: i32,
    pub suggested_buffer_size: i32,
    pub quality: i32,
    pub sample_size: i32,
}

/// What a [`StreamHeader`] holds, its tags as sequences of characters.
pub struct StreamHeaderView {
    pub data_type: Seq<char>,
    pub data_handler: Seq<char>,
    pub flags: i32,
    pub priority: i32,
    pub initial_frames: i32,
    pub time_scale: i32,
    pub data_rate: i32,
    pub start_time: i32,
    pub data_length: i32,
    pub suggested_buffer_size: i32,
    pub quality: i32,
    pub sample_size: i32,
}

impl View for StreamHeader {
    type V = StreamHeaderView;

    open spec fn view(&self) -> StreamHeaderView {
        StreamHeaderView {
            data_type: self.data_type@,
            data_handler: self.data_handler@,
            flags: self.flags,
            priority: self.priority,
            initial_frames: self.initial_frames,
            time_scale: self.time_scale,
            data_rate: self.data_rate,
            start_time: self.start_time,
            data_length: self.data_length,
            suggested_buffer_size: self.suggested_buffer_size,
            quality: self.quality,
            sample_size: self.sample_size,
        }
    }
}

/// The format of one stream, laid out as a bitmap header.
#[derive(Debug, PartialEq, Eq)]
pub struct StreamFormat {
    pub header_size: i32,
    pub image_width: i32,
    pub image_height: i32,
    pub number_of_planes: u16,
    pub bits_per_pixel: u16,
    pub compression_type: String,
    pub image_size_in_bytes: i32,
    pub x_pels_per_meter: i32,
    pub y_pels_per_meter: i32,
    pub colors_used: i32,
    pub colors_important: i32,
}

/// What a [`StreamFormat`] holds, its tag as a sequence of characters.
pub struct StreamFormatView {
    pub header_size: i32,
    pub image_width: i32,
    pub image_height: i32,
    pub number_of_planes: u16,
    pub bits_per_pixel: u16,
    pub compression_type: Seq<char>,
    pub image_size_in_bytes: i32,
    pub x_pels_per_meter: i32,
    pub y_pels_per_meter: i32,
    pub colors_used: i32,
    pub colors_important: i32,
}

impl View for StreamFormat {
    type V = StreamFormatView;

    open spec fn view(&self) -> StreamFormatView {
        StreamFormatView {
            header_size: self.header_size,
            image_width: self.image_width,
            image_height: self.image_height,
            number_of_planes: self.number_of_planes,
            bits_per_pixel: self.bits_per_pixel,
            compression_type: self.compression_type@,
            image_size_in_bytes: self.image_size_in_bytes,
            x_pels_per_meter: self.x_pels_per_meter,
            y_pels_per_meter: self.y_pels_per_meter,
            colors_used: self.colors_used,
            colors_important: self.colors_important,
        }
    }
}

/// Bytes of a main header, its `avih` tag included.
pub const AVI_HEADER_SIZE: usize = 64;

/// Bytes of a stream header.
pub const STREAM_HEADER_SIZE: usize = 48;

/// Bytes of a stream format.
pub const STREAM_FORMAT_SIZE: usize = 40;

/// The tag `avih` that opens a main header.
pub open spec fn avih_tag() -> Seq<u8> {
    tag(0x61, 0x76, 0x69, 0x68)
}

/// The main header whose tag stands at `pos`: its fields follow the tag, each
/// four bytes wide, in the order of the struct.
pub open spec fn avi_header_at(data: Seq<u8>, pos: int) -> AviHeader {
    AviHeader {
        size: le_u32(data, pos + 4),
        time_between_frames: le_i32(data, pos + 8),
        maxium_data_rate: le_i32(data, pos + 12),
        padding_granularity: le_i32(data, pos + 16),
        flags: le_i32(data, pos + 20),
        total_number_of_frames: le_i32(data, pos + 24),
        number_of_initial_frames: le_i32(data, pos + 28),
        number_of_streams: le_i32(data, pos + 32),
        suggested_buffer_size: le_i32(data, pos + 36),
        width: le_i32(data, pos + 40),
        height: le_i32(data, pos + 44),
        time_scale: le_i32(data, pos + 48),
        data_rate: le_i32(data, pos + 52),
        start_time: le_i32(data, pos + 56),
        data_length: le_i32(data, pos + 60),
    }
}

/// Reading a main header at `pos` in a window that ends at `limit`. The tag
/// must be there and must be `avih`; then all sixty-four bytes must be there.
pub open spec fn spec_avi_header(data: Seq<u8>, pos: int, limit: int) -> Result<
    (AviHeader, int),
    ErrorKind,
> {
    if pos + 4 > limit {
        Err(ErrorKind::PointerOutOfRange)
    } else if data.subrange(pos, pos + 4) != avih_tag() {
        Err(ErrorKind::NotAvi)
    } else if pos + 64 > limit {
        Err(ErrorKind::PointerOutOfRange)
    } else {
        Ok((avi_header_at(data, pos), pos + 64))
    }
}

/// Reading a stream header at `pos` in a window that ends at `limit`. All
/// forty-eight bytes must be there; then both tags must be text.
pub open spec fn spec_stream_header(data: Seq<u8>, pos: int, limit: int) -> Result<
    (StreamHeaderView, int),
    ErrorKind,
> {
    if pos + 48 > limit {
        Err(ErrorKind::PointerOutOfRange)
    } else {
        match spec_text(data.subrange(pos, pos + 4)) {
            Err(k) => Err(k),
            Ok(data_type) => match spec_text(data.subrange(pos + 4, pos + 8)) {
                Err(k) => Err(k),
                Ok(data_handler) => Ok(
                    (
                        StreamHeaderView {
                            data_type,
                            data_handler,
                            flags: le_i32(data, pos + 8),
                            priority: le_i32(data, pos + 12),
                            initial_frames: le_i32(data, pos + 16),
                            time_scale: le_i32(data, pos + 20),
                            data_rate: le_i32(data, pos + 24),
                            start_time: le_i32(data, pos + 28),
                            data_length: le_i32(data, pos + 32),
                            suggested_buffer_size: le_i32(data, pos + 36),
                            quality: le_i32(data, pos + 40),
                            sample_size: le_i32(data, pos + 44),
                        },
                        pos + 48,
                    ),
                ),
            },
        }
    }
}

/// Reading a stream format at `pos` in a window that ends at `limit`. All
/// forty bytes must be there; then the compression tag must be text.
pub open spec fn spec_stream_format(data: Seq<u8>, pos: int, limit: int) -> Result<
    (StreamFormatView, int),
    ErrorKind,
> {
    if pos + 40 > limit {
        Err(ErrorKind::PointerOutOfRange)
    } else {
        match spec_text(data.subrange(pos + 16, pos + 20)) {
            Err(k) => Err(k),
            Ok(compression_type) => Ok(
                (
                    StreamFormatView {
                        header_size: le_i32(data, pos),
                        image_width: le_i32(data, pos + 4),
                        image_height: le_i32(data, pos + 8),
                        number_of_planes: le_u16(data, pos + 12),
                        bits_per_pixel: le_u16(data, pos + 14),
                        compression_type,
                        image_size_in_bytes: le_i32(data, pos + 20),
                        x_pels_per_meter: le_i32(data, pos + 24),
                        y_pels_per_meter: le_i32(data, pos + 28),
                        colors_used: le_i32(data, pos + 32),
                        colors_important: le_i32(data, pos + 36),
                    },
                    pos + 40,
                ),
            ),
        }
    }
}

impl AviHeader {
    /// Reads a main header, its `avih` tag first.
    pub fn read(r: &mut SubReader) -> (res: Result<AviHeader, AviError>)
        ensures
            parsed(
                res,
                *final(r),
                *old(r),
                spec_avi_header(old(r).source(), old(r).position(), old(r).limit()),
            ),
    {
        let magic = r.read_tag()?;
        if !tag_is(&magic, 0x61, 0x76, 0x69, 0x68) {
            return Err(AviError::NotAvi);
        }
        if r.remaining() < AVI_HEADER_SIZE - 4 {
            return Err(AviError::PointerOutOfRange);
        }
        let size = r.read_u32()?;
        let time_between_frames = r.read_i32()?;
        let maxium_data_rate = r.read_i32()?;
        let padding_granularity = r.read_i32()?;
        let flags = r.read_i32()?;
        let total_number_of_frames = r.read_i32()?;
        let number_of_initial_frames = r.read_i32()?;
        let number_of_streams = r.read_i32()?;
        let suggested_buffer_size = r.read_i32()?;
        let width = r.read_i32()?;
        let height = r.read_i32()?;
        let time_scale = r.read_i32()?;
        let data_rate = r.read_i32()?;
        let start_time = r.read_i32()?;
        let data_length = r.read_i32()?;
        Ok(
            AviHeader {
                size,
                time_between_frames,
                maxium_data_rate,
                padding_granularity,
                flags,
                total_number_of_frames,
                number_of_initial_frames,
                number_of_streams,
                suggested_buffer_size,
                width,
                height,
                time_scale,
                data_rate,
                start_time,
                data_length,
            },
        )
    }
}

impl StreamHeader {
    /// Reads a stream header.
    pub fn read(r: &mut SubReader) -> (res: Result<StreamHeader, AviError>)
        ensures
            parsed(
                res,
                *final(r),
                *old(r),
                spec_stream_header(old(r).source(), old(r).position(), old(r).limit()),
            ),
    {
        if r.remaining() < STREAM_HEADER_SIZE {
            return Err(AviError::PointerOutOfRange);
        }
        let type_tag = r.read_tag()?;
        let handler_tag = r.read_tag()?;
        let flags = r.read_i32()?;
        let priority = r.read_i32()?;
        let initial_frames = r.read_i32()?;
        let time_scale = r.read_i32()?;
        let data_rate = r.read_i32()?;
        let start_time = r.read_i32()?;
        let data_length = r.read_i32()?;
        let suggested_buffer_size = r.read_i32()?;
        let quality = r.read_i32()?;
        let sample_size = r.read_i32()?;
        let data_type = tag_to_string(&type_tag)?;
        let data_handler = tag_to_string(&handler_tag)?;
        Ok(
            StreamHeader {
                data_type,
                data_handler,
                flags,
                priority,
                initial_frames,
                time_scale,
                data_rate,
                start_time,
                data_length,
                suggested_buffer_size,
                quality,
                sample_size,
            },
        )
    }
}

impl StreamFormat {
    /// Reads a stream format.
    pub fn read(r: &mut SubReader) -> (res: Result<StreamFormat, AviError>)
        ensures
            parsed(
                res,
                *final(r),
                *old(r),
                spec_stream_format(old(r).source(), old(r).position(), old(r).limit()),
            ),
    {
        if r.remaining() < STREAM_FORMAT_SIZE {
            return Err(AviError::PointerOutOfRange);
        }
        let header_size = r.read_i32()?;
        let image_width = r.read_i32()?;
        let image_height = r.read_i32()?;
        let number_of_planes = r.read_u16()?;
        let bits_per_pixel = r.read_u16()?;
        let compression_tag = r.read_tag()?;
        let image_size_in_bytes = r.read_i32()?;
        let x_pels_per_meter = r.read_i32()?;
        let y_pels_per_meter = r.read_i32()?;
        let colors_used = r.read_i32()?;
        let colors_important = r.read_i32()?;
        let compression_type = tag_to_string(&compression_tag)?;
        Ok(
            StreamFormat {
                header_size,
                image_width,
                image_height,
                number_of_planes,
                bits_per_pixel,
                compression_type,
                image_size_in_bytes,
                x_pels_per_meter,
                y_pels_per_meter,
                colors_used,
                colors_important,
            },
        )
    }
}

} // verus!
