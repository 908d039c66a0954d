//! The image header chunk: a 13-byte payload carrying the dimensions and
//! the pixel-encoding parameters, with the validation rules the format
//! imposes on them.

use crate::chunk_refs::ChunkRefs;
use crate::error::PNGError;
use crate::format::{spec_ihdr_type, u32_from_be};
use vstd::prelude::*;

verus! {

/// A dimension must be strictly positive; zero and negative values are
/// rejected.
pub open spec fn spec_valid_dimension(d: i32) -> bool {
    d > 0
}

/// Bit depth is the number of bits per sample: 1, 2, 4, 8 or 16.
pub open spec fn spec_valid_bit_depth(d: u8) -> bool {
    d == 1 || d == 2 || d == 4 || d == 8 || d == 16
}

/// Color type is 0 (grayscale), 2 (truecolor), 3 (palette), 4 (grayscale
/// with alpha) or 6 (truecolor with alpha).
pub open spec fn spec_valid_color_type(t: u8) -> bool {
    t == 0 || t == 2 || t == 3 || t == 4 || t == 6
}

/// The bit depths each color type allows: 0 takes every valid depth,
/// 2, 4 and 6 take 8 and 16, and 3 takes 1, 2, 4 and 8.
pub open spec fn spec_depth_allowed(color_type: u8, bit_depth: u8) -> bool {
    if color_type == 0 {
        spec_valid_bit_depth(bit_depth)
    } else if color_type == 2 || color_type == 4 || color_type == 6 {
        bit_depth == 8 || bit_depth == 16
    } else if color_type == 3 {
        bit_depth == 1 || bit_depth == 2 || bit_depth == 4 || bit_depth == 8
    } else {
        false
    }
}

/// Checks a bit depth against the valid set.
pub fn check_bit_depth(d: u8) -> (r: bool)
    ensures
        r == spec_valid_bit_depth(d),
{
    d == 1 || d == 2 || d == 4 || d == 8 || d == 16
}

/// Checks a color type against the valid set.
pub fn check_color_type(t: u8) -> (r: bool)
    ensures
        r == spec_valid_color_type(t),
{
    t == 0 || t == 2 || t == 3 || t == 4 || t == 6
}

/// Checks a bit depth against the set the color type allows.
pub fn check_depth_allowed(color_type: u8, bit_depth: u8) -> (r: bool)
    ensures
        r == spec_depth_allowed(color_type, bit_depth),
{
    if color_type == 0 {
        check_bit_depth(bit_depth)
    } else if color_type == 2 || color_type == 4 || color_type == 6 {
        bit_depth == 8 || bit_depth == 16
    } else if color_type == 3 {
        bit_depth == 1 || bit_depth == 2 || bit_depth == 4 || bit_depth == 8
    } else {
        false
    }
}

/// Bit depth, color type, compression method, filter method and interlace
/// method: the five single-byte fields that follow the dimensions in the
/// image header.
#[derive(Clone, Copy, Debug)]
pub struct IHDRDetails {
    bit_depth: u8,
    color_type: u8,
    compression_method: u8,
    filter_method: u8,
    interlace_method: u8,
}

impl IHDRDetails {
    /// The stored bit depth.
    pub closed spec fn spec_bit_depth(&self) -> u8 {
        self.bit_depth
    }

    /// The stored color type.
    pub closed spec fn spec_color_type(&self) -> u8 {
        self.color_type
    }

    /// The stored compression method.
    pub closed spec fn spec_compression_method(&self) -> u8 {
        self.compression_method
    }

    /// The stored filter method.
    pub closed spec fn spec_filter_method(&self) -> u8 {
        self.filter_method
    }

    /// The stored interlace method.
    pub closed spec fn spec_interlace_method(&self) -> u8 {
        self.interlace_method
    }

    /// All five fields pass validation: a valid bit depth, a valid color
    /// type that allows it, compression and filter methods of 0, and an
    /// interlace method of 0 or 1.
    pub open spec fn spec_ok(&self) -> bool {
        &&& spec_valid_bit_depth(self.spec_bit_depth())
        &&& spec_valid_color_type(self.spec_color_type())
        &&& spec_depth_allowed(self.spec_color_type(), self.spec_bit_depth())
        &&& self.spec_compression_method() == 0
        &&& self.spec_filter_method() == 0
        &&& (self.spec_interlace_method() == 0 || self.spec_interlace_method() == 1)
    }

    /// Checks the five fields, reporting the first rule broken: bit depth,
    /// then color type and its allowed depths, then compression method,
    /// filter method and interlace method.
    pub fn validate(&self) -> (r: Result<(), PNGError>)
        ensures
            r == Ok::<(), PNGError>(()) <==> self.spec_ok(),
            !spec_valid_bit_depth(self.spec_bit_depth()) ==> r == Err::<(), PNGError>(
                PNGError::InvalidBitDepth,
            ),
            spec_valid_bit_depth(self.spec_bit_depth()) && !spec_valid_color_type(
                self.spec_color_type(),
            ) ==> r == Err::<(), PNGError>(PNGError::InvalidColorType),
            spec_valid_bit_depth(self.spec_bit_depth()) && spec_valid_color_type(
                self.spec_color_type(),
            ) && !spec_depth_allowed(self.spec_color_type(), self.spec_bit_depth()) ==> r == Err::<
                (),
                PNGError,
            >(PNGError::IncompatibleBitDepthForColorType),
            spec_valid_bit_depth(self.spec_bit_depth()) && spec_valid_color_type(
                self.spec_color_type(),
            ) && spec_depth_allowed(self.spec_color_type(), self.spec_bit_depth())
                && self.spec_compression_method() != 0 ==> r == Err::<(), PNGError>(
                PNGError::InvalidCompressionMethod,
            ),
            spec_valid_bit_depth(self.spec_bit_depth()) && spec_valid_color_type(
                self.spec_color_type(),
            ) && spec_depth_allowed(self.spec_color_type(), self.spec_bit_depth())
                && self.spec_compression_method() == 0 && self.spec_filter_method() != 0 ==> r
                == Err::<(), PNGError>(PNGError::InvalidFilterMethod),
            spec_valid_bit_depth(self.spec_bit_depth()) && spec_valid_color_type(
                self.spec_color_type(),
            ) && spec_depth_allowed(self.spec_color_type(), self.spec_bit_depth())
                && self.spec_compression_method() == 0 && self.spec_filter_method() == 0 && !(
            self.spec_interlace_method() == 0 || self.spec_interlace_method() == 1) ==> r == Err::<
                (),
                PNGError,
            >(PNGError::InvalidInterlaceMethod),
    {
        if !check_bit_depth(self.bit_depth) {
            return Err(PNGError::InvalidBitDepth);
        }
        if !check_color_type(self.color_type) {
            return Err(PNGError::InvalidColorType);
        }
        if !check_depth_allowed(self.color_type, self.bit_depth) {
            return Err(PNGError::IncompatibleBitDepthForColorType);
        }
        if self.compression_method != 0 {
            return Err(PNGError::InvalidCompressionMethod);
        }
        if self.filter_method != 0 {
            return Err(PNGError::InvalidFilterMethod);
        }
        if !(self.interlace_method == 0 || self.interlace_method == 1) {
            return Err(PNGError::InvalidInterlaceMethod);
        }
        Ok(())
    }

    /// The stored bit depth.
    pub fn get_bit_depth(&self) -> (r: u8)
        ensures
            r == self.spec_bit_depth(),
    {
        self.bit_depth
    }

    /// The sample depth: the bit depth, except for color type 3, whose
    /// samples are palette indices and always 8 bits deep.
    pub fn get_sample_depth(&self) -> (r: u8)
        ensures
            self.spec_color_type() == 3 ==> r == 8,
            self.spec_color_type() != 3 ==> r == self.spec_bit_depth(),
    {
        if self.color_type == 3 {
            return 8;
        }
        self.bit_depth
    }

    /// Replaces the bit depth after checking it against the valid set and
    /// against the stored color type.
    pub fn set_bit_depth(&mut self, bit_depth: u8) -> (r: Result<(), PNGError>)
        ensures
            !spec_valid_bit_depth(bit_depth) ==> (r == Err::<(), PNGError>(
                PNGError::InvalidBitDepth,
            ) && *final(self) == *old(self)),
            spec_valid_bit_depth(bit_depth) && !spec_valid_color_type(old(self).spec_color_type())
                ==> (r == Err::<(), PNGError>(PNGError::InvalidColorType) && *final(self) == *old(self)),
            spec_valid_bit_depth(bit_depth) && spec_valid_color_type(old(self).spec_color_type())
                && !spec_depth_allowed(old(self).spec_color_type(), bit_depth) ==> (r == Err::<
                (),
                PNGError,
            >(PNGError::IncompatibleBitDepthForColorType) && *final(self) == *old(self)),
            spec_valid_bit_depth(bit_depth) && spec_valid_color_type(old(self).spec_color_type())
                && spec_depth_allowed(old(self).spec_color_type(), bit_depth) ==> (r == Ok::<
                (),
                PNGError,
            >(()) && final(self).spec_bit_depth() == bit_depth && final(self).spec_color_type()
                == old(self).spec_color_type() && final(self).spec_compression_method() == old(self).spec_compression_method() && final(self).spec_filter_method() == old(self).spec_filter_method() && final(self).spec_interlace_method() == old(self).spec_interlace_method()),
    {
        if !check_bit_depth(bit_depth) {
            return Err(PNGError::InvalidBitDepth);
        }
        if !check_color_type(self.color_type) {
            return Err(PNGError::InvalidColorType);
        }
        if !check_depth_allowed(self.color_type, bit_depth) {
            return Err(PNGError::IncompatibleBitDepthForColorType);
        }
        self.bit_depth = bit_depth;
        Ok(())
    }

    /// The stored color type.
    pub fn get_color_type(&self) -> (r: u8)
        ensures
            r == self.spec_color_type(),
    {
        self.color_type
    }

    /// Replaces the color type after checking it against the valid set and
    /// against the stored bit depth.
    pub fn set_color_type(&mut self, color_type: u8) -> (r: Result<(), PNGError>)
        ensures
            !spec_valid_color_type(color_type) ==> (r == Err::<(), PNGError>(
                PNGError::InvalidColorType,
            ) && *final(self) == *old(self)),
            spec_valid_color_type(color_type) && !spec_depth_allowed(
                color_type,
                old(self).spec_bit_depth(),
            ) ==> (r == Err::<(), PNGError>(PNGError::IncompatibleBitDepthForColorType) && *final(self) == *old(self)),
            spec_valid_color_type(color_type) && spec_depth_allowed(
                color_type,
                old(self).spec_bit_depth(),
            ) ==> (r == Ok::<(), PNGError>(()) && final(self).spec_color_type() == color_type
                && final(self).spec_bit_depth() == old(self).spec_bit_depth() && final(self).spec_compression_method() == old(self).spec_compression_method() && final(self).spec_filter_method() == old(self).spec_filter_method() && final(self).spec_interlace_method() == old(self).spec_interlace_method()),
    {
        if !check_color_type(color_type) {
            return Err(PNGError::InvalidColorType);
        }
        if !check_depth_allowed(color_type, self.bit_depth) {
            return Err(PNGError::IncompatibleBitDepthForColorType);
        }
        self.color_type = color_type;
        Ok(())
    }

    /// Replaces bit depth and color type together, after checking the
    /// depth against the valid set and against the new color type.
    pub fn set_bit_depth_and_color_type(&mut self, color_type: u8, bit_depth: u8) -> (r: Result<
        (),
        PNGError,
    >)
        ensures
            !spec_valid_bit_depth(bit_depth) ==> (r == Err::<(), PNGError>(
                PNGError::InvalidBitDepth,
            ) && *final(self) == *old(self)),
            spec_valid_bit_depth(bit_depth) && !spec_valid_color_type(color_type) ==> (r == Err::<
                (),
                PNGError,
            >(PNGError::InvalidColorType) && *final(self) == *old(self)),
            spec_valid_bit_depth(bit_depth) && spec_valid_color_type(color_type)
                && !spec_depth_allowed(color_type, bit_depth) ==> (r == Err::<(), PNGError>(
                PNGError::IncompatibleBitDepthForColorType,
            ) && *final(self) == *old(self)),
            spec_valid_bit_depth(bit_depth) && spec_valid_color_type(color_type)
                && spec_depth_allowed(color_type, bit_depth) ==> (r == Ok::<(), PNGError>(())
                && final(self).spec_bit_depth() == bit_depth && final(self).spec_color_type()
                == color_type && final(self).spec_compression_method() == old(self).spec_compression_method() && final(self).spec_filter_method() == old(self).spec_filter_method() && final(self).spec_interlace_method() == old(self).spec_interlace_method()),
    {
        if !check_bit_depth(bit_depth) {
            return Err(PNGError::InvalidBitDepth);
        }
        if !check_color_type(color_type) {
            return Err(PNGError::InvalidColorType);
        }
        if !check_depth_allowed(color_type, bit_depth) {
            return Err(PNGError::IncompatibleBitDepthForColorType);
        }
        self.color_type = color_type;
        self.bit_depth = bit_depth;
        Ok(())
    }

    /// The stored compression method.
    pub fn get_compression_method(&self) -> (r: u8)
        ensures
            r == self.spec_compression_method(),
    {
        self.compression_method
    }

    /// Replaces the compression method; only 0 is defined, so anything
    /// else is refused and `false` comes back.
    #[must_use]
    pub fn set_compression_method(&mut self, compression_method: u8) -> (r: bool)
        ensures
            compression_method != 0 ==> (!r && *final(self) == *old(self)),
            compression_method == 0 ==> (r && final(self).spec_compression_method() == 0
                && final(self).spec_bit_depth() == old(self).spec_bit_depth() && final(self).spec_color_type() == old(self).spec_color_type() && final(self).spec_filter_method()
                == old(self).spec_filter_method() && final(self).spec_interlace_method() == old(self).spec_interlace_method()),
    {
        if compression_method != 0 {
            return false;
        }
        self.compression_method = compression_method;
        true
    }

    /// The stored filter method.
    pub fn get_filter_method(&self) -> (r: u8)
        ensures
            r == self.spec_filter_method(),
    {
        self.filter_method
    }

    /// Replaces the filter method; only 0 is defined, so anything else is
    /// refused and `false` comes back.
    #[must_use]
    pub fn set_filter_method(&mut self, filter_method: u8) -> (r: bool)
        ensures
            filter_method != 0 ==> (!r && *final(self) == *old(self)),
            filter_method == 0 ==> (r && final(self).spec_filter_method() == 0 && final(self).spec_bit_depth() == old(self).spec_bit_depth() && final(self).spec_color_type()
                == old(self).spec_color_type() && final(self).spec_compression_method() == old(self).spec_compression_method() && final(self).spec_interlace_method() == old(self).spec_interlace_method()),
    {
        if filter_method != 0 {
            return false;
        }
        self.filter_method = filter_method;
        true
    }

    /// The stored interlace method.
    pub fn get_interlace_method(&self) -> (r: u8)
        ensures
            r == self.spec_interlace_method(),
    {
        self.interlace_method
    }

    /// Replaces the interlace method; 0 (none) and 1 (Adam7) are defined,
    /// anything else is refused.
    pub fn set_interlace_method(&mut self, interlace_method: u8) -> (r: Result<(), PNGError>)
        ensures
            interlace_method != 0 && interlace_method != 1 ==> (r == Err::<(), PNGError>(
                PNGError::InvalidInterlaceMethod,
            ) && *final(self) == *old(self)),
            interlace_method == 0 || interlace_method == 1 ==> (r == Ok::<(), PNGError>(())
                && final(self).spec_interlace_method() == interlace_method && final(self).spec_bit_depth() == old(self).spec_bit_depth() && final(self).spec_color_type()
                == old(self).spec_color_type() && final(self).spec_compression_method() == old(self).spec_compression_method() && final(self).spec_filter_method() == old(self).spec_filter_method()),
    {
        if interlace_method != 1 && interlace_method != 0 {
            return Err(PNGError::InvalidInterlaceMethod);
        }
        self.interlace_method = interlace_method;
        Ok(())
    }

    /// Builds the five fields and validates them, reporting the first rule
    /// broken in the same order as `validate`.
    pub fn new(
        bit_depth: u8,
        color_type: u8,
        compression_method: u8,
        filter_method: u8,
        interlace_method: u8,
    ) -> (r: Result<IHDRDetails, PNGError>)
        ensures
            r matches Ok(d) ==> {
                &&& d.spec_bit_depth() == bit_depth
                &&& d.spec_color_type() == color_type
                &&& d.spec_compression_method() == compression_method
                &&& d.spec_filter_method() == filter_method
                &&& d.spec_interlace_method() == interlace_method
                &&& d.spec_ok()
            },
            !spec_valid_bit_depth(bit_depth) ==> r == Err::<IHDRDetails, PNGError>(
                PNGError::InvalidBitDepth,
            ),
            spec_valid_bit_depth(bit_depth) && !spec_valid_color_type(color_type) ==> r == Err::<
                IHDRDetails,
                PNGError,
            >(PNGError::InvalidColorType),
            spec_valid_bit_depth(bit_depth) && spec_valid_color_type(color_type)
                && !spec_depth_allowed(color_type, bit_depth) ==> r == Err::<
                IHDRDetails,
                PNGError,
            >(PNGError::IncompatibleBitDepthForColorType),
            spec_valid_bit_depth(bit_depth) && spec_valid_color_type(color_type)
                && spec_depth_allowed(color_type, bit_depth) && compression_method != 0 ==> r
                == Err::<IHDRDetails, PNGError>(PNGError::InvalidCompressionMethod),
            spec_valid_bit_depth(bit_depth) && spec_valid_color_type(color_type)
                && spec_depth_allowed(color_type, bit_depth) && compression_method == 0
                && filter_method != 0 ==> r == Err::<IHDRDetails, PNGError>(
                PNGError::InvalidFilterMethod,
            ),
            spec_valid_bit_depth(bit_depth) && spec_valid_color_type(color_type)
                && spec_depth_allowed(color_type, bit_depth) && compression_method == 0
                && filter_method == 0 && interlace_method != 0 && interlace_method != 1 ==> r
                == Err::<IHDRDetails, PNGError>(PNGError::InvalidInterlaceMethod),
            (spec_valid_bit_depth(bit_depth) && spec_valid_color_type(color_type)
                && spec_depth_allowed(color_type, bit_depth) && compression_method == 0
                && filter_method == 0 && (interlace_method == 0 || interlace_method == 1)) <==> r
                matches Ok(_),
    {
        let details = IHDRDetails {
            bit_depth,
            color_type,
            compression_method,
            filter_method,
            interlace_method,
        };
        match details.validate() {
            Ok(()) => Ok(details),
            Err(e) => Err(e),
        }
    }
}

/// The image header: width, height, and the five detail fields.  In the
/// chunk payload the dimensions occupy four big-endian bytes each, read as
/// signed values; the details follow as single bytes.
#[derive(Clone, Copy, Debug)]
pub struct IHDR {
    width: i32,
    height: i32,
    details: IHDRDetails,
}

impl IHDR {
    /// The stored width.
    pub closed spec fn spec_width(&self) -> i32 {
        self.width
    }

    /// The stored height.
    pub closed spec fn spec_height(&self) -> i32 {
        self.height
    }

    /// The stored detail fields.
    pub closed spec fn spec_details(&self) -> IHDRDetails {
        self.details
    }

    /// Checks that both dimensions are strictly positive, reporting the
    /// width first.
    pub fn validate_dimensions(&self) -> (r: Result<(), PNGError>)
        ensures
            r == Ok::<(), PNGError>(()) <==> (spec_valid_dimension(self.spec_width())
                && spec_valid_dimension(self.spec_height())),
            !(spec_valid_dimension(self.spec_width()) && spec_valid_dimension(self.spec_height()))
                ==> r == Err::<(), PNGError>(PNGError::InvalidDimension),
    {
        if self.width <= 0 {
            return Err(PNGError::InvalidDimension);
        }
        if self.height <= 0 {
            return Err(PNGError::InvalidDimension);
        }
        Ok(())
    }

    /// Checks the dimensions, then the detail fields, reporting the first
    /// rule broken.
    pub fn validate(&self) -> (r: Result<(), PNGError>)
        ensures
            r == Ok::<(), PNGError>(()) <==> (spec_valid_dimension(self.spec_width())
                && spec_valid_dimension(self.spec_height()) && self.spec_details().spec_ok()),
            !(spec_valid_dimension(self.spec_width()) && spec_valid_dimension(self.spec_height()))
                ==> r == Err::<(), PNGError>(PNGError::InvalidDimension),
    {
        match self.validate_dimensions() {
            Err(e) => {
                return Err(e);
            },
            Ok(()) => {},
        }
        self.details.validate()
    }

    /// The stored width.
    pub fn get_width(&self) -> (r: i32)
        ensures
            r == self.spec_width(),
    {
        self.width
    }

    /// Replaces the width, unless the new value is not strictly positive;
    /// then nothing changes and `false` comes back.
    pub fn set_width(&mut self, width: i32) -> (r: bool)
        ensures
            !spec_valid_dimension(width) ==> (!r && *final(self) == *old(self)),
            spec_valid_dimension(width) ==> (r && final(self).spec_width() == width && final(self).spec_height() == old(self).spec_height() && final(self).spec_details() == old(self).spec_details()),
    {
        if width <= 0 {
            return false;
        }
        self.width = width;
        true
    }

    /// The stored height.
    pub fn get_height(&self) -> (r: i32)
        ensures
            r == self.spec_height(),
    {
        self.height
    }

    /// Replaces the height, unless the new value is not strictly positive;
    /// then nothing changes and `false` comes back.
    pub fn set_height(&mut self, height: i32) -> (r: bool)
        ensures
            !spec_valid_dimension(height) ==> (!r && *final(self) == *old(self)),
            spec_valid_dimension(height) ==> (r && final(self).spec_height() == height && final(self).spec_width() == old(self).spec_width() && final(self).spec_details() == old(self).spec_details()),
    {
        if height <= 0 {
            return false;
        }
        self.height = height;
        true
    }

    /// Builds a header from dimensions and detail fields, checking the
    /// dimensions; the details are taken as given, as their own entry
    /// point for them is `IHDRDetails::new`.
    pub fn new(width: i32, height: i32, details: IHDRDetails) -> (r: Result<IHDR, PNGError>)
        ensures
            r matches Ok(h) <==> (spec_valid_dimension(width) && spec_valid_dimension(height)),
            r matches Ok(h) ==> (h.spec_width() == width && h.spec_height() == height
                && h.spec_details() == details),
            !(spec_valid_dimension(width) && spec_valid_dimension(height)) ==> r == Err::<
                IHDR,
                PNGError,
            >(PNGError::InvalidDimension),
    {
        let header = IHDR { width, height, details };
        match header.validate_dimensions() {
            Ok(()) => Ok(header),
            Err(e) => Err(e),
        }
    }

    /// Decodes an image header from a chunk view: the chunk must be typed
    /// `IHDR` and carry exactly 13 payload bytes, else `None`.  The
    /// decoded fields are not validated; call `validate` on the result.
    pub fn from_chunk_refs(chunk_refs: ChunkRefs<'_>) -> (r: Option<IHDR>)
        ensures
            r is Some <==> (chunk_refs.model().ty == spec_ihdr_type() && chunk_refs.model().data.len() == 13),
            r matches Some(h) ==> {
                let d = chunk_refs.model().data;
                &&& h.spec_width() == u32_from_be(d.subrange(0, 4)) as i32
                &&& h.spec_height() == u32_from_be(d.subrange(4, 8)) as i32
                &&& h.spec_details().spec_bit_depth() == d[8]
                &&& h.spec_details().spec_color_type() == d[9]
                &&& h.spec_details().spec_compression_method() == d[10]
                &&& h.spec_details().spec_filter_method() == d[11]
                &&& h.spec_details().spec_interlace_method() == d[12]
            },
    {
        let code = chunk_refs.type_code();
        let ihdr_code: [u8; 4] = [0x49, 0x48, 0x44, 0x52];
        proof {
            assert(ihdr_code@ =~= spec_ihdr_type());
        }
        if !crate::format::code_eq_bytes(&ihdr_code, code.as_slice()) {
            proof {
                assert(chunk_refs.model().ty != spec_ihdr_type());
            }
            return None;
        }
        let data = chunk_refs.get_chunk_data();
        if data.len() != 13 {
            return None;
        }
        let width = crate::format::read_u32_be(data, 0) as i32;
        let height = crate::format::read_u32_be(data, 4) as i32;
        let details = IHDRDetails {
            bit_depth: data[8],
            color_type: data[9],
            compression_method: data[10],
            filter_method: data[11],
            interlace_method: data[12],
        };
        Some(IHDR { width, height, details })
    }
}

} // verus!
