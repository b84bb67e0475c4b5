//! The wire categories: which value ranges there are, and which header bytes
//! announce them.
//!
//! | header      | value range        | bytes after the header        |
//! |-------------|--------------------|-------------------------------|
//! | `0000xxxx`  | never produced     |                               |
//! | `0001llll`  | below -8256        | `llll`, two's complement      |
//! | `001xxxxx`  | -8256 ..= -65      | 1, offset from -8256          |
//! | `01xxxxxx`  | -64 ..= -1         | 0, offset from -64            |
//! | `10xxxxxx`  | 0 ..= 63           | 0                             |
//! | `110xxxxx`  | 64 ..= 8255        | 1, offset from 64             |
//! | `1110llll`  | above 8255         | `llll`, offset from 8256      |
//! | `1111xxxx`  | never produced     |                               |

use vstd::prelude::*;

verus! {

pub const NEG_MULTI_MARKER: u8 = 0x10;

pub const NEG_2BYTE_MARKER: u8 = 0x20;

pub const NEG_1BYTE_MARKER: u8 = 0x40;

pub const POS_1BYTE_MARKER: u8 = 0x80;

pub const POS_2BYTE_MARKER: u8 = 0xc0;

pub const POS_MULTI_MARKER: u8 = 0xe0;

/// Smallest value of the one-byte negative category.
pub const NEG_1BYTE_MIN: i64 = -64;

/// Smallest value of the two-byte negative category.
pub const NEG_2BYTE_MIN: i64 = -8256;

/// Largest value of the one-byte positive category.
pub const POS_1BYTE_MAX: u64 = 63;

/// Largest value of the two-byte positive category.
pub const POS_2BYTE_MAX: u64 = 8255;

/// Longest encoding of a 64-bit integer: a header and eight bytes.
pub const INTPACK64_MAXSIZE: usize = 9;

/// A range of values together with the layout that encodes it. The variants
/// are listed in the order of their values, which is also the order of their
/// header bytes.
#[derive(Debug, Clone, Copy, PartialEq, Eq, Structural)]
pub enum Category {
    NegMulti,
    Neg2Byte,
    Neg1Byte,
    Pos1Byte,
    Pos2Byte,
    PosMulti,
}

impl Category {
    /// The category whose range holds `x`.
    pub open spec fn spec_of_value(x: int) -> Category {
        if x < -8256 {
            Category::NegMulti
        } else if x < -64 {
            Category::Neg2Byte
        } else if x < 0 {
            Category::Neg1Byte
        } else if x <= 63 {
            Category::Pos1Byte
        } else if x <= 8255 {
            Category::Pos2Byte
        } else {
            Category::PosMulti
        }
    }

    /// The category that a header byte announces, if it announces one. The
    /// low bits of a header carry value bits or a length, so each category
    /// owns a whole range of header bytes.
    pub open spec fn spec_of_header(h: u8) -> Option<Category> {
        if h < 0x10 {
            None
        } else if h < 0x20 {
            Some(Category::NegMulti)
        } else if h < 0x40 {
            Some(Category::Neg2Byte)
        } else if h < 0x80 {
            Some(Category::Neg1Byte)
        } else if h < 0xc0 {
            Some(Category::Pos1Byte)
        } else if h < 0xe0 {
            Some(Category::Pos2Byte)
        } else if h < 0xf0 {
            Some(Category::PosMulti)
        } else {
            None
        }
    }

    /// The header byte of the category with all its low bits clear.
    pub open spec fn spec_marker(self) -> u8 {
        match self {
            Category::NegMulti => 0x10,
            Category::Neg2Byte => 0x20,
            Category::Neg1Byte => 0x40,
            Category::Pos1Byte => 0x80,
            Category::Pos2Byte => 0xc0,
            Category::PosMulti => 0xe0,
        }
    }

    /// Classifies an unsigned value.
    pub fn of_uint(x: u64) -> (c: Category)
        ensures
            c == Category::spec_of_value(x as int),
    {
        if x <= POS_1BYTE_MAX {
            Category::Pos1Byte
        } else if x <= POS_2BYTE_MAX {
            Category::Pos2Byte
        } else {
            Category::PosMulti
        }
    }

    /// Classifies a signed value.
    pub fn of_int(x: i64) -> (c: Category)
        ensures
            c == Category::spec_of_value(x as int),
    {
        if x < NEG_2BYTE_MIN {
            Category::NegMulti
        } else if x < NEG_1BYTE_MIN {
            Category::Neg2Byte
        } else if x < 0 {
            Category::Neg1Byte
        } else {
            Category::of_uint(x as u64)
        }
    }

    /// Classifies a header byte by its top four bits. `None` stands for the
    /// two reserved patterns `0000xxxx` and `1111xxxx`.
    pub fn of_header(h: u8) -> (c: Option<Category>)
        ensures
            c == Category::spec_of_header(h),
    {
        let marker = h & 0xf0;
        assert({
            &&& marker == NEG_MULTI_MARKER <==> 0x10 <= h < 0x20
            &&& marker == NEG_2BYTE_MARKER || marker == NEG_2BYTE_MARKER | 0x10 <==> 0x20 <= h
                < 0x40
            &&& marker == NEG_1BYTE_MARKER || marker == NEG_1BYTE_MARKER | 0x10 || marker
                == NEG_1BYTE_MARKER | 0x20 || marker == NEG_1BYTE_MARKER | 0x30 <==> 0x40 <= h
                < 0x80
            &&& marker == POS_1BYTE_MARKER || marker == POS_1BYTE_MARKER | 0x10 || marker
                == POS_1BYTE_MARKER | 0x20 || marker == POS_1BYTE_MARKER | 0x30 <==> 0x80 <= h
                < 0xc0
            &&& marker == POS_2BYTE_MARKER || marker == POS_2BYTE_MARKER | 0x10 <==> 0xc0 <= h
                < 0xe0
            &&& marker == POS_MULTI_MARKER <==> 0xe0 <= h < 0xf0
        }) by (bit_vector)
            requires
                marker == h & 0xf0,
        ;
        if marker == NEG_MULTI_MARKER {
            Some(Category::NegMulti)
        } else if marker == NEG_2BYTE_MARKER || marker == NEG_2BYTE_MARKER | 0x10 {
            Some(Category::Neg2Byte)
        } else if marker == NEG_1BYTE_MARKER || marker == NEG_1BYTE_MARKER | 0x10 || marker
            == NEG_1BYTE_MARKER | 0x20 || marker == NEG_1BYTE_MARKER | 0x30 {
            Some(Category::Neg1Byte)
        } else if marker == POS_1BYTE_MARKER || marker == POS_1BYTE_MARKER | 0x10 || marker
            == POS_1BYTE_MARKER | 0x20 || marker == POS_1BYTE_MARKER | 0x30 {
            Some(Category::Pos1Byte)
        } else if marker == POS_2BYTE_MARKER || marker == POS_2BYTE_MARKER | 0x10 {
            Some(Category::Pos2Byte)
        } else if marker == POS_MULTI_MARKER {
            Some(Category::PosMulti)
        } else {
            None
        }
    }

    /// The marker bits of the category.
    pub fn marker(self) -> (m: u8)
        ensures
            m == self.spec_marker(),
    {
        match self {
            Category::NegMulti => NEG_MULTI_MARKER,
            Category::Neg2Byte => NEG_2BYTE_MARKER,
            Category::Neg1Byte => NEG_1BYTE_MARKER,
            Category::Pos1Byte => POS_1BYTE_MARKER,
            Category::Pos2Byte => POS_2BYTE_MARKER,
            Category::PosMulti => POS_MULTI_MARKER,
        }
    }
}

} // verus!
