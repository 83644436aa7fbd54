//! The four-character codes that name boxes, brands and item types.

use vstd::prelude::*;

verus! {

/// A four-character code, held as the big-endian number of its four bytes.
#[derive(Debug, Clone, Copy, PartialEq, Eq, Structural)]
pub struct FourCC {
    pub value: u32,
}

/// `ftyp`
pub const FTYP: u32 = 0x6674_7970;

/// `mdat`
pub const MDAT: u32 = 0x6d64_6174;

/// `meta`
pub const META: u32 = 0x6d65_7461;

/// `pitm`
pub const PITM: u32 = 0x7069_746d;

/// `iinf`
pub const IINF: u32 = 0x6969_6e66;

/// `infe`
pub const INFE: u32 = 0x696e_6665;

/// `iloc`
pub const ILOC: u32 = 0x696c_6f63;

/// `iref`
pub const IREF: u32 = 0x6972_6566;

/// `iprp`
pub const IPRP: u32 = 0x6970_7270;

/// `ipco`
pub const IPCO: u32 = 0x6970_636f;

/// `ipma`
pub const IPMA: u32 = 0x6970_6d61;

/// `pixi`
pub const PIXI: u32 = 0x7069_7869;

/// `auxC`
pub const AUXC: u32 = 0x6175_7843;

/// `clli`
pub const CLLI: u32 = 0x636c_6c69;

/// `mdcv`
pub const MDCV: u32 = 0x6d64_6376;

/// `uuid`
pub const UUID: u32 = 0x7575_6964;

/// The brand `avif`
pub const AVIF: u32 = 0x6176_6966;

/// The brand `avis`
pub const AVIS: u32 = 0x6176_6973;

/// The item type `av01`
pub const AV01: u32 = 0x6176_3031;

/// The item type `grid`
pub const GRID: u32 = 0x6772_6964;

/// The reference type `auxl`
pub const AUXL: u32 = 0x6175_786c;

/// The reference type `prem`
pub const PREM: u32 = 0x7072_656d;

/// The kinds of box that the parser tells apart.
#[derive(Debug, Clone, Copy, PartialEq, Eq, Structural)]
pub enum BoxType {
    FileTypeBox,
    MediaDataBox,
    MetadataBox,
    PrimaryItemBox,
    ItemInfoBox,
    ItemInfoEntry,
    ItemLocationBox,
    ImageReferenceBox,
    ImagePropertiesBox,
    ItemPropertyContainerBox,
    ItemPropertyAssociationBox,
    PixelInformationBox,
    AuxiliaryTypeProperty,
    ContentLightLevelBox,
    MasteringDisplayColourVolumeBox,
    UuidBox,
    UnknownBox(u32),
}

impl BoxType {
    /// The kind of box that a code names.
    pub open spec fn of_code(code: u32) -> BoxType {
        if code == FTYP {
            BoxType::FileTypeBox
        } else if code == MDAT {
            BoxType::MediaDataBox
        } else if code == META {
            BoxType::MetadataBox
        } else if code == PITM {
            BoxType::PrimaryItemBox
        } else if code == IINF {
            BoxType::ItemInfoBox
        } else if code == INFE {
            BoxType::ItemInfoEntry
        } else if code == ILOC {
            BoxType::ItemLocationBox
        } else if code == IREF {
            BoxType::ImageReferenceBox
        } else if code == IPRP {
            BoxType::ImagePropertiesBox
        } else if code == IPCO {
            BoxType::ItemPropertyContainerBox
        } else if code == IPMA {
            BoxType::ItemPropertyAssociationBox
        } else if code == PIXI {
            BoxType::PixelInformationBox
        } else if code == AUXC {
            BoxType::AuxiliaryTypeProperty
        } else if code == CLLI {
            BoxType::ContentLightLevelBox
        } else if code == MDCV {
            BoxType::MasteringDisplayColourVolumeBox
        } else if code == UUID {
            BoxType::UuidBox
        } else {
            BoxType::UnknownBox(code)
        }
    }

    /// The code that names a kind of box.
    pub open spec fn code(self) -> u32 {
        match self {
            BoxType::FileTypeBox => FTYP,
            BoxType::MediaDataBox => MDAT,
            BoxType::MetadataBox => META,
            BoxType::PrimaryItemBox => PITM,
            BoxType::ItemInfoBox => IINF,
            BoxType::ItemInfoEntry => INFE,
            BoxType::ItemLocationBox => ILOC,
            BoxType::ImageReferenceBox => IREF,
            BoxType::ImagePropertiesBox => IPRP,
            BoxType::ItemPropertyContainerBox => IPCO,
            BoxType::ItemPropertyAssociationBox => IPMA,
            BoxType::PixelInformationBox => PIXI,
            BoxType::AuxiliaryTypeProperty => AUXC,
            BoxType::ContentLightLevelBox => CLLI,
            BoxType::MasteringDisplayColourVolumeBox => MDCV,
            BoxType::UuidBox => UUID,
            BoxType::UnknownBox(code) => code,
        }
    }

    /// Tells the kind of box that a code names.
    pub fn from_code(code: u32) -> (t: BoxType)
        ensures
            t == BoxType::of_code(code),
            t.code() == code,
    {
        if code == FTYP {
            BoxType::FileTypeBox
        } else if code == MDAT {
            BoxType::MediaDataBox
        } else if code == META {
            BoxType::MetadataBox
        } else if code == PITM {
            BoxType::PrimaryItemBox
        } else if code == IINF {
            BoxType::ItemInfoBox
        } else if code == INFE {
            BoxType::ItemInfoEntry
        } else if code == ILOC {
            BoxType::ItemLocationBox
        } else if code == IREF {
            BoxType::ImageReferenceBox
        } else if code == IPRP {
            BoxType::ImagePropertiesBox
        } else if code == IPCO {
            BoxType::ItemPropertyContainerBox
        } else if code == IPMA {
            BoxType::ItemPropertyAssociationBox
        } else if code == PIXI {
            BoxType::PixelInformationBox
        } else if code == AUXC {
            BoxType::AuxiliaryTypeProperty
        } else if code == CLLI {
            BoxType::ContentLightLevelBox
        } else if code == MDCV {
            BoxType::MasteringDisplayColourVolumeBox
        } else if code == UUID {
            BoxType::UuidBox
        } else {
            BoxType::UnknownBox(code)
        }
    }

    /// Gives the code that names this kind of box.
    pub fn to_code(self) -> (code: u32)
        ensures
            code == self.code(),
    {
        match self {
            BoxType::FileTypeBox => FTYP,
            BoxType::MediaDataBox => MDAT,
            BoxType::MetadataBox => META,
            BoxType::PrimaryItemBox => PITM,
            BoxType::ItemInfoBox => IINF,
            BoxType::ItemInfoEntry => INFE,
            BoxType::ItemLocationBox => ILOC,
            BoxType::ImageReferenceBox => IREF,
            BoxType::ImagePropertiesBox => IPRP,
            BoxType::ItemPropertyContainerBox => IPCO,
            BoxType::ItemPropertyAssociationBox => IPMA,
            BoxType::PixelInformationBox => PIXI,
            BoxType::AuxiliaryTypeProperty => AUXC,
            BoxType::ContentLightLevelBox => CLLI,
            BoxType::MasteringDisplayColourVolumeBox => MDCV,
            BoxType::UuidBox => UUID,
            BoxType::UnknownBox(code) => code,
        }
    }
}

} // verus!
