//! Boot ROM dispatch: the engine names a hardware variant and gets the boot
//! firmware that belongs to it.

use vstd::prelude::*;

verus! {

/// The hardware variant that the engine asks a boot ROM for.
#[derive(Debug, Clone, Copy, PartialEq, Eq, Structural)]
pub enum BootRomKind {
    Dmg0,
    Dmg,
    Mgb,
    Sgb,
    Sgb2,
    Cgb0,
    Cgb,
    Agb,
}

/// One of the seven boot firmware images that the host carries.
#[derive(Debug, Clone, Copy, PartialEq, Eq, Structural)]
pub enum BootRomImage {
    Dmg,
    Mgb,
    Sgb,
    Sgb2,
    Cgb0,
    Cgb,
    Agb,
}

impl BootRomKind {
    /// The image that serves this variant. The early DMG revision boots
    /// from the DMG image; every other variant has an image of its own.
    pub open spec fn image(self) -> BootRomImage {
        match self {
            BootRomKind::Dmg0 | BootRomKind::Dmg => BootRomImage::Dmg,
            BootRomKind::Mgb => BootRomImage::Mgb,
            BootRomKind::Sgb => BootRomImage::Sgb,
            BootRomKind::Sgb2 => BootRomImage::Sgb2,
            BootRomKind::Cgb0 => BootRomImage::Cgb0,
            BootRomKind::Cgb => BootRomImage::Cgb,
            BootRomKind::Agb => BootRomImage::Agb,
        }
    }
}

/// The seven boot firmware images.
pub struct BootRoms {
    dmg: Vec<u8>,
    mgb: Vec<u8>,
    sgb: Vec<u8>,
    sgb2: Vec<u8>,
    cgb0: Vec<u8>,
    cgb: Vec<u8>,
    agb: Vec<u8>,
}

impl BootRoms {
    /// The bytes of one image.
    pub closed spec fn blob(&self, image: BootRomImage) -> Seq<u8> {
        match image {
            BootRomImage::Dmg => self.dmg@,
            BootRomImage::Mgb => self.mgb@,
            BootRomImage::Sgb => self.sgb@,
            BootRomImage::Sgb2 => self.sgb2@,
            BootRomImage::Cgb0 => self.cgb0@,
            BootRomImage::Cgb => self.cgb@,
            BootRomImage::Agb => self.agb@,
        }
    }

    /// Takes the seven images in.
    pub fn new(
        dmg: Vec<u8>,
        mgb: Vec<u8>,
        sgb: Vec<u8>,
        sgb2: Vec<u8>,
        cgb0: Vec<u8>,
        cgb: Vec<u8>,
        agb: Vec<u8>,
    ) -> (roms: Self)
        ensures
            roms.blob(BootRomImage::Dmg) == dmg@,
            roms.blob(BootRomImage::Mgb) == mgb@,
            roms.blob(BootRomImage::Sgb) == sgb@,
            roms.blob(BootRomImage::Sgb2) == sgb2@,
            roms.blob(BootRomImage::Cgb0) == cgb0@,
            roms.blob(BootRomImage::Cgb) == cgb@,
            roms.blob(BootRomImage::Agb) == agb@,
    {
        BootRoms { dmg, mgb, sgb, sgb2, cgb0, cgb, agb }
    }

    /// One image, whole.
    pub fn image(&self, image: BootRomImage) -> (blob: &[u8])
        ensures
            blob@ == self.blob(image),
    {
        match image {
            BootRomImage::Dmg => self.dmg.as_slice(),
            BootRomImage::Mgb => self.mgb.as_slice(),
            BootRomImage::Sgb => self.sgb.as_slice(),
            BootRomImage::Sgb2 => self.sgb2.as_slice(),
            BootRomImage::Cgb0 => self.cgb0.as_slice(),
            BootRomImage::Cgb => self.cgb.as_slice(),
            BootRomImage::Agb => self.agb.as_slice(),
        }
    }

    /// Answers the engine's request for a boot ROM: the image that serves
    /// the variant, whole and nothing but it, on every call.
    pub fn select(&self, kind: BootRomKind) -> (blob: &[u8])
        ensures
            blob@ == self.blob(kind.image()),
    {
        match kind {
            BootRomKind::Dmg0 => self.image(BootRomImage::Dmg),
            BootRomKind::Dmg => self.image(BootRomImage::Dmg),
            BootRomKind::Mgb => self.image(BootRomImage::Mgb),
            BootRomKind::Sgb => self.image(BootRomImage::Sgb),
            BootRomKind::Sgb2 => self.image(BootRomImage::Sgb2),
            BootRomKind::Cgb0 => self.image(BootRomImage::Cgb0),
            BootRomKind::Cgb => self.image(BootRomImage::Cgb),
            BootRomKind::Agb => self.image(BootRomImage::Agb),
        }
    }
}

} // verus!
