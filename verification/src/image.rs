//! Module images, and the scan of their code for a signature.

use crate::signature::{compile_outcome, slot_count, Signature, SignatureError};
use pelite::pe64::Pe;
use vstd::prelude::*;

verus! {

/// `pelite::pe64::PeView`: a view into the image of a module as it lies in
/// memory.
#[verifier::external_type_specification]
#[verifier::external_body]
pub struct ExPeView<'a>(pelite::pe64::PeView<'a>);

/// `pelite::Error`: why the decoder refuses headers.
#[verifier::external_type_specification]
#[verifier::external_body]
pub struct ExPeError(pelite::Error);

/// The bytes that a view looks at.
pub uninterp spec fn image_bytes(view: pelite::pe64::PeView<'_>) -> Seq<u8>;

/// The code range that the optional header of an image declares, as
/// `Headers::code_range` of pelite reads it: first address and end.
pub uninterp spec fn code_bounds(image: Seq<u8>) -> (u32, u32);

/// What `Matches::next` of pelite gives on its first call for the code of an
/// image: whether the atoms matched, and the save array as it leaves it.
pub uninterp spec fn code_scan(
    image: Seq<u8>,
    atoms: Seq<pelite::pattern::Atom>,
    save: Seq<u32>,
) -> (bool, Seq<u32>);

/// The code range lies in the image, and every address of the image fits
/// in 32 bits.
pub open spec fn scannable(image: Seq<u8>) -> bool {
    &&& image.len() <= u32::MAX
    &&& code_bounds(image).0 <= code_bounds(image).1
    &&& code_bounds(image).0 <= image.len()
}

/// The atoms are compiled from a text that signatures are written with.
pub open spec fn compiled_atoms(atoms: Seq<pelite::pattern::Atom>) -> bool {
    exists|text: Seq<char>| compile_outcome(text) == Ok::<_, SignatureError>(atoms)
}

/// A save array of `n` zeroed slots.
pub open spec fn blank_slots(n: nat) -> Seq<u32> {
    Seq::new(n, |i: int| 0u32)
}

/// The capture slots of the first match of `atoms` in the code of `image`,
/// or nothing where no position matches.
pub open spec fn scan_outcome(image: Seq<u8>, atoms: Seq<pelite::pattern::Atom>) -> Option<
    Seq<u32>,
> {
    let (found, slots) = code_scan(image, atoms, blank_slots(slot_count(atoms)));
    if found {
        Some(slots)
    } else {
        None
    }
}

/// `PeView::from_bytes`: on success the view looks at the bytes given.
/// Whether it succeeds depends on the headers and on where the bytes lie
/// in memory.
#[verifier::external_body]
fn view_of<'a>(bytes: &'a [u8]) -> (r: Result<pelite::pe64::PeView<'a>, pelite::Error>)
    ensures
        r matches Ok(view) ==> image_bytes(view) == bytes@,
{
    pelite::pe64::PeView::from_bytes(bytes)
}

/// `Headers::code_range`: the code range of the optional header.
#[verifier::external_body]
fn code_range(view: &pelite::pe64::PeView<'_>) -> (r: (u32, u32))
    ensures
        r == code_bounds(image_bytes(*view)),
{
    let range = view.headers().code_range();
    (range.start, range.end)
}

/// `Scanner::matches_code` and the first `Matches::next` on it: the first
/// match in the code range, captured into `save`, whose length stays. The
/// scanner slices the image by the code range, so that range lies in the
/// image; the atoms come from the parser on a supported text.
#[verifier::external_body]
fn first_code_match(
    view: &pelite::pe64::PeView<'_>,
    atoms: &[pelite::pattern::Atom],
    save: &mut Vec<u32>,
) -> (found: bool)
    requires
        scannable(image_bytes(*view)),
        compiled_atoms(atoms@),
    ensures
        (found, final(save)@) == code_scan(image_bytes(*view), atoms@, old(save)@),
        final(save)@.len() == old(save)@.len(),
{
    view.scanner().matches_code(atoms).next(save.as_mut_slice())
}

/// Why the bytes of a module are no image to scan.
#[derive(Debug, Clone, Copy, PartialEq, Eq, Structural)]
pub enum ImageError {
    /// Longer than 32-bit relative addresses reach.
    TooLarge,
    /// The decoder refuses the headers.
    Headers,
    /// The code range that the headers declare is not in the image.
    CodeRange,
}

/// The image of a module as it lies in memory, decoded.
pub struct ModuleImage<'a> {
    view: pelite::pe64::PeView<'a>,
}

impl<'a> ModuleImage<'a> {
    pub closed spec fn bytes(&self) -> Seq<u8> {
        image_bytes(self.view)
    }

    pub open spec fn wf(&self) -> bool {
        scannable(self.bytes())
    }

    /// Makes an image of the decoder's answer for bytes that 32-bit
    /// addresses reach. Headers that the decoder refuses give no image; a
    /// view gives one where the code range that its headers declare lies in
    /// the bytes, and none where it does not.
    pub fn of_decoded(
        bytes: &'a [u8],
        decoded: Result<pelite::pe64::PeView<'a>, pelite::Error>,
    ) -> (r: Result<ModuleImage<'a>, ImageError>)
        requires
            bytes@.len() <= u32::MAX,
            decoded matches Ok(view) ==> image_bytes(view) == bytes@,
        ensures
            match decoded {
                Err(_) => r matches Err(ImageError::Headers),
                Ok(_) => if scannable(bytes@) {
                    r matches Ok(image) && image.wf() && image.bytes() == bytes@
                } else {
                    r matches Err(ImageError::CodeRange)
                },
            },
    {
        match decoded {
            Err(_) => Err(ImageError::Headers),
            Ok(view) => {
                let (start, end) = code_range(&view);
                if start <= end && start as usize <= bytes.len() {
                    Ok(ModuleImage { view })
                } else {
                    Err(ImageError::CodeRange)
                }
            },
        }
    }

    /// Decodes the bytes of a module. Bytes longer than 32-bit addresses
    /// reach are refused at once; all others go to the decoder, and its
    /// answer to [`ModuleImage::of_decoded`]. The image that comes back looks
    /// at exactly these bytes and has its code range inside them.
    pub fn decode(bytes: &'a [u8]) -> (r: Result<ModuleImage<'a>, ImageError>)
        ensures
            match r {
                Ok(image) => image.wf() && image.bytes() == bytes@,
                Err(ImageError::TooLarge) => bytes@.len() > u32::MAX,
                Err(ImageError::Headers) => bytes@.len() <= u32::MAX,
                Err(ImageError::CodeRange) => bytes@.len() <= u32::MAX && !scannable(bytes@),
            },
    {
        if bytes.len() > 0xffff_ffff {
            return Err(ImageError::TooLarge);
        }
        ModuleImage::of_decoded(bytes, view_of(bytes))
    }

    /// Scans the code of the image for the first match of a signature.
    pub fn scan(&self, signature: &Signature) -> (r: Option<Vec<u32>>)
        requires
            self.wf(),
            signature.wf(),
        ensures
            match r {
                Some(slots) => scan_outcome(self.bytes(), signature.atoms()) == Some(slots@)
                    && slots@.len() == signature.slots(),
                None => scan_outcome(self.bytes(), signature.atoms()) is None,
            },
    {
        let mut save = vec![0u32; signature.slot_len()];
        assert(save@ =~= blank_slots(slot_count(signature.atoms())));
        assert(compile_outcome(signature.text()) == Ok::<_, SignatureError>(signature.atoms()));
        if first_code_match(&self.view, signature.compiled().as_slice(), &mut save) {
            Some(save)
        } else {
            None
        }
    }
}

} // verus!
