//! Guest string storage and read-only text views.
//!
//! The engine keeps string character data in one of two encodings: a
//! narrow form holding one byte per character (seven-bit codes only) and a
//! wide form holding one sixteen-bit code unit per character. The widths
//! differ, so a caller must branch on the encoding flag before iterating
//! code units; reading wide data as if it were narrow is never allowed.
//! The accessors below put that rule into the types: each raw accessor
//! demands its own encoding, and the one encoding-agnostic reader
//! (`code_units`) does the branch itself.

use vstd::prelude::*;

verus! {

/// The encoding a text view reports for its character data.
#[derive(Clone, Copy, Debug, PartialEq, Eq, Structural)]
pub enum TextEncoding {
    Ascii,
    Wide,
}

/// One guest-heap string: its character data in the encoding the engine
/// chose for it. Also serves as the read-only view a handler resolves a
/// string handle to.
pub enum GuestString {
    /// Narrow storage: one byte per character, every byte below 128.
    Ascii(Vec<u8>),
    /// Wide storage: one sixteen-bit code unit per character.
    Wide(Vec<u16>),
}

impl GuestString {
    /// Well-formed narrow storage holds seven-bit codes only.
    pub open spec fn wf(self) -> bool {
        self matches GuestString::Ascii(bytes) ==> forall|i: int|
            0 <= i < bytes@.len() ==> bytes@[i] < 128
    }

    /// The string's character data as sixteen-bit code units, whatever the
    /// storage encoding.
    pub open spec fn units(self) -> Seq<u16> {
        match self {
            GuestString::Ascii(bytes) => bytes@.map_values(|b: u8| b as u16),
            GuestString::Wide(units) => units@,
        }
    }

    /// The encoding this view reports.
    pub open spec fn spec_encoding(self) -> TextEncoding {
        match self {
            GuestString::Ascii(_) => TextEncoding::Ascii,
            GuestString::Wide(_) => TextEncoding::Wide,
        }
    }

    /// Report the encoding; the caller must branch on this before touching
    /// raw character data.
    pub fn encoding(&self) -> (e: TextEncoding)
        ensures
            e == self.spec_encoding(),
    {
        match self {
            GuestString::Ascii(_) => TextEncoding::Ascii,
            GuestString::Wide(_) => TextEncoding::Wide,
        }
    }

    /// Whether the view reports narrow (seven-bit) storage.
    pub fn is_ascii(&self) -> (r: bool)
        ensures
            r == (self.spec_encoding() == TextEncoding::Ascii),
    {
        match self {
            GuestString::Ascii(_) => true,
            GuestString::Wide(_) => false,
        }
    }

    /// The number of code units in the string.
    pub fn length(&self) -> (n: usize)
        ensures
            n == self.units().len(),
    {
        match self {
            GuestString::Ascii(bytes) => bytes.len(),
            GuestString::Wide(units) => units.len(),
        }
    }

    /// Raw narrow character data. Only callable once the encoding has been
    /// checked: reading these bytes out of a wide string is forbidden by
    /// construction.
    pub fn ascii_bytes(&self) -> (bytes: &Vec<u8>)
        requires
            self.spec_encoding() == TextEncoding::Ascii,
        ensures
            bytes@.map_values(|b: u8| b as u16) == self.units(),
    {
        match self {
            GuestString::Ascii(bytes) => bytes,
            GuestString::Wide(_) => unreached(),
        }
    }

    /// Raw wide character data. Only callable once the encoding has been
    /// checked, mirroring `ascii_bytes`.
    pub fn wide_units(&self) -> (units: &Vec<u16>)
        requires
            self.spec_encoding() == TextEncoding::Wide,
        ensures
            units@ == self.units(),
    {
        match self {
            GuestString::Ascii(_) => unreached(),
            GuestString::Wide(units) => units,
        }
    }

    /// Read the character data as code units, branching on the encoding
    /// flag first. The two raw accessors above each demand one encoding,
    /// so this branch is the single, unambiguous iteration strategy for
    /// any guest string.
    pub fn code_units(&self) -> (out: Vec<u16>)
        ensures
            out@ == self.units(),
    {
        if self.is_ascii() {
            let bytes = self.ascii_bytes();
            let mut out: Vec<u16> = Vec::new();
            let mut i: usize = 0;
            while i < bytes.len()
                invariant
                    i <= bytes@.len(),
                    out@ == bytes@.subrange(0, i as int).map_values(|b: u8| b as u16),
                decreases bytes@.len() - i,
            {
                out.push(bytes[i] as u16);
                proof {
                    assert(bytes@.subrange(0, i + 1 as int) =~= bytes@.subrange(0, i as int).push(
                        bytes@[i as int],
                    ));
                    assert(bytes@.subrange(0, i + 1 as int).map_values(|b: u8| b as u16)
                        =~= bytes@.subrange(0, i as int).map_values(|b: u8| b as u16).push(
                        bytes@[i as int] as u16,
                    ));
                }
                i = i + 1;
            }
            proof {
                assert(bytes@.subrange(0, bytes@.len() as int) =~= bytes@);
            }
            out
        } else {
            let units = self.wide_units();
            let mut out: Vec<u16> = Vec::new();
            let mut i: usize = 0;
            while i < units.len()
                invariant
                    i <= units@.len(),
                    out@ == units@.subrange(0, i as int),
                decreases units@.len() - i,
            {
                out.push(units[i]);
                proof {
                    assert(units@.subrange(0, i + 1 as int) =~= units@.subrange(0, i as int).push(
                        units@[i as int],
                    ));
                }
                i = i + 1;
            }
            proof {
                assert(units@.subrange(0, units@.len() as int) =~= units@);
            }
            out
        }
    }
}

/// Every guest string reports exactly one encoding: the choice between the
/// narrow and the wide iteration strategy is total and unambiguous, so a
/// caller that branches on the flag covers every string and never applies
/// both strategies to one string.
pub proof fn lemma_encoding_determines_strategy(s: GuestString)
    ensures
        (s.spec_encoding() == TextEncoding::Ascii) != (s.spec_encoding() == TextEncoding::Wide),
        s.spec_encoding() == TextEncoding::Ascii ==> s matches GuestString::Ascii(_),
        s.spec_encoding() == TextEncoding::Wide ==> s matches GuestString::Wide(_),
{
}

} // verus!
