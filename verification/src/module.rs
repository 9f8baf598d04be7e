//! The module decoder: the 8-byte preamble, then sections until the input
//! is exhausted.

use crate::error::DecodeError;
use crate::prim::parse_le_u32;
use crate::prim::sp_le_u32;
use crate::section::Sections;
use crate::section::SectionsV;
use crate::section::parse_sections;
use crate::section::sections_v_empty;
use crate::section::sp_sections;
use vstd::prelude::*;

verus! {

/// One fully decoded binary module: its version field and its section
/// table. Constructed once per successful decode; the decoder never
/// mutates a value it has returned.
#[derive(Debug, PartialEq, Eq)]
pub struct Module {
    pub version: u32,
    pub sections: Sections,
}

/// The mathematical model of a [`Module`].
#[verifier::ext_equal]
pub struct ModuleV {
    pub version: u32,
    pub sections: SectionsV,
}

impl View for Module {
    type V = ModuleV;

    open spec fn view(&self) -> ModuleV {
        ModuleV { version: self.version, sections: self.sections@ }
    }
}

/// Whether `s` begins with the 4-byte magic cookie `\0asm`.
pub open spec fn sp_magic(s: Seq<u8>) -> bool {
    s.len() >= 4 && s[0] == 0x00 && s[1] == 0x61 && s[2] == 0x73 && s[3] == 0x6D
}

/// One whole module: fewer than 8 bytes is a truncated header; a wrong
/// cookie is `BadMagic`; then the 4-byte little-endian version (any value
/// is accepted) and the sections to the end of the input. The first
/// section-level failure aborts the decode; no partial module is ever
/// returned.
pub open spec fn sp_module(s: Seq<u8>) -> Result<ModuleV, DecodeError> {
    if s.len() < 8 {
        Err(DecodeError::TruncatedHeader)
    } else if !sp_magic(s) {
        Err(DecodeError::BadMagic)
    } else {
        match sp_le_u32(s, 4, s.len() as int) {
            Ok((version, _)) => match sp_sections(s, 8, s.len() as int, sections_v_empty()) {
                Ok((sections, _)) => Ok(ModuleV { version, sections }),
                Err(e) => Err(e),
            },
            Err(e) => Err(e),
        }
    }
}

impl Module {
    /// Decodes one whole module from `input`.
    ///
    /// The result is exactly the value [`sp_module`] assigns to the bytes,
    /// so decoding is a pure function of the buffer: the same bytes always
    /// give the same module, or the same error.
    pub fn decode(input: &[u8]) -> (r: Result<Module, DecodeError>)
        ensures
            match r {
                Ok(m) => sp_module(input@) == Ok::<ModuleV, DecodeError>(m@),
                Err(e) => sp_module(input@) == Err::<ModuleV, DecodeError>(e),
            },
    {
        let n = input.len();
        if n < 8 {
            return Err(DecodeError::TruncatedHeader);
        }
        if !(input[0] == 0x00 && input[1] == 0x61 && input[2] == 0x73 && input[3] == 0x6D) {
            return Err(DecodeError::BadMagic);
        }
        let (version, _) = match parse_le_u32(input, 4, n) {
            Ok(x) => x,
            Err(e) => {
                return Err(e);
            },
        };
        match parse_sections(input, 8, n) {
            Ok((sections, _)) => Ok(Module { version, sections }),
            Err(e) => Err(e),
        }
    }

    /// Builds a module from a buffer whose preamble the caller has already
    /// checked: at least 8 bytes, starting with the magic cookie. Reads
    /// only the header and leaves every section slot empty;
    /// [`Module::decode`] is the checked entry that decodes the sections
    /// too.
    pub fn new(input: &Vec<u8>) -> (r: Module)
        requires
            input@.len() >= 8,
            sp_magic(input@),
        ensures
            sp_le_u32(input@, 4, input@.len() as int) == Ok::<(u32, int), DecodeError>(
                (r.version, 8),
            ),
            r.sections@ == sections_v_empty(),
    {
        let lo = (input[4] as u32) + 0x100 * (input[5] as u32);
        let hi = 0x1_0000 * (input[6] as u32) + 0x100_0000 * (input[7] as u32);
        Module { version: lo + hi, sections: Sections::new() }
    }
}

/// Decoding is deterministic and side-effect-free: any two decodes of the
/// same byte buffer yield structurally equal results.
pub proof fn lemma_decode_deterministic(
    s: Seq<u8>,
    r1: Result<ModuleV, DecodeError>,
    r2: Result<ModuleV, DecodeError>,
)
    requires
        r1 == sp_module(s),
        r2 == sp_module(s),
    ensures
        r1 == r2,
{
}

} // verus!
