//! The section framer and dispatcher, and the module's section table.
//!
//! Framing and interpretation are two phases: the framer reads a one-byte
//! section id and a declared body size, and takes exactly that many bytes
//! as the body; the dispatcher then hands the body to the kind-specific
//! decoder. The split isolates transport-level corruption (a wrong length,
//! a truncated stream — fatal) from what a body decoder leaves over
//! (tolerated; the framer's declared length resynchronizes the stream).

use crate::code_section::CodeSection;
use crate::code_section::CodeSectionV;
use crate::code_section::parse_code_section;
use crate::code_section::sp_code_section;
use crate::error::DecodeError;
use crate::function_section::FunctionSection;
use crate::function_section::FunctionSectionV;
use crate::function_section::parse_function_section;
use crate::function_section::sp_function_section;
use crate::leb128::lemma_leb_u32_bounds;
use crate::leb128::lemma_leb_u32_decode_encode;
use crate::leb128::lemma_leb_u32_local;
use crate::leb128::lemma_uleb_encode_len;
use crate::leb128::parse_leb_u32;
use crate::leb128::sp_leb_u32;
use crate::leb128::uleb_encode;
use crate::type_section::TypeSection;
use crate::type_section::TypeSectionV;
use crate::type_section::parse_type_section;
use crate::type_section::sp_type_section;
use vstd::prelude::*;

verus! {

/// The known section kinds, each named by a one-byte id in the stream
/// (custom `0x00`, type `0x01`, import `0x02`, function `0x03`, memory
/// `0x05`, export `0x07`, code `0x0A`, data `0x0B`).
#[derive(Debug, Clone, Copy, PartialEq, Eq, Structural)]
pub enum SectionCode {
    Custom,
    Type,
    Import,
    Function,
    Memory,
    Export,
    Code,
    Data,
}

/// The section kind an id byte stands for, if any.
pub open spec fn sp_section_code(b: u8) -> Option<SectionCode> {
    if b == 0x00 {
        Some(SectionCode::Custom)
    } else if b == 0x01 {
        Some(SectionCode::Type)
    } else if b == 0x02 {
        Some(SectionCode::Import)
    } else if b == 0x03 {
        Some(SectionCode::Function)
    } else if b == 0x05 {
        Some(SectionCode::Memory)
    } else if b == 0x07 {
        Some(SectionCode::Export)
    } else if b == 0x0A {
        Some(SectionCode::Code)
    } else if b == 0x0B {
        Some(SectionCode::Data)
    } else {
        None
    }
}

/// Classifies a section id byte.
pub fn section_code_from_byte(b: u8) -> (r: Option<SectionCode>)
    ensures
        r == sp_section_code(b),
{
    if b == 0x00 {
        Some(SectionCode::Custom)
    } else if b == 0x01 {
        Some(SectionCode::Type)
    } else if b == 0x02 {
        Some(SectionCode::Import)
    } else if b == 0x03 {
        Some(SectionCode::Function)
    } else if b == 0x05 {
        Some(SectionCode::Memory)
    } else if b == 0x07 {
        Some(SectionCode::Export)
    } else if b == 0x0A {
        Some(SectionCode::Code)
    } else if b == 0x0B {
        Some(SectionCode::Data)
    } else {
        None
    }
}

/// The opaque marker kept for a section whose body the decoder does not
/// yet interpret.
#[derive(Debug, Clone, PartialEq, Eq, Structural)]
pub struct GenericSection {}

/// One decoded section, tagged by kind. Kinds the decoder does not yet
/// interpret keep an opaque marker.
#[derive(Debug, PartialEq, Eq)]
pub enum Section {
    Custom(GenericSection),
    Type(TypeSection),
    Import(GenericSection),
    Function(FunctionSection),
    Memory(GenericSection),
    Export(GenericSection),
    Code(CodeSection),
    Data(GenericSection),
}

/// The mathematical model of a [`Section`].
#[verifier::ext_equal]
pub enum SectionV {
    Custom(GenericSection),
    Type(TypeSectionV),
    Import(GenericSection),
    Function(FunctionSectionV),
    Memory(GenericSection),
    Export(GenericSection),
    Code(CodeSectionV),
    Data(GenericSection),
}

impl View for Section {
    type V = SectionV;

    open spec fn view(&self) -> SectionV {
        match self {
            Section::Custom(g) => SectionV::Custom(*g),
            Section::Type(t) => SectionV::Type(t@),
            Section::Import(g) => SectionV::Import(*g),
            Section::Function(f) => SectionV::Function(f@),
            Section::Memory(g) => SectionV::Memory(*g),
            Section::Export(g) => SectionV::Export(*g),
            Section::Code(c) => SectionV::Code(c@),
            Section::Data(g) => SectionV::Data(*g),
        }
    }
}

/// The frame of one section at `pos`: its id byte, its declared body size,
/// and the position where the body starts. The cursor lands just past the
/// body; a body the stream cannot hold is a truncated section.
pub open spec fn sp_frame_section(s: Seq<u8>, pos: int, end: int) -> Result<
    ((u8, u32, int), int),
    DecodeError,
> {
    if pos >= end {
        Err(DecodeError::TruncatedInput)
    } else {
        match sp_leb_u32(s, pos + 1, end) {
            Ok((size, p)) => if p + size > end {
                Err(DecodeError::TruncatedSection)
            } else {
                Ok(((s[pos], size, p), p + size))
            },
            Err(e) => Err(e),
        }
    }
}

/// One section at `pos`: the frame, then the kind-specific decoder on
/// exactly the framed body. An id that names no known kind is not an error
/// at this layer: the section is classified as custom and its body kept
/// opaque. Bytes a body decoder leaves over are tolerated; the frame's
/// declared length fixes where the next section starts.
pub open spec fn sp_section(s: Seq<u8>, pos: int, end: int) -> Result<(SectionV, int), DecodeError> {
    match sp_frame_section(s, pos, end) {
        Ok(((id, size, body_start), p)) => {
            let body_end = body_start + size;
            match sp_section_code(id) {
                Some(SectionCode::Type) => match sp_type_section(s, body_start, body_end) {
                    Ok((ts, _)) => Ok((SectionV::Type(ts), p)),
                    Err(e) => Err(e),
                },
                Some(SectionCode::Function) => match sp_function_section(
                    s,
                    body_start,
                    body_end,
                ) {
                    Ok((fs, _)) => Ok((SectionV::Function(fs), p)),
                    Err(e) => Err(e),
                },
                Some(SectionCode::Code) => match sp_code_section(s, body_start, body_end) {
                    Ok((cs, _)) => Ok((SectionV::Code(cs), p)),
                    Err(e) => Err(e),
                },
                Some(SectionCode::Import) => Ok((SectionV::Import(GenericSection {  }), p)),
                Some(SectionCode::Memory) => Ok((SectionV::Memory(GenericSection {  }), p)),
                Some(SectionCode::Export) => Ok((SectionV::Export(GenericSection {  }), p)),
                Some(SectionCode::Data) => Ok((SectionV::Data(GenericSection {  }), p)),
                Some(SectionCode::Custom) => Ok((SectionV::Custom(GenericSection {  }), p)),
                None => Ok((SectionV::Custom(GenericSection {  }), p)),
            }
        },
        Err(e) => Err(e),
    }
}

/// The module's section table: one optional slot per known kind. At most
/// one value is retained per kind; when a kind appears more than once in a
/// stream, the last occurrence wins.
#[derive(Debug, PartialEq, Eq)]
pub struct Sections {
    pub types: Option<TypeSection>,
    pub functions: Option<FunctionSection>,
    pub code: Option<CodeSection>,
    pub custom: Option<GenericSection>,
    pub import: Option<GenericSection>,
    pub memory: Option<GenericSection>,
    pub export: Option<GenericSection>,
    pub data: Option<GenericSection>,
}

/// The mathematical model of a [`Sections`] table.
#[verifier::ext_equal]
pub struct SectionsV {
    pub types: Option<TypeSectionV>,
    pub functions: Option<FunctionSectionV>,
    pub code: Option<CodeSectionV>,
    pub custom: Option<GenericSection>,
    pub import: Option<GenericSection>,
    pub memory: Option<GenericSection>,
    pub export: Option<GenericSection>,
    pub data: Option<GenericSection>,
}

impl View for Sections {
    type V = SectionsV;

    open spec fn view(&self) -> SectionsV {
        SectionsV {
            types: match self.types {
                Some(t) => Some(t@),
                None => None,
            },
            functions: match self.functions {
                Some(f) => Some(f@),
                None => None,
            },
            code: match self.code {
                Some(c) => Some(c@),
                None => None,
            },
            custom: self.custom,
            import: self.import,
            memory: self.memory,
            export: self.export,
            data: self.data,
        }
    }
}

/// The table with every slot empty.
pub open spec fn sections_v_empty() -> SectionsV {
    SectionsV {
        types: None,
        functions: None,
        code: None,
        custom: None,
        import: None,
        memory: None,
        export: None,
        data: None,
    }
}

/// Merges one decoded section into the table, overwriting the slot of its
/// kind: the last occurrence of a kind wins.
pub open spec fn sp_merge_section(acc: SectionsV, sec: SectionV) -> SectionsV {
    match sec {
        SectionV::Custom(g) => SectionsV { custom: Some(g), ..acc },
        SectionV::Type(t) => SectionsV { types: Some(t), ..acc },
        SectionV::Import(g) => SectionsV { import: Some(g), ..acc },
        SectionV::Function(f) => SectionsV { functions: Some(f), ..acc },
        SectionV::Memory(g) => SectionsV { memory: Some(g), ..acc },
        SectionV::Export(g) => SectionsV { export: Some(g), ..acc },
        SectionV::Code(c) => SectionsV { code: Some(c), ..acc },
        SectionV::Data(g) => SectionsV { data: Some(g), ..acc },
    }
}

/// Sections from `pos` to the end of the input, merged into `acc` in
/// stream order. Stops at end-of-input; the first section-level failure
/// aborts, since a malformed frame leaves no reliable resynchronization
/// point.
pub open spec fn sp_sections(s: Seq<u8>, pos: int, end: int, acc: SectionsV) -> Result<
    (SectionsV, int),
    DecodeError,
>
    decreases end - pos,
{
    if pos >= end {
        Ok((acc, pos))
    } else {
        match sp_section(s, pos, end) {
            Ok((sec, p)) => if p <= pos || end < p {
                // a section always advances the cursor and stays in
                // bounds; this branch keeps the recursion manifestly
                // well-founded
                Err(DecodeError::TruncatedInput)
            } else {
                sp_sections(s, p, end, sp_merge_section(acc, sec))
            },
            Err(e) => Err(e),
        }
    }
}

impl Sections {
    /// The empty section table.
    pub fn new() -> (r: Sections)
        ensures
            r@ == sections_v_empty(),
    {
        Sections {
            types: None,
            functions: None,
            code: None,
            custom: None,
            import: None,
            memory: None,
            export: None,
            data: None,
        }
    }
}

impl Default for Sections {
    /// The empty section table.
    fn default() -> (r: Sections)
        ensures
            r@ == sections_v_empty(),
    {
        Sections::new()
    }
}

/// Decodes one section at `pos`: frames it, then runs the kind-specific
/// decoder on exactly the framed body.
pub fn parse_section(input: &[u8], pos: usize, end: usize) -> (r: Result<
    (Section, usize),
    DecodeError,
>)
    requires
        pos <= end <= input@.len(),
    ensures
        match r {
            Ok((v, p)) => sp_section(input@, pos as int, end as int) == Ok::<
                (SectionV, int),
                DecodeError,
            >((v@, p as int)) && pos < p <= end,
            Err(e) => sp_section(input@, pos as int, end as int) == Err::<
                (SectionV, int),
                DecodeError,
            >(e),
        },
{
    if pos >= end {
        return Err(DecodeError::TruncatedInput);
    }
    let id = input[pos];
    let (size, p) = match parse_leb_u32(input, pos + 1, end) {
        Ok(x) => x,
        Err(e) => {
            return Err(e);
        },
    };
    if (size as usize) > end - p {
        return Err(DecodeError::TruncatedSection);
    }
    let body_start = p;
    let body_end = p + (size as usize);
    match section_code_from_byte(id) {
        Some(SectionCode::Type) => match parse_type_section(input, body_start, body_end) {
            Ok((ts, _)) => Ok((Section::Type(ts), body_end)),
            Err(e) => Err(e),
        },
        Some(SectionCode::Function) => match parse_function_section(input, body_start, body_end) {
            Ok((fs, _)) => Ok((Section::Function(fs), body_end)),
            Err(e) => Err(e),
        },
        Some(SectionCode::Code) => match parse_code_section(input, body_start, body_end) {
            Ok((cs, _)) => Ok((Section::Code(cs), body_end)),
            Err(e) => Err(e),
        },
        Some(SectionCode::Import) => Ok((Section::Import(GenericSection {  }), body_end)),
        Some(SectionCode::Memory) => Ok((Section::Memory(GenericSection {  }), body_end)),
        Some(SectionCode::Export) => Ok((Section::Export(GenericSection {  }), body_end)),
        Some(SectionCode::Data) => Ok((Section::Data(GenericSection {  }), body_end)),
        Some(SectionCode::Custom) => Ok((Section::Custom(GenericSection {  }), body_end)),
        None => Ok((Section::Custom(GenericSection {  }), body_end)),
    }
}

impl Section {
    /// Decodes the one section at the start of `input`, returning it with
    /// the count of bytes its frame declared.
    pub fn new(input: &Vec<u8>) -> (r: Result<(Section, usize), DecodeError>)
        ensures
            match r {
                Ok((v, p)) => sp_section(input@, 0, input@.len() as int) == Ok::<
                    (SectionV, int),
                    DecodeError,
                >((v@, p as int)),
                Err(e) => sp_section(input@, 0, input@.len() as int) == Err::<
                    (SectionV, int),
                    DecodeError,
                >(e),
            },
    {
        parse_section(input.as_slice(), 0, input.len())
    }
}

/// Decodes every section from `pos` to the end of the input into a section
/// table, merging by kind with the last occurrence of a kind winning.
#[verifier::loop_isolation(false)]
pub fn parse_sections(input: &[u8], pos: usize, end: usize) -> (r: Result<
    (Sections, usize),
    DecodeError,
>)
    requires
        pos <= end <= input@.len(),
    ensures
        match r {
            Ok((v, p)) => sp_sections(input@, pos as int, end as int, sections_v_empty()) == Ok::<
                (SectionsV, int),
                DecodeError,
            >((v@, p as int)) && pos <= p <= end,
            Err(e) => sp_sections(input@, pos as int, end as int, sections_v_empty()) == Err::<
                (SectionsV, int),
                DecodeError,
            >(e),
        },
{
    let mut secs = Sections::new();
    let mut cur = pos;
    while cur < end
        invariant
            pos <= cur <= end,
            sp_sections(input@, cur as int, end as int, secs@) == sp_sections(
                input@,
                pos as int,
                end as int,
                sections_v_empty(),
            ),
        decreases end - cur,
    {
        match parse_section(input, cur, end) {
            Ok((sec, p)) => {
                proof {
                    assert(sp_sections(input@, cur as int, end as int, secs@) == sp_sections(
                        input@,
                        p as int,
                        end as int,
                        sp_merge_section(secs@, sec@),
                    ));
                }
                match sec {
                    Section::Custom(g) => {
                        secs.custom = Some(g);
                    },
                    Section::Type(t) => {
                        secs.types = Some(t);
                    },
                    Section::Import(g) => {
                        secs.import = Some(g);
                    },
                    Section::Function(f) => {
                        secs.functions = Some(f);
                    },
                    Section::Memory(g) => {
                        secs.memory = Some(g);
                    },
                    Section::Export(g) => {
                        secs.export = Some(g);
                    },
                    Section::Code(c) => {
                        secs.code = Some(c);
                    },
                    Section::Data(g) => {
                        secs.data = Some(g);
                    },
                }
                cur = p;
            },
            Err(e) => {
                return Err(e);
            },
        }
    }
    Ok((secs, cur))
}

/// Round-trip framing: wherever a section stands as its id byte, the
/// canonical encoding of its body length, and exactly that many body
/// bytes, the framer accepts it, hands back exactly that body range, and
/// advances the cursor by `1 + varint_width(len) + len`.
pub proof fn lemma_section_round_trip_framing(
    s: Seq<u8>,
    pos: int,
    end: int,
    id: u8,
    len: u32,
    body: Seq<u8>,
)
    requires
        0 <= pos,
        end <= s.len(),
        body.len() == len,
        s[pos] == id,
        pos + 1 + uleb_encode(len as nat).len() + len <= end,
        s.subrange(pos + 1, pos + 1 + uleb_encode(len as nat).len() as int) == uleb_encode(
            len as nat,
        ),
        s.subrange(
            pos + 1 + uleb_encode(len as nat).len() as int,
            pos + 1 + uleb_encode(len as nat).len() + len,
        ) == body,
    ensures
        sp_frame_section(s, pos, end) == Ok::<((u8, u32, int), int), DecodeError>(
            (
                (id, len, pos + 1 + uleb_encode(len as nat).len()),
                pos + 1 + uleb_encode(len as nat).len() + len,
            ),
        ),
        s.subrange(
            pos + 1 + uleb_encode(len as nat).len() as int,
            pos + 1 + uleb_encode(len as nat).len() + len,
        ) == body,
{
    lemma_uleb_encode_len(len as nat);
    lemma_leb_u32_decode_encode(s, pos + 1, end, len);
}

/// Truncation is never a silent short read: cutting the last byte off a
/// buffer that ends exactly where a framed section's body ends makes the
/// framer fail with `TruncatedSection`.
pub proof fn lemma_section_truncation(
    s: Seq<u8>,
    pos: int,
    end: int,
    id: u8,
    size: u32,
    body_start: int,
)
    requires
        0 <= pos,
        end <= s.len(),
        1 <= size,
        sp_frame_section(s, pos, end) == Ok::<((u8, u32, int), int), DecodeError>(
            ((id, size, body_start), end),
        ),
    ensures
        sp_frame_section(s, pos, end - 1) == Err::<((u8, u32, int), int), DecodeError>(
            DecodeError::TruncatedSection,
        ),
{
    lemma_leb_u32_bounds(s, pos + 1, end);
    lemma_leb_u32_local(s, pos + 1, end, end - 1, size, body_start);
}

} // verus!
