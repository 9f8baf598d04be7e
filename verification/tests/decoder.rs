//! Module decoder tests, from the preamble down to instruction operands.

use wasm_decoder::code_section::CodeSection;
use wasm_decoder::code_section::Function;
use wasm_decoder::code_section::FunctionLocal;
use wasm_decoder::error::DecodeError;
use wasm_decoder::function_section::FunctionSection;
use wasm_decoder::instruction::Index;
use wasm_decoder::instruction::InstantValue;
use wasm_decoder::instruction::Instruction;
use wasm_decoder::instruction::MemArg;
use wasm_decoder::instruction::OpArgument;
use wasm_decoder::instruction::parse_instruction;
use wasm_decoder::module::Module;
use wasm_decoder::section::Section;
use wasm_decoder::section::Sections;
use wasm_decoder::type_section::FuncType;
use wasm_decoder::type_section::TypeSection;
use wasm_decoder::types::ValueType;
use wasm_decoder::types::parse_value_type;

/// Magic cookie and version 1: the canonical empty module.
fn header() -> Vec<u8> {
    vec![0x00, 0x61, 0x73, 0x6D, 0x01, 0x00, 0x00, 0x00]
}

fn module_with(sections: &[&[u8]]) -> Vec<u8> {
    let mut bytes = header();
    for s in sections {
        bytes.extend_from_slice(s);
    }
    bytes
}

#[test]
fn decode_empty_module() {
    let module = Module::decode(&header()).unwrap();
    assert_eq!(
        module,
        Module {
            version: 1,
            sections: Sections::new(),
        }
    );
}

#[test]
fn decode_any_version_accepted() {
    let bytes = vec![0x00, 0x61, 0x73, 0x6D, 0x07, 0x00, 0x00, 0x01];
    let module = Module::decode(&bytes).unwrap();
    assert_eq!(module.version, 0x0100_0007);
}

#[test]
fn decode_truncated_header() {
    assert_eq!(Module::decode(&[]), Err(DecodeError::TruncatedHeader));
    assert_eq!(
        Module::decode(&[0x00, 0x61, 0x73]),
        Err(DecodeError::TruncatedHeader)
    );
    assert_eq!(
        Module::decode(&[0x00, 0x61, 0x73, 0x6D, 0x01, 0x00, 0x00]),
        Err(DecodeError::TruncatedHeader)
    );
}

#[test]
fn decode_bad_magic() {
    let bytes = vec![0x00, 0x61, 0x73, 0x6E, 0x01, 0x00, 0x00, 0x00];
    assert_eq!(Module::decode(&bytes), Err(DecodeError::BadMagic));
}

#[test]
fn decode_single_empty_function() {
    // one signature () -> (), one function of type 0, one body of just End
    let bytes = module_with(&[
        &[0x01, 0x04, 0x01, 0x60, 0x00, 0x00],
        &[0x03, 0x02, 0x01, 0x00],
        &[0x0A, 0x04, 0x01, 0x02, 0x00, 0x0B],
    ]);
    let module = Module::decode(&bytes).unwrap();
    assert_eq!(
        module.sections.types,
        Some(TypeSection {
            function_types: vec![FuncType {
                params: vec![],
                results: vec![],
            }],
        })
    );
    assert_eq!(
        module.sections.functions,
        Some(FunctionSection {
            type_indices: vec![0],
        })
    );
    assert_eq!(
        module.sections.code,
        Some(CodeSection {
            functions: vec![Function {
                locals: vec![],
                code: vec![],
            }],
        })
    );
    assert_eq!(module.sections.custom, None);
    assert_eq!(module.sections.import, None);
    assert_eq!(module.sections.memory, None);
    assert_eq!(module.sections.export, None);
    assert_eq!(module.sections.data, None);
}

#[test]
fn decode_is_idempotent() {
    let bytes = module_with(&[
        &[0x01, 0x04, 0x01, 0x60, 0x00, 0x00],
        &[0x03, 0x02, 0x01, 0x00],
        &[0x0A, 0x04, 0x01, 0x02, 0x00, 0x0B],
    ]);
    assert_eq!(Module::decode(&bytes), Module::decode(&bytes));

    let broken = vec![0x00, 0x61, 0x73, 0x6D, 0x01, 0x00, 0x00, 0x00, 0xFF];
    assert_eq!(Module::decode(&broken), Module::decode(&broken));
}

#[test]
fn decode_truncated_section_body() {
    let mut bytes = module_with(&[
        &[0x01, 0x04, 0x01, 0x60, 0x00, 0x00],
        &[0x03, 0x02, 0x01, 0x00],
        &[0x0A, 0x04, 0x01, 0x02, 0x00, 0x0B],
    ]);
    bytes.pop();
    assert_eq!(Module::decode(&bytes), Err(DecodeError::TruncatedSection));
}

#[test]
fn decode_no_silent_short_reads() {
    // a cut inside any section's frame fails the decode; only the cuts on
    // section boundaries (after the header, byte 8, and after each whole
    // section, bytes 14 and 18) leave a well-formed shorter module
    let bytes = module_with(&[
        &[0x01, 0x04, 0x01, 0x60, 0x00, 0x00],
        &[0x03, 0x02, 0x01, 0x00],
        &[0x0A, 0x04, 0x01, 0x02, 0x00, 0x0B],
    ]);
    for cut in 9..bytes.len() {
        let r = Module::decode(&bytes[..cut]);
        if cut == 14 || cut == 18 {
            assert!(r.is_ok());
        } else {
            assert!(r.is_err());
        }
    }
}

#[test]
fn decode_unknown_opcode_fails_whole_module() {
    // a body holding byte 0xFE, assigned in no instruction family
    let bytes = module_with(&[
        &[0x01, 0x04, 0x01, 0x60, 0x00, 0x00],
        &[0x03, 0x02, 0x01, 0x00],
        &[0x0A, 0x04, 0x01, 0x02, 0x00, 0xFE],
    ]);
    assert_eq!(
        Module::decode(&bytes),
        Err(DecodeError::UnknownOpcode(0xFE))
    );
}

#[test]
fn decode_nested_blocks_depth_counted() {
    // Block Block End End, then the body's own End
    let bytes = module_with(&[
        &[0x01, 0x04, 0x01, 0x60, 0x00, 0x00],
        &[0x03, 0x02, 0x01, 0x00],
        &[0x0A, 0x08, 0x01, 0x06, 0x00, 0x02, 0x02, 0x0B, 0x0B, 0x0B],
    ]);
    let module = Module::decode(&bytes).unwrap();
    let code = module.sections.code.unwrap();
    assert_eq!(
        code.functions[0].code,
        vec![Instruction {
            opcode: 0x02,
            arguments: OpArgument::Block(vec![Instruction {
                opcode: 0x02,
                arguments: OpArgument::Block(vec![]),
            }]),
        }]
    );
}

#[test]
fn decode_unbalanced_block_is_truncation() {
    // the inner Block's End closes it; the body then ends with the outer
    // sequence still open
    let bytes = module_with(&[
        &[0x01, 0x04, 0x01, 0x60, 0x00, 0x00],
        &[0x03, 0x02, 0x01, 0x00],
        &[0x0A, 0x05, 0x01, 0x03, 0x00, 0x02, 0x0B],
    ]);
    assert_eq!(Module::decode(&bytes), Err(DecodeError::TruncatedInput));
}

#[test]
fn decode_bare_else_fails() {
    let bytes = module_with(&[
        &[0x01, 0x04, 0x01, 0x60, 0x00, 0x00],
        &[0x03, 0x02, 0x01, 0x00],
        &[0x0A, 0x05, 0x01, 0x03, 0x00, 0x05, 0x0B],
    ]);
    assert_eq!(
        Module::decode(&bytes),
        Err(DecodeError::UnknownOpcode(0x05))
    );
}

#[test]
fn decode_if_with_else() {
    // If Nop Else Unreachable End, inside the usual one-function module
    let bytes = module_with(&[
        &[0x01, 0x04, 0x01, 0x60, 0x00, 0x00],
        &[0x03, 0x02, 0x01, 0x00],
        &[0x0A, 0x09, 0x01, 0x07, 0x00, 0x04, 0x01, 0x05, 0x00, 0x0B, 0x0B],
    ]);
    let module = Module::decode(&bytes).unwrap();
    let code = module.sections.code.unwrap();
    assert_eq!(
        code.functions[0].code,
        vec![Instruction {
            opcode: 0x04,
            arguments: OpArgument::IfElse(
                vec![Instruction {
                    opcode: 0x01,
                    arguments: OpArgument::NoArg,
                }],
                Some(vec![Instruction {
                    opcode: 0x00,
                    arguments: OpArgument::NoArg,
                }]),
            ),
        }]
    );
}

#[test]
fn decode_instruction_operands() {
    // i32.const -2, i64.const 3, local.get 1, global.set 0,
    // i32.load align=2 offset=16, drop, br_table [0,1] default 2, end
    let body: Vec<u8> = vec![
        0x00, // no locals
        0x41, 0x7E, // i32.const -2
        0x42, 0x03, // i64.const 3
        0x20, 0x01, // local.get 1
        0x24, 0x00, // global.set 0
        0x28, 0x02, 0x10, // i32.load align=2 offset=16
        0x1A, // drop
        0x0E, 0x02, 0x00, 0x01, 0x02, // br_table [0, 1] default 2
        0x0B, // end
    ];
    let mut code_section = vec![0x0A, (body.len() + 2) as u8, 0x01, body.len() as u8];
    code_section.extend_from_slice(&body);
    let bytes = module_with(&[
        &[0x01, 0x04, 0x01, 0x60, 0x00, 0x00],
        &[0x03, 0x02, 0x01, 0x00],
        &code_section,
    ]);
    let module = Module::decode(&bytes).unwrap();
    let code = module.sections.code.unwrap();
    assert_eq!(
        code.functions[0].code,
        vec![
            Instruction {
                opcode: 0x41,
                arguments: OpArgument::InstantValue(InstantValue::I32(-2)),
            },
            Instruction {
                opcode: 0x42,
                arguments: OpArgument::InstantValue(InstantValue::I64(3)),
            },
            Instruction {
                opcode: 0x20,
                arguments: OpArgument::Index(Index::Local(1)),
            },
            Instruction {
                opcode: 0x24,
                arguments: OpArgument::Index(Index::Global(0)),
            },
            Instruction {
                opcode: 0x28,
                arguments: OpArgument::MemArg(MemArg {
                    align: 2,
                    offset: 16,
                }),
            },
            Instruction {
                opcode: 0x1A,
                arguments: OpArgument::NoArg,
            },
            Instruction {
                opcode: 0x0E,
                arguments: OpArgument::BrTable(vec![0, 1], 2),
            },
        ]
    );
}

#[test]
fn decode_float_const_bit_patterns() {
    // f32.const 1.5, f64.const -2.0, end
    let body: Vec<u8> = vec![
        0x00, // no locals
        0x43, 0x00, 0x00, 0xC0, 0x3F, // f32.const 1.5
        0x44, 0x00, 0x00, 0x00, 0x00, 0x00, 0x00, 0x00, 0xC0, // f64.const -2.0
        0x0B, // end
    ];
    let mut code_section = vec![0x0A, (body.len() + 2) as u8, 0x01, body.len() as u8];
    code_section.extend_from_slice(&body);
    let bytes = module_with(&[
        &[0x01, 0x04, 0x01, 0x60, 0x00, 0x00],
        &[0x03, 0x02, 0x01, 0x00],
        &code_section,
    ]);
    let module = Module::decode(&bytes).unwrap();
    let code = module.sections.code.unwrap();
    assert_eq!(
        code.functions[0].code,
        vec![
            Instruction {
                opcode: 0x43,
                arguments: OpArgument::InstantValue(InstantValue::F32(1.5f32.to_bits())),
            },
            Instruction {
                opcode: 0x44,
                arguments: OpArgument::InstantValue(InstantValue::F64((-2.0f64).to_bits())),
            },
        ]
    );
}

#[test]
fn decode_call_instructions() {
    let body: Vec<u8> = vec![
        0x00, // no locals
        0x10, 0x07, // call 7
        0x11, 0x03, 0x00, // call_indirect type 3 table 0
        0x0C, 0x00, // br 0
        0x0D, 0x01, // br_if 1
        0x0F, // return
        0x0B, // end
    ];
    let mut code_section = vec![0x0A, (body.len() + 2) as u8, 0x01, body.len() as u8];
    code_section.extend_from_slice(&body);
    let bytes = module_with(&[
        &[0x01, 0x04, 0x01, 0x60, 0x00, 0x00],
        &[0x03, 0x02, 0x01, 0x00],
        &code_section,
    ]);
    let module = Module::decode(&bytes).unwrap();
    let code = module.sections.code.unwrap();
    assert_eq!(
        code.functions[0].code,
        vec![
            Instruction {
                opcode: 0x10,
                arguments: OpArgument::CallFunc(7),
            },
            Instruction {
                opcode: 0x11,
                arguments: OpArgument::CallIndirect(3, 0),
            },
            Instruction {
                opcode: 0x0C,
                arguments: OpArgument::Depth(0),
            },
            Instruction {
                opcode: 0x0D,
                arguments: OpArgument::Depth(1),
            },
            Instruction {
                opcode: 0x0F,
                arguments: OpArgument::NoArg,
            },
        ]
    );
}

#[test]
fn decode_locals_groups() {
    // two groups: 2 x i32, 1 x f64
    let bytes = module_with(&[
        &[0x01, 0x04, 0x01, 0x60, 0x00, 0x00],
        &[0x03, 0x02, 0x01, 0x00],
        &[0x0A, 0x08, 0x01, 0x06, 0x02, 0x02, 0x7F, 0x01, 0x7C, 0x0B],
    ]);
    let module = Module::decode(&bytes).unwrap();
    let code = module.sections.code.unwrap();
    assert_eq!(
        code.functions[0].locals,
        vec![
            FunctionLocal {
                count: 2,
                value_type: ValueType::I32,
            },
            FunctionLocal {
                count: 1,
                value_type: ValueType::F64,
            },
        ]
    );
}

#[test]
fn decode_signature_with_params_and_results() {
    // (i32, f32) -> (i64)
    let bytes = module_with(&[&[0x01, 0x07, 0x01, 0x60, 0x02, 0x7F, 0x7D, 0x01, 0x7E]]);
    let module = Module::decode(&bytes).unwrap();
    assert_eq!(
        module.sections.types,
        Some(TypeSection {
            function_types: vec![FuncType {
                params: vec![ValueType::I32, ValueType::F32],
                results: vec![ValueType::I64],
            }],
        })
    );
}

#[test]
fn decode_invalid_value_type() {
    let bytes = module_with(&[&[0x01, 0x05, 0x01, 0x60, 0x01, 0x55, 0x00]]);
    assert_eq!(
        Module::decode(&bytes),
        Err(DecodeError::InvalidValueType(0x55))
    );
}

#[test]
fn decode_invalid_func_type_tag() {
    let bytes = module_with(&[&[0x01, 0x04, 0x01, 0x61, 0x00, 0x00]]);
    assert_eq!(
        Module::decode(&bytes),
        Err(DecodeError::InvalidFuncTypeTag(0x61))
    );
}

#[test]
fn decode_truncated_function_body() {
    // the function declares ten body bytes; its section holds none
    let bytes = module_with(&[&[0x0A, 0x02, 0x01, 0x0A]]);
    assert_eq!(
        Module::decode(&bytes),
        Err(DecodeError::TruncatedFunctionBody)
    );
}

#[test]
fn decode_malformed_section_size() {
    let bytes = module_with(&[&[0x01, 0x80]]);
    assert_eq!(Module::decode(&bytes), Err(DecodeError::MalformedVarint));
}

#[test]
fn decode_unknown_section_id_kept_opaque() {
    let bytes = module_with(&[&[0x0C, 0x01, 0xAA]]);
    let module = Module::decode(&bytes).unwrap();
    assert!(module.sections.custom.is_some());
    assert_eq!(module.sections.types, None);
}

#[test]
fn decode_marker_sections_by_kind() {
    // import, memory, export and data sections keep opaque markers in
    // their own slots
    let bytes = module_with(&[
        &[0x02, 0x01, 0xAA],
        &[0x05, 0x01, 0xBB],
        &[0x07, 0x01, 0xCC],
        &[0x0B, 0x01, 0xDD],
    ]);
    let module = Module::decode(&bytes).unwrap();
    assert!(module.sections.import.is_some());
    assert!(module.sections.memory.is_some());
    assert!(module.sections.export.is_some());
    assert!(module.sections.data.is_some());
    assert_eq!(module.sections.custom, None);
    assert_eq!(module.sections.types, None);
}

#[test]
fn decode_duplicate_section_last_wins() {
    // two type sections: one signature, then none
    let bytes = module_with(&[
        &[0x01, 0x04, 0x01, 0x60, 0x00, 0x00],
        &[0x01, 0x01, 0x00],
    ]);
    let module = Module::decode(&bytes).unwrap();
    assert_eq!(
        module.sections.types,
        Some(TypeSection {
            function_types: vec![],
        })
    );
}

#[test]
fn decode_trailing_bytes_after_body_end_tolerated() {
    // two junk bytes inside the declared body size, after the End marker
    let bytes = module_with(&[
        &[0x01, 0x04, 0x01, 0x60, 0x00, 0x00],
        &[0x03, 0x02, 0x01, 0x00],
        &[0x0A, 0x06, 0x01, 0x04, 0x00, 0x0B, 0xAA, 0xBB],
    ]);
    let module = Module::decode(&bytes).unwrap();
    let code = module.sections.code.unwrap();
    assert_eq!(
        code.functions,
        vec![Function {
            locals: vec![],
            code: vec![],
        }]
    );
}

#[test]
fn decode_trailing_bytes_in_section_body_tolerated() {
    // the type section declares three bytes but its vector uses one
    let bytes = module_with(&[&[0x01, 0x03, 0x00, 0xAA, 0xBB]]);
    let module = Module::decode(&bytes).unwrap();
    assert_eq!(
        module.sections.types,
        Some(TypeSection {
            function_types: vec![],
        })
    );
}

#[test]
fn parse_instruction_rejects_bare_terminators() {
    assert_eq!(
        parse_instruction(&[0x0B], 0, 1),
        Err(DecodeError::UnknownOpcode(0x0B))
    );
    assert_eq!(
        parse_instruction(&[0x05], 0, 1),
        Err(DecodeError::UnknownOpcode(0x05))
    );
}

#[test]
fn parse_instruction_rejects_reserved_bytes() {
    for b in [0x06, 0x12, 0x1C, 0x25, 0xC0, 0xFE, 0xFF] {
        assert_eq!(
            parse_instruction(&[b], 0, 1),
            Err(DecodeError::UnknownOpcode(b))
        );
    }
}

#[test]
fn parse_value_type_tags() {
    assert_eq!(parse_value_type(&[0x7F], 0, 1), Ok((ValueType::I32, 1)));
    assert_eq!(parse_value_type(&[0x7E], 0, 1), Ok((ValueType::I64, 1)));
    assert_eq!(parse_value_type(&[0x7D], 0, 1), Ok((ValueType::F32, 1)));
    assert_eq!(parse_value_type(&[0x7C], 0, 1), Ok((ValueType::F64, 1)));
    assert_eq!(
        parse_value_type(&[0x99], 0, 1),
        Err(DecodeError::InvalidValueType(0x99))
    );
}

#[test]
fn section_new_frames_one_section() {
    let bytes = vec![0x01, 0x04, 0x01, 0x60, 0x00, 0x00];
    let (section, consumed) = Section::new(&bytes).unwrap();
    assert_eq!(consumed, 6);
    assert_eq!(
        section,
        Section::Type(TypeSection {
            function_types: vec![FuncType {
                params: vec![],
                results: vec![],
            }],
        })
    );
}

#[test]
fn section_new_truncated() {
    let bytes = vec![0x01, 0x04, 0x01];
    assert_eq!(Section::new(&bytes), Err(DecodeError::TruncatedSection));
}

#[test]
fn sections_new_is_empty() {
    let sections = Sections::new();
    assert_eq!(sections, Sections::default());
    assert_eq!(sections.types, None);
    assert_eq!(sections.functions, None);
    assert_eq!(sections.code, None);
    assert_eq!(sections.custom, None);
    assert_eq!(sections.import, None);
    assert_eq!(sections.memory, None);
    assert_eq!(sections.export, None);
    assert_eq!(sections.data, None);
}

#[test]
fn parse_instruction_no_operand_families() {
    // i32.add, select, nop: no operand, one byte consumed
    for b in [0x6A, 0x1B, 0x01] {
        assert_eq!(
            parse_instruction(&[b], 0, 1),
            Ok((
                Instruction {
                    opcode: b,
                    arguments: OpArgument::NoArg,
                },
                1
            ))
        );
    }
}

#[test]
fn section_framing_with_two_byte_size() {
    // a custom section whose 200-byte body needs a two-byte size varint:
    // the frame advances by 1 + 2 + 200 and the body is returned opaque
    let mut bytes = vec![0x00, 0xC8, 0x01];
    bytes.extend(std::iter::repeat(0xEE).take(200));
    let (section, consumed) = Section::new(&bytes).unwrap();
    assert_eq!(consumed, 203);
    assert_eq!(section, Section::Custom(wasm_decoder::section::GenericSection {}));
}
