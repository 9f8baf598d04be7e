//! Header decoding against buffers produced from the text format.

use wasm_decoder::code_section::CodeSection;
use wasm_decoder::code_section::Function;
use wasm_decoder::function_section::FunctionSection;
use wasm_decoder::module::Module;
use wasm_decoder::section::Sections;
use wasm_decoder::type_section::FuncType;
use wasm_decoder::type_section::TypeSection;

#[test]
fn parser_decode_header_only() {
    let wasm = wat::parse_str("(module)").unwrap();
    let module = Module::new(&wasm);
    assert_eq!(
        module,
        Module {
            version: 1,
            sections: Sections::new(),
        }
    );
}

#[test]
fn mod_decode_header_only() {
    let wasm = wat::parse_str("(module)").unwrap();
    let module = Module::new(&wasm);
    assert_eq!(
        module,
        Module {
            version: 1,
            sections: Sections::new(),
        }
    );
}

#[test]
fn decode_module_from_text_format() {
    let wasm = wat::parse_str("(module (func))").unwrap();
    let module = Module::decode(&wasm).unwrap();
    assert_eq!(module.version, 1);
    assert_eq!(
        module.sections.types,
        Some(TypeSection {
            function_types: vec![FuncType {
                params: vec![],
                results: vec![],
            }],
        })
    );
    assert_eq!(
        module.sections.functions,
        Some(FunctionSection {
            type_indices: vec![0],
        })
    );
    assert_eq!(
        module.sections.code,
        Some(CodeSection {
            functions: vec![Function {
                locals: vec![],
                code: vec![],
            }],
        })
    );
}
