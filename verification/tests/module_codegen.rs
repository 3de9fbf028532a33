use skunk::ast::{
    ExpressionValue, Handle, Listener, ListenerKind, ModuleDecl, OutputExpression, Type, Usage,
};
use skunk::ir_gen::codegen::module_codegen;
use skunk::ir_gen::codegen_state::{CodegenError, CodegenState};
use skunk::ir_gen::ir::IrType;

fn test_module() -> ModuleDecl {
    ModuleDecl {
        name: String::from("TestModule"),
        handles: vec![
            Handle {
                name: String::from("foo"),
                usages: vec![Usage::Read, Usage::Write],
                h_type: Type::Int,
            },
            Handle { name: String::from("far"), usages: vec![Usage::Read], h_type: Type::Int },
            Handle { name: String::from("bar"), usages: vec![Usage::Write], h_type: Type::Int },
        ],
        listeners: vec![Listener {
            trigger: String::from("foo"),
            kind: ListenerKind::OnChange,
            implementation: ExpressionValue::Output(OutputExpression {
                output: String::from("bar"),
                expression: Box::new(ExpressionValue::ReferenceToState(String::from("far"))),
                and_return: false,
            }),
        }],
        submodules: Vec::new(),
    }
}

fn invalid_module() -> ModuleDecl {
    ModuleDecl {
        name: String::from("InvalidModule"),
        handles: vec![Handle {
            name: String::from("foo"),
            usages: vec![Usage::Read, Usage::Write],
            h_type: Type::Int,
        }],
        listeners: vec![Listener {
            trigger: String::from("invalid"),
            kind: ListenerKind::OnChange,
            implementation: ExpressionValue::Output(OutputExpression {
                output: String::from("foo"),
                expression: Box::new(ExpressionValue::ReferenceToState(String::from("foo"))),
                and_return: false,
            }),
        }],
        submodules: Vec::new(),
    }
}

#[test]
fn mod_module_ir_type() {
    let module = test_module();
    match module.ir_type() {
        IrType::Struct(fields, packed) => {
            assert!(!packed);
            assert_eq!(fields.len(), 7);
            for field in &fields {
                assert!(matches!(field, IrType::Int(64)));
            }
        }
        other => panic!("the state is no struct: {:?}", other),
    }
}

#[test]
fn mod_module_codegen_succeeds() {
    let module = test_module();
    let mut cs = CodegenState::new("TestModule");
    assert_eq!(module_codegen(&mut cs, &module), Ok(()));
    println!("{:#?}", cs);
}

#[test]
fn mod_invalid_module_codegen_fails() {
    let module = invalid_module();
    let mut cs = CodegenState::new("InvalidModule");
    assert_eq!(module_codegen(&mut cs, &module), Err(CodegenError::BadListenerTrigger));
}
