use inkwell::context::Context;
use inkwell::module::Module;
use skunk::ast::{
    CopyToSubModuleInfo, ExpressionValue, Handle, IfExpression, LetExpression, Listener,
    ListenerKind, ModuleDecl, ModuleInfo, Operator, OutputExpression, Type, Usage,
};
use skunk::ir_gen::codegen::{codegen, module_codegen, plan_all, plan_module};
use skunk::ir_gen::codegen_state::{CodegenError, CodegenState};
use skunk::ir_gen::emit::{emit_module, emit_plan, lower_type, Slot};
use skunk::ir_gen::ir::{BinaryOp, Emitted, FunctionPlan, Instr, IrType};

fn reads(name: &str, h_type: Type) -> Handle {
    Handle { name: name.to_string(), usages: vec![Usage::Read], h_type }
}

fn writes(name: &str, h_type: Type) -> Handle {
    Handle { name: name.to_string(), usages: vec![Usage::Write], h_type }
}

fn on_change(trigger: &str, implementation: ExpressionValue) -> Listener {
    Listener { trigger: trigger.to_string(), kind: ListenerKind::OnChange, implementation }
}

fn output(name: &str, expression: ExpressionValue) -> ExpressionValue {
    ExpressionValue::Output(OutputExpression {
        output: name.to_string(),
        expression: Box::new(expression),
        and_return: false,
    })
}

fn output_and_return(name: &str, expression: ExpressionValue) -> ExpressionValue {
    ExpressionValue::Output(OutputExpression {
        output: name.to_string(),
        expression: Box::new(expression),
        and_return: true,
    })
}

fn state(name: &str) -> ExpressionValue {
    ExpressionValue::ReferenceToState(name.to_string())
}

fn copy_to(state: &str, submodule_index: usize, submodule_state: &str) -> ExpressionValue {
    output(
        "",
        ExpressionValue::CopyToSubModule(CopyToSubModuleInfo {
            state: state.to_string(),
            submodule_index,
            submodule_state: submodule_state.to_string(),
        }),
    )
}

fn wiring(pairs: &[(&str, &str)]) -> Vec<(String, String)> {
    pairs.iter().map(|(child, parent)| (child.to_string(), parent.to_string())).collect()
}

fn binary(lhs: ExpressionValue, op: Operator, rhs: ExpressionValue) -> ExpressionValue {
    ExpressionValue::BinaryOperator(Box::new(lhs), op, Box::new(rhs))
}

fn test_module() -> ModuleDecl {
    ModuleDecl {
        name: String::from("TestModule"),
        handles: vec![
            Handle {
                name: String::from("foo"),
                usages: vec![Usage::Read, Usage::Write],
                h_type: Type::Int,
            },
            reads("far", Type::Int),
            writes("bar", Type::Int),
        ],
        listeners: vec![on_change("foo", output("bar", state("far")))],
        submodules: Vec::new(),
    }
}

fn passthrough(name: &str) -> ModuleDecl {
    ModuleDecl {
        name: name.to_string(),
        handles: vec![reads("foo", Type::Int), writes("bar", Type::Int)],
        listeners: vec![on_change("foo", output("bar", state("foo")))],
        submodules: Vec::new(),
    }
}

// What the graph resolver makes of `first -> second`: a parent whose
// handles are the first module's input, the second module's outputs and the
// wire between the two.
fn pipeline(
    handles: Vec<Handle>,
    first: ModuleDecl,
    first_map: &[(&str, &str)],
    second: ModuleDecl,
    second_map: &[(&str, &str)],
    input: (&str, &str),
    wire: (&str, &str),
) -> ModuleDecl {
    ModuleDecl {
        name: String::from("Main"),
        handles,
        listeners: vec![
            on_change(input.0, copy_to(input.0, 0, input.1)),
            on_change(wire.0, copy_to(wire.0, 1, wire.1)),
        ],
        submodules: vec![
            ModuleInfo { module: first, handle_map: wiring(first_map) },
            ModuleInfo { module: second, handle_map: wiring(second_map) },
        ],
    }
}

fn multi_module() -> ModuleDecl {
    pipeline(
        vec![
            reads("foo", Type::Int),
            writes("bar", Type::Int),
            Handle {
                name: String::from("h0"),
                usages: vec![Usage::Read, Usage::Write],
                h_type: Type::Int,
            },
        ],
        passthrough("MyModule"),
        &[("foo", "foo"), ("bar", "h0")],
        passthrough("MyModule2"),
        &[("foo", "h0"), ("bar", "bar")],
        ("foo", "foo"),
        ("h0", "foo"),
    )
}

fn module_with_new() -> ModuleDecl {
    ModuleDecl {
        name: String::from("ModuleWithNew"),
        handles: vec![writes("bar", Type::MemRegion), reads("foo", Type::Int)],
        listeners: vec![on_change(
            "foo",
            output("bar", ExpressionValue::FunctionCall(String::from("new"), Box::new(state("foo")))),
        )],
        submodules: Vec::new(),
    }
}

fn copy_memregion() -> ModuleDecl {
    let writer = ModuleDecl {
        name: String::from("Writer"),
        handles: vec![reads("size_in", Type::Int), writes("region", Type::MemRegion)],
        listeners: vec![on_change(
            "size_in",
            output(
                "region",
                ExpressionValue::FunctionCall(String::from("new"), Box::new(state("size_in"))),
            ),
        )],
        submodules: Vec::new(),
    };
    let reader = ModuleDecl {
        name: String::from("Reader"),
        handles: vec![reads("region", Type::MemRegion), writes("size_out", Type::Int)],
        listeners: vec![on_change(
            "region",
            output(
                "size_out",
                ExpressionValue::FunctionCall(String::from("size"), Box::new(state("region"))),
            ),
        )],
        submodules: Vec::new(),
    };
    pipeline(
        vec![
            reads("size_in", Type::Int),
            writes("size_out", Type::Int),
            Handle {
                name: String::from("h0"),
                usages: vec![Usage::Read, Usage::Write],
                h_type: Type::MemRegion,
            },
        ],
        writer,
        &[("size_in", "size_in"), ("region", "h0")],
        reader,
        &[("region", "h0"), ("size_out", "size_out")],
        ("size_in", "size_in"),
        ("h0", "region"),
    )
}

fn string_pipeline() -> ModuleDecl {
    let create = ModuleDecl {
        name: String::from("CreateString"),
        handles: vec![reads("inp", Type::Int), writes("out", Type::String)],
        listeners: vec![on_change(
            "inp",
            output("out", ExpressionValue::StringLiteral(String::from("static string"))),
        )],
        submodules: Vec::new(),
    };
    let char_from = ModuleDecl {
        name: String::from("CharFromString"),
        handles: vec![reads("inp", Type::String), writes("out", Type::Char)],
        listeners: vec![on_change(
            "inp",
            output(
                "out",
                ExpressionValue::ArrayLookup(
                    Box::new(state("inp")),
                    Box::new(ExpressionValue::IntLiteral(5)),
                ),
            ),
        )],
        submodules: Vec::new(),
    };
    pipeline(
        vec![
            reads("inp", Type::Int),
            writes("out", Type::Char),
            Handle {
                name: String::from("h0"),
                usages: vec![Usage::Read, Usage::Write],
                h_type: Type::String,
            },
        ],
        create,
        &[("inp", "inp"), ("out", "h0")],
        char_from,
        &[("inp", "h0"), ("out", "out")],
        ("inp", "inp"),
        ("h0", "inp"),
    )
}

fn tuple_pipeline() -> ModuleDecl {
    let pair = || Type::Tuple(vec![Type::Int, Type::String]);
    let create = ModuleDecl {
        name: String::from("CreateTuple"),
        handles: vec![reads("inp", Type::Int), writes("out", pair())],
        listeners: vec![on_change(
            "inp",
            output(
                "out",
                ExpressionValue::Tuple(vec![
                    state("inp"),
                    ExpressionValue::StringLiteral(String::from("static string")),
                ]),
            ),
        )],
        submodules: Vec::new(),
    };
    let read = ModuleDecl {
        name: String::from("ReadTuple"),
        handles: vec![reads("inp", pair()), writes("out1", Type::Int), writes("out2", Type::String)],
        listeners: vec![on_change(
            "inp",
            ExpressionValue::Block(vec![
                output("out1", ExpressionValue::TupleLookup(Box::new(state("inp")), 0)),
                output("out2", ExpressionValue::TupleLookup(Box::new(state("inp")), 1)),
            ]),
        )],
        submodules: Vec::new(),
    };
    pipeline(
        vec![
            reads("inp", Type::Int),
            writes("out1", Type::Int),
            writes("out2", Type::String),
            Handle {
                name: String::from("h0"),
                usages: vec![Usage::Read, Usage::Write],
                h_type: pair(),
            },
        ],
        create,
        &[("inp", "inp"), ("out", "h0")],
        read,
        &[("inp", "h0"), ("out1", "out1"), ("out2", "out2")],
        ("inp", "inp"),
        ("h0", "inp"),
    )
}

fn syntax_test() -> ModuleDecl {
    let pair = || Type::Tuple(vec![Type::String, Type::Int]);
    let text = || ExpressionValue::TupleLookup(Box::new(state("input")), 0);
    let at_offset =
        || ExpressionValue::ArrayLookup(Box::new(text()), Box::new(state("offset")));
    let test = binary(
        binary(
            binary(
                state("offset"),
                Operator::Equality,
                ExpressionValue::FunctionCall(String::from("size"), Box::new(text())),
            ),
            Operator::LogicalOr,
            binary(at_offset(), Operator::LessThan, ExpressionValue::CharLiteral(b'0')),
        ),
        Operator::LogicalOr,
        binary(at_offset(), Operator::GreaterThan, ExpressionValue::CharLiteral(b'9')),
    );
    ModuleDecl {
        name: String::from("SyntaxTest"),
        handles: vec![
            reads("input", pair()),
            writes("output", pair()),
            writes("result", Type::Int),
            writes("error", Type::Int),
        ],
        listeners: vec![on_change(
            "input",
            ExpressionValue::Block(vec![
                ExpressionValue::Let(LetExpression {
                    var_name: String::from("offset"),
                    expression: Box::new(ExpressionValue::TupleLookup(
                        Box::new(state("input")),
                        1,
                    )),
                }),
                ExpressionValue::If(IfExpression {
                    test: Box::new(test),
                    if_true: Box::new(ExpressionValue::Block(vec![
                        output_and_return("error", ExpressionValue::IntLiteral(1)),
                        ExpressionValue::Empty,
                    ])),
                    if_false: Box::new(ExpressionValue::Empty),
                }),
                output("result", ExpressionValue::IntLiteral(3)),
            ]),
        )],
        submodules: Vec::new(),
    }
}


fn accepted<'ctx>(context: &'ctx Context, module: &ModuleDecl) -> Vec<Module<'ctx>> {
    let modules = codegen(context, module).unwrap();
    for emitted in &modules {
        if let Err(message) = emitted.verify() {
            panic!("{}\n{}", message.to_string(), emitted.print_to_string().to_string());
        }
    }
    modules
}

#[test]
fn llvm_accepts_the_test_module() {
    let context = Context::create();
    let modules = accepted(&context, &test_module());
    assert_eq!(modules.len(), 1);
    assert_eq!(modules[0].get_name().to_str().unwrap(), "TestModule");
    let update = modules[0].get_function("TestModule_update").unwrap();
    assert_eq!(update.count_params(), 1);
    assert!(modules[0].get_function("TestModule__OnChange__foo").is_some());
}

#[test]
fn module_ir_type() {
    let context = Context::create();
    let module = test_module();
    let ir_type = lower_type(&context, &module.ir_type()).unwrap().into_struct_type();
    let i64_type = context.i64_type();
    assert_eq!(ir_type.count_fields(), 7);
    assert_eq!(ir_type.get_field_types(), &[i64_type.into(); 7]);
    assert!(!ir_type.is_packed());
}

fn invalid_module() -> ModuleDecl {
    ModuleDecl {
        name: String::from("InvalidModule"),
        handles: vec![Handle {
            name: String::from("foo"),
            usages: vec![Usage::Read, Usage::Write],
            h_type: Type::Int,
        }],
        listeners: vec![on_change("invalid", output("foo", state("foo")))],
        submodules: Vec::new(),
    }
}

#[test]
fn module_codegen_succeeds() {
    let context = Context::create();
    let module = test_module();
    let mut cs = CodegenState::new("TestModule");
    assert_eq!(module_codegen(&mut cs, &module), Ok(()));
    let emitted = emit_module(&context, &cs).unwrap();
    assert!(emitted.get_function("TestModule_update").is_some());
    assert_eq!(codegen(&context, &module).map(|modules| modules.len()), Ok(1));
}

#[test]
fn invalid_module_codegen_fails() {
    let context = Context::create();
    let module = invalid_module();
    let mut cs = CodegenState::new("InvalidModule");
    assert_eq!(module_codegen(&mut cs, &module), Err(CodegenError::BadListenerTrigger));
    // Nothing of the module stays behind, so there is no update function.
    assert_eq!(cs, CodegenState::new("InvalidModule"));
    let emitted = emit_module(&context, &cs).unwrap();
    assert!(emitted.get_function("InvalidModule_update").is_none());
    assert_eq!(
        codegen(&context, &module).map(|modules| modules.len()),
        Err(CodegenError::BadListenerTrigger)
    );
}

#[test]
fn a_failing_listener_leaves_the_state_as_it_was() {
    let mut module = test_module();
    module.listeners.push(on_change("far", output("bar", state("nowhere"))));
    module.listeners.push(on_change("bar", output("bar", state("far"))));
    let mut cs = CodegenState::new("TestModule");
    assert_eq!(module_codegen(&mut cs, &passthrough("Before")), Ok(()));
    let before = cs.duplicate();
    assert_eq!(
        module_codegen(&mut cs, &module),
        Err(CodegenError::BadReadFieldName(String::from("nowhere")))
    );
    assert_eq!(cs, before);
    assert!(cs.functions.iter().all(|f| !f.name.starts_with("TestModule")));
}

#[test]
fn codegen_stops_with_the_error_of_the_first_module_that_has_one() {
    let context = Context::create();
    let mut unknown_field = passthrough("Second");
    unknown_field.listeners[0] = on_change("foo", output("bar", state("nowhere")));
    let mut bad_trigger = passthrough("Third");
    bad_trigger.listeners[0].trigger = String::from("invalid");
    let child = |module: ModuleDecl| ModuleInfo { module, handle_map: Vec::new() };
    let mut parent = test_module();
    parent.submodules =
        vec![child(passthrough("First")), child(unknown_field), child(bad_trigger)];
    assert_eq!(
        codegen(&context, &parent).map(|modules| modules.len()),
        Err(CodegenError::BadReadFieldName(String::from("nowhere")))
    );
    assert_eq!(plan_all(&parent).err(), Some(CodegenError::BadReadFieldName(String::from("nowhere"))));
    // The parent's own error comes before those of its submodules.
    parent.listeners[0].trigger = String::from("invalid");
    assert_eq!(
        codegen(&context, &parent).map(|modules| modules.len()),
        Err(CodegenError::BadListenerTrigger)
    );
    // Without the two failing submodules there is a module for each.
    let mut sound = test_module();
    sound.submodules = vec![child(passthrough("First")), child(passthrough("Second"))];
    let plans = plan_all(&sound).unwrap();
    assert_eq!(plans.iter().map(|p| p.name.as_str()).collect::<Vec<_>>(), ["TestModule", "First", "Second"]);
    let modules: Vec<Module> =
        plans.iter().map(|plan| emit_module(&context, plan).unwrap()).collect();
    let named = |m: &Module| m.get_name().to_str().unwrap().to_string();
    assert_eq!(codegen(&context, &sound).unwrap().iter().map(named).collect::<Vec<_>>(), [
        "TestModule",
        "First",
        "Second",
    ]);
    assert_eq!(modules.len(), 3);
    assert_eq!(modules[2].get_name().to_str().unwrap(), "Second");
}

#[test]
fn the_builder_refuses_operands_of_the_wrong_kind() {
    let context = Context::create();
    let entry = || Emitted { at: None, instr: Instr::Block { name: String::from("entry") } };
    let one = || Emitted { at: Some(0), instr: Instr::ConstInt { bits: 64, constant: 1 } };
    let slot = || Emitted {
        at: Some(0),
        instr: Instr::Alloca { ty: IrType::Int(64), name: String::from("slot") },
    };
    // A load through an integer.
    let load = plan_with(vec![
        entry(),
        one(),
        Emitted { at: Some(0), instr: Instr::Load { ptr: 1, name: String::new() } },
    ]);
    assert!(matches!(emit_module(&context, &load), Err(CodegenError::TypeMismatch(_))));
    // A store with the operands the wrong way round.
    let store = plan_with(vec![
        entry(),
        one(),
        slot(),
        Emitted { at: Some(0), instr: Instr::Store { ptr: 1, value: 2 } },
    ]);
    assert!(matches!(emit_module(&context, &store), Err(CodegenError::TypeMismatch(_))));
    // A field of something that is no struct, and a field that is not there.
    let field = plan_with(vec![
        entry(),
        slot(),
        Emitted {
            at: Some(0),
            instr: Instr::StructGep { ptr: 1, index: 0, name: String::new() },
        },
    ]);
    assert!(matches!(emit_module(&context, &field), Err(CodegenError::TypeMismatch(_))));
    // A parameter that the function does not have.
    let param = plan_with(vec![Emitted { at: None, instr: Instr::Param { index: 0 } }]);
    assert!(matches!(emit_module(&context, &param), Err(CodegenError::TypeMismatch(_))));
    // The same entries with operands of the right kind are taken.
    let sound = plan_with(vec![
        entry(),
        one(),
        slot(),
        Emitted { at: Some(0), instr: Instr::Store { ptr: 2, value: 1 } },
        Emitted { at: Some(0), instr: Instr::Load { ptr: 2, name: String::from("back") } },
        Emitted {
            at: Some(0),
            instr: Instr::Binary {
                op: BinaryOp::And,
                lhs: 4,
                rhs: 1,
                name: String::from("both"),
            },
        },
        Emitted {
            at: Some(0),
            instr: Instr::Binary { op: BinaryOp::Or, lhs: 4, rhs: 1, name: String::from("any") },
        },
        Emitted { at: Some(0), instr: Instr::Ret },
    ]);
    let module = emit_module(&context, &sound).unwrap();
    assert!(module.verify().is_ok());
    let text = module.print_to_string().to_string();
    assert!(text.contains("store i64 1, i64* %slot"));
    assert!(text.contains("%both = and i64 %back, 1"));
    assert!(text.contains("%any = or i64 %back, 1"));
}

#[test]
fn llvm_accepts_a_pipeline_and_gets_one_module_for_each_skunk_module() {
    let context = Context::create();
    let modules = accepted(&context, &multi_module());
    let names: Vec<String> =
        modules.iter().map(|m| m.get_name().to_str().unwrap().to_string()).collect();
    assert_eq!(names, ["Main", "MyModule", "MyModule2"]);
    // The parent only declares the update functions of its children.
    let declared = modules[0].get_function("MyModule_update").unwrap();
    assert_eq!(declared.count_basic_blocks(), 0);
    assert!(modules[1].get_function("MyModule_update").unwrap().count_basic_blocks() > 0);
    let state = modules[0].get_function("Main_update").unwrap().get_type().get_param_types()[0]
        .into_pointer_type()
        .get_element_type()
        .into_struct_type();
    // Three handles, the bitfield, two submodules.
    assert_eq!(state.count_fields(), 9);
    assert_eq!(state.get_field_type_at_index(7).unwrap().into_struct_type().count_fields(), 5);
}

#[test]
fn llvm_accepts_memory_regions() {
    let context = Context::create();
    let modules = accepted(&context, &module_with_new());
    assert!(modules[0].get_function("malloc").is_some());
    accepted(&context, &copy_memregion());
}

#[test]
fn llvm_accepts_strings_and_tuples() {
    let context = Context::create();
    accepted(&context, &string_pipeline());
    accepted(&context, &tuple_pipeline());
}

#[test]
fn llvm_accepts_conditionals_and_short_circuits() {
    let context = Context::create();
    accepted(&context, &syntax_test());
}

#[test]
fn emitting_twice_gives_the_same_text() {
    let context = Context::create();
    for module in [test_module(), multi_module(), syntax_test()] {
        let first = codegen(&context, &module).unwrap();
        let second = codegen(&context, &module).unwrap();
        assert_eq!(first.len(), second.len());
        for (a, b) in first.iter().zip(second.iter()) {
            assert_eq!(a.print_to_string().to_string(), b.print_to_string().to_string());
        }
    }
}

fn plan_with(code: Vec<Emitted>) -> CodegenState {
    let mut plan = CodegenState::new("Broken");
    plan.functions.push(FunctionPlan {
        name: String::from("f"),
        params: Vec::new(),
        result: None,
        var_args: false,
        code,
    });
    plan
}

#[test]
fn code_that_is_out_of_order_is_not_emitted() {
    let context = Context::create();
    let entry = || Emitted { at: None, instr: Instr::Block { name: String::from("entry") } };
    // A load of an entry that comes later.
    let forward = plan_with(vec![
        entry(),
        Emitted { at: Some(0), instr: Instr::Load { ptr: 2, name: String::from("x") } },
        Emitted { at: Some(0), instr: Instr::Ret },
    ]);
    assert!(matches!(emit_module(&context, &forward), Err(CodegenError::TypeMismatch(_))));
    // An instruction while the builder stands nowhere.
    let nowhere = plan_with(vec![entry(), Emitted { at: None, instr: Instr::Ret }]);
    assert_eq!(emit_module(&context, &nowhere).err(), Some(CodegenError::NotInABlock));
    // A branch to a value.
    let no_block = plan_with(vec![
        entry(),
        Emitted { at: Some(0), instr: Instr::ConstInt { bits: 64, constant: 1 } },
        Emitted { at: Some(0), instr: Instr::Br { target: 1 } },
    ]);
    assert!(matches!(emit_module(&context, &no_block), Err(CodegenError::TypeMismatch(_))));
    // A call of a function that the module does not have.
    let no_function = plan_with(vec![
        entry(),
        Emitted {
            at: Some(0),
            instr: Instr::Call { callee: 3, args: Vec::new(), name: String::new() },
        },
    ]);
    assert_eq!(emit_module(&context, &no_function).err(), Some(CodegenError::FunctionMissing));
    // An integer type without bits.
    let no_bits = plan_with(vec![
        entry(),
        Emitted { at: Some(0), instr: Instr::ConstInt { bits: 0, constant: 1 } },
    ]);
    assert!(matches!(emit_module(&context, &no_bits), Err(CodegenError::TypeMismatch(_))));
    assert!(lower_type(&context, &IrType::Int(65)).is_err());
    assert!(lower_type(&context, &IrType::Int(64)).is_ok());
}

#[test]
fn lowered_types_have_the_shape_of_their_description() {
    let context = Context::create();
    let described = IrType::Struct(vec![IrType::Int(8).pointer_to(), IrType::Int(64)], false);
    let lowered = lower_type(&context, &described).unwrap().into_struct_type();
    assert_eq!(lowered.count_fields(), 2);
    assert!(lowered.get_field_type_at_index(0).unwrap().is_pointer_type());
    assert_eq!(lowered.get_field_type_at_index(1).unwrap().into_int_type().get_bit_width(), 64);
    let packed = IrType::Struct(vec![IrType::Int(1), IrType::Int(8)], true);
    assert!(lower_type(&context, &packed).unwrap().into_struct_type().is_packed());
}

#[test]
fn emitted_plan_keeps_the_planned_calls_and_blocks() {
    let context = Context::create();
    let plan = plan_module(&test_module()).unwrap();
    let module = emit_module(&context, &plan).unwrap();
    let text = module.print_to_string().to_string();
    for block in ["entry:", "activate_for_foo:", "after_foo:", "activate_for_bar:", "after_bar:"] {
        assert!(text.contains(block), "no block {}", block);
    }
    assert!(text.contains("call void @TestModule__OnChange__foo("));
    let update = module.get_function("TestModule_update").unwrap();
    assert_eq!(update.count_basic_blocks(), 7);
}

#[test]
fn a_plan_that_llvm_has_no_say_in_is_always_emitted() {
    let context = Context::create();
    let block = |name: &str| Emitted { at: None, instr: Instr::Block { name: name.to_string() } };
    let plan = plan_with(vec![
        block("entry"),
        block("next"),
        Emitted {
            at: Some(0),
            instr: Instr::Alloca { ty: IrType::Int(64), name: String::from("a") },
        },
        Emitted {
            at: Some(0),
            instr: Instr::GlobalString { text: String::from("hi"), name: String::from("text") },
        },
        Emitted {
            at: Some(0),
            instr: Instr::Call { callee: 0, args: Vec::new(), name: String::new() },
        },
        Emitted { at: Some(0), instr: Instr::Br { target: 1 } },
        Emitted {
            at: Some(1),
            instr: Instr::Phi {
                ty: IrType::Int(64).pointer_to(),
                incoming: vec![(2, 0)],
                name: String::from("p"),
            },
        },
        Emitted { at: Some(1), instr: Instr::Ret },
    ]);
    let module = emit_module(&context, &plan).unwrap();
    assert!(module.verify().is_ok());
    let f = module.get_function("f").unwrap();
    assert_eq!(f.count_basic_blocks(), 2);
    let text = module.print_to_string().to_string();
    assert!(text.contains("alloca i64"));
    assert!(text.contains("phi i64*"));
    assert!(text.contains("call void @f()"));
}

#[test]
fn an_operand_that_llvm_gave_nothing_for_is_refused() {
    let context = Context::create();
    let entry = Emitted { at: None, instr: Instr::Block { name: String::from("entry") } };
    // A call whose second argument is a return, for which there is no value.
    let plan = plan_with(vec![
        entry,
        Emitted { at: Some(0), instr: Instr::Alloca { ty: IrType::Int(64), name: String::new() } },
        Emitted { at: Some(0), instr: Instr::Ret },
        Emitted {
            at: Some(0),
            instr: Instr::Call { callee: 0, args: vec![1, 2], name: String::new() },
        },
    ]);
    assert!(matches!(emit_module(&context, &plan), Err(CodegenError::TypeMismatch(_))));
}

#[test]
fn the_first_entry_that_is_refused_gives_the_error() {
    let context = Context::create();
    let entry = || Emitted { at: None, instr: Instr::Block { name: String::from("entry") } };
    let nowhere = || Emitted { at: None, instr: Instr::Ret };
    let missing = |at: usize| Emitted {
        at: Some(at),
        instr: Instr::Call { callee: 3, args: Vec::new(), name: String::new() },
    };
    let error = |code: Vec<Emitted>| emit_module(&context, &plan_with(code)).err();
    assert_eq!(error(vec![entry(), nowhere(), missing(0)]), Some(CodegenError::NotInABlock));
    assert_eq!(error(vec![entry(), missing(0), nowhere()]), Some(CodegenError::FunctionMissing));
    // A call that stands in no block is refused for that, whatever it calls.
    assert!(matches!(error(vec![entry(), missing(5)]), Some(CodegenError::TypeMismatch(_))));
    assert!(matches!(error(vec![entry(), missing(1)]), Some(CodegenError::TypeMismatch(_))));
    // A function type that cannot be had comes before any entry.
    let mut plan = plan_with(vec![entry(), nowhere()]);
    plan.functions[0].params.push(IrType::Int(0));
    assert!(matches!(emit_module(&context, &plan), Err(CodegenError::TypeMismatch(_))));
    // The error of an earlier function comes before that of a later one.
    let mut two = plan_with(vec![entry(), missing(0)]);
    two.functions.push(FunctionPlan {
        name: String::from("g"),
        params: Vec::new(),
        result: None,
        var_args: false,
        code: vec![nowhere()],
    });
    assert_eq!(emit_module(&context, &two).err(), Some(CodegenError::FunctionMissing));
    two.functions.swap(0, 1);
    assert_eq!(emit_module(&context, &two).err(), Some(CodegenError::NotInABlock));
}

#[test]
fn operands_that_llvm_would_not_check_are_refused_before_the_call() {
    let context = Context::create();
    let entry = || Emitted { at: None, instr: Instr::Block { name: String::from("entry") } };
    let constant = |bits: u32| Emitted { at: Some(0), instr: Instr::ConstInt { bits, constant: 1 } };
    let slot = |bits: u32| Emitted {
        at: Some(0),
        instr: Instr::Alloca { ty: IrType::Int(bits), name: String::from("slot") },
    };
    let refused = |code: Vec<Emitted>| {
        let r = emit_module(&context, &plan_with(code));
        assert!(matches!(r, Err(CodegenError::TypeMismatch(_))), "{:?}", r.err());
    };
    let taken = |code: Vec<Emitted>| {
        let module = emit_module(&context, &plan_with(code)).unwrap();
        assert!(module.verify().is_ok(), "{}", module.print_to_string().to_string());
    };
    let and = |lhs: usize, rhs: usize| Emitted {
        at: Some(0),
        instr: Instr::Binary { op: BinaryOp::And, lhs, rhs, name: String::new() },
    };
    let ret = || Emitted { at: Some(0), instr: Instr::Ret };
    // Two integers of different widths.
    refused(vec![entry(), constant(64), constant(8), and(1, 2)]);
    taken(vec![entry(), constant(8), constant(8), and(1, 2), ret()]);
    // A store of a byte to a slot for a word.
    let store = |ptr: usize, value: usize| Emitted { at: Some(0), instr: Instr::Store { ptr, value } };
    refused(vec![entry(), slot(64), constant(8), store(1, 2)]);
    taken(vec![entry(), slot(8), constant(8), store(1, 2), ret()]);
    // A branch on a word.
    let branch = |condition: usize| Emitted {
        at: Some(0),
        instr: Instr::CondBr { condition, if_true: 1, if_false: 1 },
    };
    let next = || Emitted { at: None, instr: Instr::Block { name: String::from("next") } };
    let end = || Emitted { at: Some(1), instr: Instr::Ret };
    refused(vec![entry(), next(), constant(64), branch(2)]);
    taken(vec![entry(), next(), constant(1), branch(2), end()]);
    // A phi of words that a byte comes into.
    let phi = |incoming: Vec<(usize, usize)>| Emitted {
        at: Some(1),
        instr: Instr::Phi { ty: IrType::Int(64), incoming, name: String::from("p") },
    };
    let jump = || Emitted { at: Some(0), instr: Instr::Br { target: 1 } };
    refused(vec![entry(), next(), constant(8), jump(), phi(vec![(2, 0)])]);
    taken(vec![entry(), next(), constant(64), jump(), phi(vec![(2, 0)]), end()]);
    // A call with an argument too many, and with one of another type.
    let call = |args: Vec<usize>| Emitted {
        at: Some(0),
        instr: Instr::Call { callee: 1, args, name: String::new() },
    };
    let with_callee = |code: Vec<Emitted>, var_args: bool| {
        let mut plan = plan_with(code);
        plan.functions.push(FunctionPlan {
            name: String::from("g"),
            params: vec![IrType::Int(64)],
            result: None,
            var_args,
            code: Vec::new(),
        });
        emit_module(&context, &plan).map(|m| m.verify().is_ok())
    };
    let word_and_byte = || vec![entry(), constant(64), constant(8)];
    let calling = |args: Vec<usize>| {
        let mut code = word_and_byte();
        code.push(call(args));
        code.push(ret());
        code
    };
    assert_eq!(with_callee(calling(vec![1]), false), Ok(true));
    assert!(matches!(with_callee(calling(vec![2]), false), Err(CodegenError::TypeMismatch(_))));
    assert!(matches!(with_callee(calling(vec![1, 2]), false), Err(CodegenError::TypeMismatch(_))));
    assert!(matches!(with_callee(calling(vec![]), false), Err(CodegenError::TypeMismatch(_))));
    assert_eq!(with_callee(calling(vec![1, 2]), true), Ok(true));
    assert!(matches!(with_callee(calling(vec![]), true), Err(CodegenError::TypeMismatch(_))));
}

#[test]
fn the_built_module_comes_with_what_llvm_gave() {
    let context = Context::create();
    let plan = plan_module(&test_module()).unwrap();
    let built = emit_plan(&context, "Named", &plan).unwrap();
    assert_eq!(built.module.get_name().to_str().unwrap(), "Named");
    assert_eq!(built.functions.len(), plan.functions.len());
    assert_eq!(built.made.len(), plan.functions.len());
    for (f, function) in plan.functions.iter().enumerate() {
        assert_eq!(built.functions[f].get_name().to_str().unwrap(), function.name);
        assert_eq!(built.made[f].len(), function.code.len());
        let blocks = function.code.iter().filter(|e| matches!(e.instr, Instr::Block { .. })).count();
        assert_eq!(built.functions[f].count_basic_blocks() as usize, blocks);
        for (slot, entry) in built.made[f].iter().zip(function.code.iter()) {
            assert_eq!(matches!(slot, Slot::Block(_)), matches!(entry.instr, Instr::Block { .. }));
            if let (Slot::Value(value, ty), Instr::ConstInt { constant, .. }) = (slot, &entry.instr) {
                assert_eq!(value.into_int_value().get_zero_extended_constant(), Some(*constant));
                assert_eq!(lower_type(&context, ty).unwrap(), value.get_type());
            }
        }
    }
}
