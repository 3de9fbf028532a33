use skunk::ast::{
    main_module_index, CopyToSubModuleInfo, ExpressionValue, Handle, IfExpression, LetExpression, Listener,
    ListenerKind, ModuleDecl, ModuleInfo, Operator, OutputExpression, Type, Usage,
    WhileExpression,
};
use skunk::ir_gen::codegen::expression_codegen::{expression_codegen, expression_logical_and};
use skunk::ir_gen::codegen::expression_type::expression_type;
use skunk::ir_gen::codegen::runtime::{
    debug, debug_str, free, get_free, get_malloc, get_memcmp, get_printf, malloc, memcmp,
};
use skunk::ir_gen::codegen::{
    append_new_block, begin_function, flow_to_new_block, invoke_submodule, ir_listener_type, listener_codegen,
    listener_fn_name, module_codegen, module_update_function, plan_module,
    state_alloca_for_module_function,
};
use skunk::ir_gen::codegen_state::{
    CodegenError, CodegenState, TypedPointer, UpdatePointer, UpdatePtrPurpose,
};
use skunk::ir_gen::ir::{BinaryOp, Emitted, Instr, IrType, Predicate};
use skunk::ir_gen::primitives::{
    flatten_types, primitive_eq, primitives_eq, stride, type_primitive_for_type, TypePrimitive,
};
use skunk::ir_gen::state_values::StateValue;
use skunk::paths::{dependency_path, module_name_of};
use skunk::ir_gen::types::{dptr_ir_type, handle_type, llvm_type_for_primitive};

fn handle(name: &str, usages: Vec<Usage>, h_type: Type) -> Handle {
    Handle { name: name.to_string(), usages, h_type }
}

fn on_change(trigger: &str, implementation: ExpressionValue) -> Listener {
    Listener { trigger: trigger.to_string(), kind: ListenerKind::OnChange, implementation }
}

fn output(name: &str, expression: ExpressionValue) -> ExpressionValue {
    ExpressionValue::Output(OutputExpression {
        output: name.to_string(),
        expression: Box::new(expression),
        and_return: false,
    })
}

fn state(name: &str) -> ExpressionValue {
    ExpressionValue::ReferenceToState(name.to_string())
}

fn test_module() -> ModuleDecl {
    ModuleDecl {
        name: String::from("TestModule"),
        handles: vec![
            handle("foo", vec![Usage::Read, Usage::Write], Type::Int),
            handle("far", vec![Usage::Read], Type::Int),
            handle("bar", vec![Usage::Write], Type::Int),
        ],
        listeners: vec![on_change("foo", output("bar", state("far")))],
        submodules: Vec::new(),
    }
}

fn module_of(handles: Vec<Handle>, listeners: Vec<Listener>) -> ModuleDecl {
    ModuleDecl { name: String::from("M"), handles, listeners, submodules: Vec::new() }
}

// A state with the builder in the entry block of a function that has the
// parameter and the stack slot of an update function; the results are the
// stack slot and the loaded state pointer.
fn in_function(module: &ModuleDecl) -> (CodegenState, usize, usize) {
    let mut cg = CodegenState::new("T");
    let f = cg.add_function(String::from("f"), ir_listener_type(module), None, false);
    cg.enter_function(f);
    let entry = cg.emit(Instr::Block { name: String::from("entry") });
    cg.position_at_end(entry);
    let alloca = state_alloca_for_module_function(&mut cg, module);
    let state_ptr = cg.emit(Instr::Load { ptr: alloca, name: String::from("state_ptr") });
    (cg, alloca, state_ptr)
}

fn code(cg: &CodegenState) -> &Vec<Emitted> {
    &cg.functions[cg.current.unwrap()].code
}

fn added(cg: &CodegenState, before: usize) -> Vec<&Instr> {
    code(cg)[before..].iter().map(|entry| &entry.instr).collect()
}

fn name(text: &str) -> String {
    text.to_string()
}

fn an_int() -> Vec<TypePrimitive> {
    vec![TypePrimitive::Int]
}

fn chars() -> TypePrimitive {
    TypePrimitive::DynamicArrayOf(vec![TypePrimitive::Char])
}

fn three_words() -> IrType {
    IrType::Struct(vec![IrType::Int(64), IrType::Int(64), IrType::Int(64)], false)
}

fn byte_span() -> IrType {
    IrType::Struct(vec![IrType::Int(8).pointer_to(), IrType::Int(64)], false)
}

#[test]
fn source_types_lower_to_their_primitives() {
    assert_eq!(type_primitive_for_type(&Type::Int), vec![TypePrimitive::Int]);
    assert_eq!(type_primitive_for_type(&Type::Char), vec![TypePrimitive::Char]);
    assert_eq!(type_primitive_for_type(&Type::Bool), vec![TypePrimitive::Bool]);
    assert_eq!(type_primitive_for_type(&Type::MemRegion), vec![TypePrimitive::MemRegion]);
    assert_eq!(type_primitive_for_type(&Type::String), vec![chars()]);
    let nested = Type::Tuple(vec![Type::Int, Type::Tuple(vec![Type::Char, Type::String])]);
    assert_eq!(
        type_primitive_for_type(&nested),
        vec![TypePrimitive::PointerTo(vec![
            TypePrimitive::Int,
            TypePrimitive::PointerTo(vec![TypePrimitive::Char, chars()]),
        ])]
    );
    assert_eq!(flatten_types(&vec![Type::Int, Type::String]), vec![TypePrimitive::Int, chars()]);
    assert_eq!(flatten_types(&Vec::new()), Vec::new());
}

#[test]
fn primitives_lower_to_ir_types() {
    assert_eq!(llvm_type_for_primitive(&vec![TypePrimitive::Int]), IrType::Int(64));
    assert_eq!(llvm_type_for_primitive(&vec![TypePrimitive::Char]), IrType::Int(8));
    assert_eq!(llvm_type_for_primitive(&vec![TypePrimitive::Bool]), IrType::Int(1));
    assert_eq!(llvm_type_for_primitive(&vec![TypePrimitive::MemRegion]), byte_span());
    assert_eq!(
        llvm_type_for_primitive(&vec![TypePrimitive::DynamicArrayOf(an_int())]),
        IrType::Struct(vec![IrType::Int(64).pointer_to(), IrType::Int(64)], false)
    );
    assert_eq!(
        llvm_type_for_primitive(&vec![TypePrimitive::PointerTo(an_int())]),
        IrType::Int(64).pointer_to()
    );
    assert_eq!(
        llvm_type_for_primitive(&vec![TypePrimitive::FixedArrayOf(vec![TypePrimitive::Char], 4)]),
        IrType::Int(8).pointer_to()
    );
    // More than one primitive, or none, gives a packed struct.
    assert_eq!(
        llvm_type_for_primitive(&vec![TypePrimitive::Int, TypePrimitive::MemRegion]),
        IrType::Struct(vec![IrType::Int(64), byte_span()], true)
    );
    assert_eq!(llvm_type_for_primitive(&Vec::new()), IrType::Struct(Vec::new(), true));
    assert_eq!(dptr_ir_type(IrType::Int(1)).duplicate(), dptr_ir_type(IrType::Int(1)));
    assert_eq!(handle_type(&handle("s", vec![Usage::Read], Type::String)), byte_span());
    assert_eq!(IrType::word(), IrType::Int(64));
    assert_eq!(IrType::byte(), IrType::Int(8));
}

#[test]
fn storage_sizes_add_up() {
    assert_eq!(stride(&Vec::new()), Some(0));
    assert_eq!(stride(&vec![TypePrimitive::Int]), Some(8));
    assert_eq!(stride(&vec![TypePrimitive::Char]), Some(1));
    assert_eq!(stride(&vec![TypePrimitive::Bool]), Some(1));
    assert_eq!(stride(&vec![TypePrimitive::MemRegion]), Some(16));
    assert_eq!(stride(&vec![chars()]), Some(16));
    assert_eq!(stride(&vec![TypePrimitive::PointerTo(an_int())]), Some(8));
    assert_eq!(stride(&vec![TypePrimitive::FixedArrayOf(an_int(), 100)]), Some(8));
    assert_eq!(stride(&vec![TypePrimitive::Char, TypePrimitive::Int, chars()]), Some(25));
}

#[test]
fn primitives_compare_by_structure() {
    let a = TypePrimitive::PointerTo(vec![TypePrimitive::Int, chars()]);
    let b = TypePrimitive::PointerTo(vec![TypePrimitive::Int, chars()]);
    let c = TypePrimitive::PointerTo(vec![TypePrimitive::Int, TypePrimitive::MemRegion]);
    assert!(primitive_eq(&a, &b));
    assert!(!primitive_eq(&a, &c));
    assert!(!primitive_eq(&TypePrimitive::Int, &TypePrimitive::Char));
    assert!(!primitive_eq(
        &TypePrimitive::FixedArrayOf(an_int(), 3),
        &TypePrimitive::FixedArrayOf(an_int(), 4)
    ));
    assert!(primitives_eq(&vec![], &vec![]));
    assert!(!primitives_eq(&an_int(), &vec![]));
    assert!(!primitives_eq(&vec![TypePrimitive::DynamicArrayOf(an_int())], &vec![chars()]));
}

#[test]
fn handles_are_found_by_name() {
    let mut module = test_module();
    module.handles.push(handle("far", vec![Usage::Write], Type::Char));
    assert_eq!(module.idx_for_field(&name("foo")), Some(0));
    assert_eq!(module.idx_for_field(&name("far")), Some(1));
    assert_eq!(module.idx_for_field(&name("bar")), Some(2));
    assert_eq!(module.idx_for_field(&name("nope")), None);
    assert_eq!(module.type_for_field(&name("far")), Some(&Type::Int));
    assert_eq!(module.type_for_field(&name("nope")), None);
    assert!(module.handles[0].is_output());
    assert!(!module.handles[1].is_output());
    assert!(module.handles[2].is_output());
    assert!(!handle("x", Vec::new(), Type::Int).is_output());
    let info = ModuleInfo {
        module: test_module(),
        handle_map: vec![(name("a"), name("x")), (name("b"), name("y")), (name("a"), name("z"))],
    };
    assert_eq!(info.parent_of(&name("a")), Some(&name("x")));
    assert_eq!(info.parent_of(&name("b")), Some(&name("y")));
    assert_eq!(info.parent_of(&name("c")), None);
}

#[test]
fn functions_are_named_after_module_kind_and_trigger() {
    let module = test_module();
    assert_eq!(module.fn_name(), "TestModule_update");
    assert_eq!(listener_fn_name(&module, &module.listeners[0]), "TestModule__OnChange__foo");
    let written = Listener {
        trigger: name("bar"),
        kind: ListenerKind::OnWrite,
        implementation: ExpressionValue::Empty,
    };
    assert_eq!(listener_fn_name(&module, &written), "TestModule__OnWrite__bar");
    assert_eq!(ListenerKind::OnChange.to_str(), "OnChange");
    assert!(Operator::LogicalOr.is_logical());
    assert!(Operator::LogicalAnd.is_logical());
    assert!(!Operator::Equality.is_logical());
}

#[test]
fn well_formed_modules_have_at_most_64_handles() {
    let many = |count: usize| {
        module_of(
            (0..count).map(|i| handle(&format!("h{}", i), vec![Usage::Read], Type::Int)).collect(),
            Vec::new(),
        )
    };
    assert!(many(64).is_well_formed());
    assert!(!many(65).is_well_formed());
    assert!(plan_module(&many(64)).is_ok());
    assert!(matches!(plan_module(&many(65)), Err(CodegenError::TypeMismatch(_))));
    let mut parent = test_module();
    parent.submodules.push(ModuleInfo { module: many(65), handle_map: Vec::new() });
    assert!(!parent.is_well_formed());
    match many(64).ir_type() {
        IrType::Struct(fields, false) => assert_eq!(fields.len(), 129),
        other => panic!("{:?}", other),
    }
}

#[test]
fn state_layout_has_two_slots_per_handle_then_bitfield_then_submodules() {
    let child = module_of(vec![handle("c", vec![Usage::Write], Type::Char)], Vec::new());
    let grandchild_free = child.ir_type();
    assert_eq!(
        grandchild_free,
        IrType::Struct(vec![IrType::Int(8), IrType::Int(8), IrType::Int(64)], false)
    );
    let parent = ModuleDecl {
        name: name("P"),
        handles: vec![
            handle("s", vec![Usage::Read], Type::String),
            handle("b", vec![Usage::Read], Type::Bool),
        ],
        listeners: Vec::new(),
        submodules: vec![
            ModuleInfo { module: module_of(Vec::new(), Vec::new()), handle_map: Vec::new() },
            ModuleInfo { module: child, handle_map: Vec::new() },
        ],
    };
    assert_eq!(
        parent.ir_type(),
        IrType::Struct(
            vec![
                byte_span(),
                byte_span(),
                IrType::Int(1),
                IrType::Int(1),
                IrType::Int(64),
                IrType::Struct(vec![IrType::Int(64)], false),
                grandchild_free,
            ],
            false
        )
    );
}

#[test]
fn field_pointers_use_the_layout_indices() {
    let module = test_module();
    let (mut cg, _, state_ptr) = in_function(&module);
    let start = code(&cg).len();
    let read = cg.read_ptr_for_field(&module, state_ptr, &name("far")).unwrap();
    assert_eq!(read, TypedPointer { ptr: start, value_type: an_int() });
    let update = cg
        .update_ptr_for_field(&module, state_ptr, &name("bar"), UpdatePtrPurpose::WriteAndSet)
        .unwrap();
    assert_eq!(
        update,
        UpdatePointer {
            target: TypedPointer { ptr: start + 1, value_type: an_int() },
            bitfield_ptr: start + 2,
            mask: 0x4,
            purpose: UpdatePtrPurpose::WriteAndSet,
        }
    );
    let bitfield = cg.module_bitfield_ptr(&module, state_ptr);
    assert_eq!(bitfield, start + 3);
    assert_eq!(
        added(&cg, start),
        vec![
            &Instr::StructGep { ptr: state_ptr, index: 2, name: name("read_ptr") },
            &Instr::StructGep { ptr: state_ptr, index: 5, name: name("update_ptr") },
            &Instr::StructGep { ptr: state_ptr, index: 6, name: name("bitfield_ptr") },
            &Instr::StructGep { ptr: state_ptr, index: 6, name: name("bitfield_ptr") },
        ]
    );
    assert_eq!(
        cg.read_ptr_for_field(&module, state_ptr, &name("nope")),
        Err(CodegenError::BadReadFieldName(name("nope")))
    );
    assert_eq!(
        cg.update_ptr_for_field(&module, state_ptr, &name("nope"), UpdatePtrPurpose::ReadAndClear),
        Err(CodegenError::BadReadFieldName(name("nope")))
    );
    assert!(matches!(cg.submodule_ptr(&module, state_ptr, 0), Err(CodegenError::TypeMismatch(_))));
    let mut parent = test_module();
    parent.submodules.push(ModuleInfo { module: test_module(), handle_map: Vec::new() });
    parent.submodules.push(ModuleInfo { module: test_module(), handle_map: Vec::new() });
    let before = code(&cg).len();
    assert_eq!(cg.submodule_ptr(&parent, state_ptr, 1), Ok(before));
    assert_eq!(
        added(&cg, before),
        vec![&Instr::StructGep { ptr: state_ptr, index: 8, name: name("submodule_ptr") }]
    );
}

#[test]
fn update_function_of_a_single_handle() {
    let module = module_of(vec![handle("x", vec![Usage::Read], Type::Int)], Vec::new());
    let mut cg = CodegenState::new("M");
    assert_eq!(module_update_function(&mut cg, &module), Ok(()));
    assert_eq!(cg.functions.len(), 1);
    let function = &cg.functions[0];
    assert_eq!(function.name, "M_update");
    assert_eq!(
        function.params,
        vec![three_words().pointer_to()]
    );
    assert_eq!(function.result, None);
    assert!(!function.var_args);
    let state_type = three_words().pointer_to();
    let placed = |at: usize, instr: Instr| Emitted { at: Some(at), instr };
    let expected = vec![
        Emitted { at: None, instr: Instr::Block { name: name("entry") } },
        placed(0, Instr::Alloca { ty: state_type, name: name("state_alloca") }),
        placed(0, Instr::Param { index: 0 }),
        placed(0, Instr::Store { ptr: 1, value: 2 }),
        placed(0, Instr::Load { ptr: 1, name: name("state_ptr") }),
        placed(0, Instr::StructGep { ptr: 4, index: 2, name: name("bitfield_ptr") }),
        placed(0, Instr::Load { ptr: 5, name: name("bitfield") }),
        placed(0, Instr::ConstInt { bits: 64, constant: 1 }),
        placed(
            0,
            Instr::Binary { op: BinaryOp::And, lhs: 6, rhs: 7, name: name("bitfield_test") },
        ),
        placed(0, Instr::ConstInt { bits: 64, constant: 0 }),
        placed(
            0,
            Instr::Compare {
                predicate: Predicate::NotEqual,
                lhs: 8,
                rhs: 9,
                name: name("has_listener"),
            },
        ),
        placed(0, Instr::Block { name: name("activate_for_x") }),
        placed(0, Instr::Block { name: name("after_x") }),
        placed(0, Instr::CondBr { condition: 10, if_true: 11, if_false: 12 }),
        placed(11, Instr::StructGep { ptr: 4, index: 0, name: name("read_ptr") }),
        placed(11, Instr::StructGep { ptr: 4, index: 1, name: name("update_ptr") }),
        placed(11, Instr::StructGep { ptr: 4, index: 2, name: name("bitfield_ptr") }),
        placed(11, Instr::Load { ptr: 15, name: name("value") }),
        placed(11, Instr::Load { ptr: 16, name: name("bitfield") }),
        placed(11, Instr::ConstInt { bits: 64, constant: 0xffff_ffff_ffff_fffe }),
        placed(
            11,
            Instr::Binary { op: BinaryOp::And, lhs: 18, rhs: 19, name: name("new_bitfield") },
        ),
        placed(11, Instr::Store { ptr: 16, value: 20 }),
        placed(11, Instr::ConstInt { bits: 64, constant: 0 }),
        placed(11, Instr::Store { ptr: 15, value: 22 }),
        placed(11, Instr::Store { ptr: 14, value: 17 }),
        placed(11, Instr::Br { target: 12 }),
        placed(12, Instr::Ret),
    ];
    assert_eq!(function.code, expected);
    assert_eq!(cg.current, Some(0));
    assert_eq!(cg.position, Some(12));
}

#[test]
fn update_function_needs_valid_triggers_and_emitted_listeners() {
    let mut module = test_module();
    let mut cg = CodegenState::new("TestModule");
    // The listener's function has not been emitted.
    assert_eq!(module_update_function(&mut cg, &module), Err(CodegenError::FunctionMissing));
    let mut cg = CodegenState::new("TestModule");
    assert_eq!(listener_codegen(&mut cg, &module, &module.listeners[0]), Ok(()));
    assert_eq!(module_update_function(&mut cg, &module), Ok(()));
    assert_eq!(cg.functions.len(), 2);
    // A trigger that is no handle: nothing is emitted.
    module.listeners[0].trigger = name("invalid");
    let mut cg = CodegenState::new("TestModule");
    assert_eq!(module_update_function(&mut cg, &module), Err(CodegenError::BadListenerTrigger));
    assert_eq!(cg, CodegenState::new("TestModule"));
    // The listeners are emitted first, so a failing body shows before the trigger.
    module.listeners[0].implementation = state("nope");
    let mut cg = CodegenState::new("TestModule");
    assert_eq!(
        module_codegen(&mut cg, &module),
        Err(CodegenError::BadReadFieldName(name("nope")))
    );
}

#[test]
fn blocks_need_a_builder_that_stands_somewhere() {
    let mut cg = CodegenState::new("T");
    assert_eq!(append_new_block(&mut cg, "b"), Err(CodegenError::NotInABlock));
    assert_eq!(flow_to_new_block(&mut cg, "b"), Err(CodegenError::NotInABlock));
    cg.position = Some(0);
    assert_eq!(append_new_block(&mut cg, "b"), Err(CodegenError::NotInAFunction));
    cg.current = Some(3);
    assert_eq!(append_new_block(&mut cg, "b"), Err(CodegenError::NotInAFunction));
    let (mut cg, _, _) = in_function(&test_module());
    let before = code(&cg).len();
    assert_eq!(append_new_block(&mut cg, "next"), Ok(before));
    assert_eq!(cg.position, Some(0));
    assert_eq!(flow_to_new_block(&mut cg, "then"), Ok(before + 1));
    assert_eq!(cg.position, Some(before + 1));
    assert_eq!(
        code(&cg)[before..],
        [
            Emitted { at: Some(0), instr: Instr::Block { name: name("next") } },
            Emitted { at: Some(0), instr: Instr::Block { name: name("then") } },
            Emitted { at: Some(0), instr: Instr::Br { target: before + 1 } },
        ]
    );
}

#[test]
fn runtime_functions_are_declared_once() {
    let (mut cg, _, state_ptr) = in_function(&test_module());
    assert_eq!(cg.functions.len(), 1);
    let before = code(&cg).len();
    let size = cg.uint_const(24);
    let first = malloc(&mut cg, size, "a");
    let second = malloc(&mut cg, size, "b");
    assert_eq!(cg.functions.len(), 2);
    assert_eq!(get_malloc(&mut cg), 1);
    let declared = &cg.functions[1];
    assert_eq!(
        (declared.name.as_str(), &declared.params, &declared.result, declared.var_args),
        ("malloc", &vec![IrType::Int(64)], &Some(IrType::Int(8).pointer_to()), false)
    );
    assert!(declared.code.is_empty());
    free(&mut cg, first);
    let difference = memcmp(&mut cg, first, second, size);
    assert_eq!(get_free(&mut cg), 2);
    assert_eq!(get_memcmp(&mut cg), 3);
    assert_eq!(get_printf(&mut cg), 4);
    assert_eq!(get_printf(&mut cg), 4);
    assert_eq!(cg.functions.len(), 5);
    let byte_ptr = IrType::Int(8).pointer_to();
    assert_eq!(cg.functions[2].params, vec![IrType::Int(8).pointer_to()]);
    assert_eq!(cg.functions[2].result, None);
    assert_eq!(
        cg.functions[3].params,
        vec![IrType::Int(8).pointer_to(), IrType::Int(8).pointer_to(), IrType::Int(64)]
    );
    assert_eq!(cg.functions[3].result, Some(IrType::Int(64)));
    assert_eq!(cg.functions[4].params, vec![byte_ptr]);
    assert_eq!(cg.functions[4].result, Some(IrType::Int(32)));
    assert!(cg.functions[4].var_args);
    assert_eq!(difference, before + 4);
    assert_eq!(
        added(&cg, before),
        vec![
            &Instr::ConstInt { bits: 64, constant: 24 },
            &Instr::Call { callee: 1, args: vec![size], name: name("a") },
            &Instr::Call { callee: 1, args: vec![size], name: name("b") },
            &Instr::Call { callee: 2, args: vec![first], name: name("") },
            &Instr::Call { callee: 3, args: vec![first, second, size], name: name("memcmp_result") },
        ]
    );
    // The update function of a submodule is declared where the module has none.
    let before = code(&cg).len();
    let child = module_of(vec![handle("c", vec![Usage::Read], Type::Char)], Vec::new());
    invoke_submodule(&mut cg, &child, state_ptr);
    invoke_submodule(&mut cg, &child, state_ptr);
    assert_eq!(cg.functions.len(), 6);
    assert_eq!(cg.functions[5].name, "M_update");
    assert_eq!(cg.functions[5].params, ir_listener_type(&child));
    assert_eq!(
        added(&cg, before),
        vec![
            &Instr::Call { callee: 5, args: vec![state_ptr], name: name("_") },
            &Instr::Call { callee: 5, args: vec![state_ptr], name: name("_") },
        ]
    );
}

#[test]
fn debugging_prints_through_printf() {
    let (mut cg, _, _) = in_function(&test_module());
    let before = code(&cg).len();
    debug_str(&mut cg, "hello");
    assert_eq!(
        added(&cg, before),
        vec![
            &Instr::GlobalString { text: name("skunk> hello"), name: name("sk_str") },
            &Instr::Call { callee: 1, args: vec![before], name: name("_") },
        ]
    );
    let before = code(&cg).len();
    assert_eq!(debug(&mut cg, StateValue::Nothing), Ok(()));
    assert_eq!(code(&cg).len(), before);
    assert_eq!(debug(&mut cg, StateValue::Int(3)), Ok(()));
    assert_eq!(debug(&mut cg, StateValue::MemRegion { data: 4, size: 5 }), Ok(()));
    assert_eq!(
        added(&cg, before),
        vec![
            &Instr::GlobalString { text: name("skunk> %ld\n"), name: name("sk_format") },
            &Instr::Call { callee: 1, args: vec![before, 3], name: name("_") },
            &Instr::GlobalString {
                text: name("skunk> %p (%ld bytes)\n"),
                name: name("sk_format"),
            },
            &Instr::Call { callee: 1, args: vec![before + 2, 4, 5], name: name("_") },
        ]
    );
}

#[test]
fn values_load_and_store_by_their_representation() {
    let (mut cg, _, _) = in_function(&test_module());
    let before = code(&cg).len();
    let scalar = TypedPointer { ptr: 1, value_type: vec![TypePrimitive::Char] };
    assert_eq!(scalar.load(&mut cg, "c"), Ok(StateValue::Char(before)));
    let span = TypedPointer { ptr: 1, value_type: vec![chars()] };
    assert_eq!(
        span.load(&mut cg, "s"),
        Ok(StateValue::DynamicArray {
            data: before + 2,
            size: before + 4,
            elem_type: vec![TypePrimitive::Char],
        })
    );
    let tuple = TypedPointer { ptr: 1, value_type: vec![TypePrimitive::PointerTo(an_int())] };
    assert_eq!(
        tuple.load(&mut cg, "t"),
        Ok(StateValue::Tuple { ptr: before + 5, field_types: an_int() })
    );
    let fixed = TypedPointer { ptr: 1, value_type: vec![TypePrimitive::FixedArrayOf(an_int(), 7)] };
    assert_eq!(
        fixed.load(&mut cg, "f"),
        Ok(StateValue::FixedArray { data: before + 6, elem_type: an_int(), len: 7 })
    );
    let inline = TypedPointer { ptr: 1, value_type: vec![TypePrimitive::Int, TypePrimitive::Int] };
    assert!(matches!(inline.load(&mut cg, "i"), Err(CodegenError::TypeMismatch(_))));
    assert_eq!(
        added(&cg, before),
        vec![
            &Instr::Load { ptr: 1, name: name("c") },
            &Instr::StructGep { ptr: 1, index: 0, name: name("data_ptr") },
            &Instr::Load { ptr: before + 1, name: name("s") },
            &Instr::StructGep { ptr: 1, index: 1, name: name("size_ptr") },
            &Instr::Load { ptr: before + 3, name: name("size") },
            &Instr::Load { ptr: 1, name: name("t") },
            &Instr::Load { ptr: 1, name: name("f") },
        ]
    );
    let before = code(&cg).len();
    assert_eq!(StateValue::Char(2).store(&mut cg, &scalar), Ok(()));
    assert_eq!(StateValue::MemRegion { data: 2, size: 3 }.store(
        &mut cg,
        &TypedPointer { ptr: 1, value_type: vec![TypePrimitive::MemRegion] }
    ), Ok(()));
    assert!(matches!(
        StateValue::Int(2).store(&mut cg, &scalar),
        Err(CodegenError::TypeMismatch(_))
    ));
    assert!(matches!(
        StateValue::MemRegion { data: 2, size: 3 }.store(&mut cg, &span),
        Err(CodegenError::TypeMismatch(_))
    ));
    assert!(matches!(
        StateValue::Nothing.store(&mut cg, &scalar),
        Err(CodegenError::TypeMismatch(_))
    ));
    assert_eq!(
        added(&cg, before),
        vec![
            &Instr::Store { ptr: 1, value: 2 },
            &Instr::StructGep { ptr: 1, index: 0, name: name("data_ptr") },
            &Instr::Store { ptr: before + 1, value: 2 },
            &Instr::StructGep { ptr: 1, index: 1, name: name("size_ptr") },
            &Instr::Store { ptr: before + 3, value: 3 },
        ]
    );
}

#[test]
fn update_pointers_keep_the_bitfield() {
    let (mut cg, _, _) = in_function(&test_module());
    let pointer = |purpose| UpdatePointer {
        target: TypedPointer { ptr: 1, value_type: an_int() },
        bitfield_ptr: 2,
        mask: 0x10,
        purpose,
    };
    let before = code(&cg).len();
    assert_eq!(
        pointer(UpdatePtrPurpose::ReadWithoutClearing).load(&mut cg, "v"),
        Ok(StateValue::Int(before))
    );
    assert_eq!(code(&cg).len(), before + 1);
    assert_eq!(
        pointer(UpdatePtrPurpose::ReadAndClear).load(&mut cg, "v"),
        Ok(StateValue::Int(before + 1))
    );
    assert_eq!(
        pointer(UpdatePtrPurpose::WriteAndSet).store(&mut cg, &StateValue::Int(before)),
        Ok(())
    );
    assert!(matches!(
        pointer(UpdatePtrPurpose::WriteAndSet).load(&mut cg, "v"),
        Err(CodegenError::TypeMismatch(_))
    ));
    assert!(matches!(
        pointer(UpdatePtrPurpose::ReadAndClear).store(&mut cg, &StateValue::Int(before)),
        Err(CodegenError::TypeMismatch(_))
    ));
    pointer(UpdatePtrPurpose::ReadWithoutClearing).clear_update_pointer(&mut cg);
    assert_eq!(
        added(&cg, before + 1),
        vec![
            &Instr::Load { ptr: 1, name: name("v") },
            &Instr::Load { ptr: 2, name: name("bitfield") },
            &Instr::ConstInt { bits: 64, constant: !0x10 },
            &Instr::Binary {
                op: BinaryOp::And,
                lhs: before + 2,
                rhs: before + 3,
                name: name("new_bitfield"),
            },
            &Instr::Store { ptr: 2, value: before + 4 },
            &Instr::ConstInt { bits: 64, constant: 0 },
            &Instr::Store { ptr: 1, value: before + 6 },
            &Instr::Store { ptr: 1, value: before },
            &Instr::Load { ptr: 2, name: name("bitfield") },
            &Instr::ConstInt { bits: 64, constant: 0x10 },
            &Instr::Binary {
                op: BinaryOp::Or,
                lhs: before + 9,
                rhs: before + 10,
                name: name("new_bitfield"),
            },
            &Instr::Store { ptr: 2, value: before + 11 },
        ]
    );
    // Reading and clearing leaves the zero of the representation behind.
    let span = UpdatePointer {
        target: TypedPointer { ptr: 1, value_type: vec![chars()] },
        bitfield_ptr: 2,
        mask: 1,
        purpose: UpdatePtrPurpose::ReadAndClear,
    };
    let before = code(&cg).len();
    span.clear_update_pointer(&mut cg);
    assert_eq!(
        added(&cg, before + 4),
        vec![
            &Instr::ConstInt { bits: 64, constant: 0 },
            &Instr::IntToPtr { address: before + 4, pointee: IrType::Int(8), name: name("null") },
            &Instr::StructGep { ptr: 1, index: 0, name: name("data_ptr") },
            &Instr::Store { ptr: before + 6, value: before + 5 },
            &Instr::StructGep { ptr: 1, index: 1, name: name("size_ptr") },
            &Instr::Store { ptr: before + 8, value: before + 4 },
        ]
    );
    let tuple = UpdatePointer {
        target: TypedPointer { ptr: 1, value_type: vec![TypePrimitive::PointerTo(an_int())] },
        bitfield_ptr: 2,
        mask: 1,
        purpose: UpdatePtrPurpose::ReadAndClear,
    };
    let before = code(&cg).len();
    tuple.clear_update_pointer(&mut cg);
    assert_eq!(
        added(&cg, before + 4),
        vec![
            &Instr::ConstInt { bits: 64, constant: 0 },
            &Instr::IntToPtr { address: before + 4, pointee: IrType::Int(64), name: name("null") },
            &Instr::Store { ptr: 1, value: before + 5 },
        ]
    );
    let flag = UpdatePointer {
        target: TypedPointer { ptr: 1, value_type: vec![TypePrimitive::Bool] },
        bitfield_ptr: 2,
        mask: 1,
        purpose: UpdatePtrPurpose::ReadAndClear,
    };
    let before = code(&cg).len();
    flag.clear_update_pointer(&mut cg);
    assert_eq!(
        added(&cg, before + 4),
        vec![
            &Instr::ConstInt { bits: 1, constant: 0 },
            &Instr::Store { ptr: 1, value: before + 4 },
        ]
    );
}

#[test]
fn sizes_lookups_and_comparisons() {
    let (mut cg, _, _) = in_function(&test_module());
    let before = code(&cg).len();
    assert_eq!(StateValue::Int(1).size(&mut cg), Ok(StateValue::Int(before)));
    assert_eq!(StateValue::Char(1).size(&mut cg), Ok(StateValue::Int(before + 1)));
    assert_eq!(StateValue::Bool(1).size(&mut cg), Ok(StateValue::Int(before + 2)));
    assert_eq!(StateValue::MemRegion { data: 1, size: 2 }.size(&mut cg), Ok(StateValue::Int(2)));
    assert!(matches!(StateValue::Nothing.size(&mut cg), Err(CodegenError::TypeMismatch(_))));
    assert!(matches!(
        StateValue::Tuple { ptr: 1, field_types: an_int() }.size(&mut cg),
        Err(CodegenError::TypeMismatch(_))
    ));
    assert_eq!(
        added(&cg, before),
        vec![
            &Instr::ConstInt { bits: 64, constant: 8 },
            &Instr::ConstInt { bits: 64, constant: 1 },
            &Instr::ConstInt { bits: 64, constant: 1 },
        ]
    );
    let before = code(&cg).len();
    let array = StateValue::DynamicArray { data: 1, size: 2, elem_type: an_int() };
    assert_eq!(array.array_lookup(&mut cg, StateValue::Int(3)), Ok(StateValue::Int(before + 5)));
    assert_eq!(
        added(&cg, before),
        vec![
            &Instr::PtrToInt { ptr: 1, name: name("array_base") },
            &Instr::ConstInt { bits: 64, constant: 8 },
            &Instr::Binary { op: BinaryOp::Mul, lhs: 3, rhs: before + 1, name: name("offset") },
            &Instr::Binary {
                op: BinaryOp::Add,
                lhs: before,
                rhs: before + 2,
                name: name("element_address"),
            },
            &Instr::IntToPtr {
                address: before + 3,
                pointee: IrType::Int(64),
                name: name("element_ptr"),
            },
            &Instr::Load { ptr: before + 4, name: name("element") },
        ]
    );
    assert!(matches!(
        array.array_lookup(&mut cg, StateValue::Char(3)),
        Err(CodegenError::TypeMismatch(_))
    ));
    assert!(matches!(
        StateValue::Int(1).array_lookup(&mut cg, StateValue::Int(3)),
        Err(CodegenError::TypeMismatch(_))
    ));
    let fixed = StateValue::FixedArray { data: 1, elem_type: vec![TypePrimitive::Char], len: 9 };
    assert!(matches!(fixed.array_lookup(&mut cg, StateValue::Int(3)), Ok(StateValue::Char(_))));

    let before = code(&cg).len();
    assert_eq!(
        StateValue::Int(1).equals(&mut cg, &StateValue::Int(2)),
        Ok(StateValue::Bool(before))
    );
    assert_eq!(
        StateValue::Int(1).less_than(&mut cg, &StateValue::Int(2)),
        Ok(StateValue::Bool(before + 1))
    );
    assert_eq!(
        StateValue::Int(1).greater_than(&mut cg, &StateValue::Int(2)),
        Ok(StateValue::Bool(before + 2))
    );
    assert_eq!(
        StateValue::Char(1).less_than(&mut cg, &StateValue::Char(2)),
        Ok(StateValue::Bool(before + 3))
    );
    assert_eq!(
        StateValue::Bool(1).greater_than(&mut cg, &StateValue::Bool(2)),
        Ok(StateValue::Bool(before + 4))
    );
    let predicates: Vec<Predicate> = code(&cg)[before..]
        .iter()
        .map(|entry| match &entry.instr {
            Instr::Compare { predicate, lhs: 1, rhs: 2, .. } => *predicate,
            other => panic!("{:?}", other),
        })
        .collect();
    assert_eq!(
        predicates,
        vec![
            Predicate::Equal,
            Predicate::SignedLess,
            Predicate::SignedGreater,
            Predicate::UnsignedLess,
            Predicate::UnsignedGreater,
        ]
    );
    for (l, r) in [
        (StateValue::Int(1), StateValue::Char(2)),
        (StateValue::Nothing, StateValue::Nothing),
        (StateValue::MemRegion { data: 1, size: 2 }, StateValue::Int(2)),
    ] {
        assert!(matches!(l.equals(&mut cg, &r), Err(CodegenError::TypeMismatch(_))));
        assert!(matches!(l.less_than(&mut cg, &r), Err(CodegenError::TypeMismatch(_))));
        assert!(matches!(l.greater_than(&mut cg, &r), Err(CodegenError::TypeMismatch(_))));
    }
    let region = StateValue::MemRegion { data: 1, size: 2 };
    assert!(matches!(region.less_than(&mut cg, &region), Err(CodegenError::TypeMismatch(_))));
}

#[test]
fn regions_are_compared_by_size_first() {
    let (mut cg, _, _) = in_function(&test_module());
    let before = code(&cg).len();
    let left = StateValue::MemRegion { data: 1, size: 2 };
    let right = StateValue::MemRegion { data: 3, size: 4 };
    assert_eq!(left.equals(&mut cg, &right), Ok(StateValue::Bool(before + 8)));
    let memcmp = cg.functions.len() - 1;
    assert_eq!(cg.functions[memcmp].name, "memcmp");
    assert_eq!(
        code(&cg)[before..],
        [
            Emitted {
                at: Some(0),
                instr: Instr::Compare {
                    predicate: Predicate::Equal,
                    lhs: 2,
                    rhs: 4,
                    name: name("sizes_equal"),
                },
            },
            Emitted { at: Some(0), instr: Instr::Block { name: name("compare_bytes") } },
            Emitted { at: Some(0), instr: Instr::Block { name: name("compared") } },
            Emitted {
                at: Some(0),
                instr: Instr::CondBr {
                    condition: before,
                    if_true: before + 1,
                    if_false: before + 2,
                },
            },
            Emitted {
                at: Some(before + 1),
                instr: Instr::Call {
                    callee: memcmp,
                    args: vec![1, 3, 2],
                    name: name("memcmp_result"),
                },
            },
            Emitted { at: Some(before + 1), instr: Instr::ConstInt { bits: 64, constant: 0 } },
            Emitted {
                at: Some(before + 1),
                instr: Instr::Compare {
                    predicate: Predicate::Equal,
                    lhs: before + 4,
                    rhs: before + 5,
                    name: name("bytes_equal"),
                },
            },
            Emitted { at: Some(before + 1), instr: Instr::Br { target: before + 2 } },
            Emitted {
                at: Some(before + 2),
                instr: Instr::Phi {
                    ty: IrType::Int(1),
                    incoming: vec![(before, 0), (before + 6, before + 1)],
                    name: name("regions_equal"),
                },
            },
        ]
    );
    assert_eq!(cg.position, Some(before + 2));
}

#[test]
fn tuples_are_allocated_and_filled() {
    let (mut cg, _, _) = in_function(&test_module());
    let before = code(&cg).len();
    let pair = vec![TypePrimitive::PointerTo(vec![TypePrimitive::Char, TypePrimitive::Int])];
    let tuple = StateValue::new_tuple(&mut cg, pair).unwrap();
    assert_eq!(
        tuple,
        StateValue::Tuple {
            ptr: before + 2,
            field_types: vec![TypePrimitive::Char, TypePrimitive::Int],
        }
    );
    assert_eq!(tuple.set_tuple_index(&mut cg, 1, StateValue::Int(3)), Ok(()));
    assert_eq!(tuple.get_tuple_index(&mut cg, 0), Ok(StateValue::Char(before + 6)));
    assert!(matches!(
        tuple.set_tuple_index(&mut cg, 0, StateValue::Int(3)),
        Err(CodegenError::TypeMismatch(_))
    ));
    assert!(matches!(tuple.get_tuple_index(&mut cg, 2), Err(CodegenError::TypeMismatch(_))));
    assert!(matches!(
        StateValue::Int(1).get_tuple_index(&mut cg, 0),
        Err(CodegenError::TypeMismatch(_))
    ));
    let malloc = cg.functions.len() - 1;
    assert_eq!(
        added(&cg, before)[..7],
        [
            &Instr::ConstInt { bits: 64, constant: 9 },
            &Instr::Call { callee: malloc, args: vec![before], name: name("tuple_memory") },
            &Instr::PointerCast {
                ptr: before + 1,
                pointee: IrType::Struct(vec![IrType::Int(8), IrType::Int(64)], true),
                name: name("tuple_ptr"),
            },
            &Instr::StructGep { ptr: before + 2, index: 1, name: name("tuple_field_ptr") },
            &Instr::Store { ptr: before + 3, value: 3 },
            &Instr::StructGep { ptr: before + 2, index: 0, name: name("tuple_field_ptr") },
            &Instr::Load { ptr: before + 5, name: name("tuple_field") },
        ]
    );
    assert!(matches!(StateValue::new_tuple(&mut cg, an_int()), Err(CodegenError::TypeMismatch(_))));
    assert!(matches!(
        StateValue::new_tuple(&mut cg, Vec::new()),
        Err(CodegenError::TypeMismatch(_))
    ));
    // A tuple of one field is a pointer to the field.
    let before = code(&cg).len();
    let single = StateValue::Tuple { ptr: 1, field_types: an_int() };
    assert_eq!(single.get_tuple_index(&mut cg, 0), Ok(StateValue::Int(before)));
    assert_eq!(added(&cg, before), vec![&Instr::Load { ptr: 1, name: name("tuple_field") }]);
}

#[test]
fn values_know_their_representation() {
    assert_eq!(StateValue::new_none(), StateValue::Nothing);
    assert!(StateValue::new_none().is_none());
    assert!(!StateValue::new_int(1).is_none());
    assert_eq!(StateValue::new_int(1).into_int_value(), Some(1));
    assert_eq!(StateValue::new_char(2).into_int_value(), Some(2));
    assert_eq!(StateValue::new_bool(3).into_int_value(), Some(3));
    assert_eq!(StateValue::MemRegion { data: 1, size: 2 }.into_int_value(), None);
    assert_eq!(StateValue::Nothing.value_type(), Vec::new());
    assert_eq!(StateValue::Bool(1).value_type(), vec![TypePrimitive::Bool]);
    let array = StateValue::DynamicArray { data: 1, size: 2, elem_type: an_int() };
    assert_eq!(array.value_type(), vec![TypePrimitive::DynamicArrayOf(an_int())]);
    assert_eq!(array.duplicate(), array);
    assert_eq!(
        array.llvm_type(),
        IrType::Struct(vec![IrType::Int(64).pointer_to(), IrType::Int(64)], false)
    );
    assert_eq!(
        StateValue::FixedArray { data: 1, elem_type: an_int(), len: 3 }.value_type(),
        vec![TypePrimitive::FixedArrayOf(an_int(), 3)]
    );
    assert_eq!(
        StateValue::new_dynamic_mem_region_of_type(1, 2, vec![TypePrimitive::MemRegion]),
        Some(StateValue::MemRegion { data: 1, size: 2 })
    );
    assert_eq!(
        StateValue::new_dynamic_mem_region_of_type(1, 2, vec![chars()]),
        Some(StateValue::DynamicArray { data: 1, size: 2, elem_type: vec![TypePrimitive::Char] })
    );
    assert_eq!(StateValue::new_dynamic_mem_region_of_type(1, 2, an_int()), None);
    assert_eq!(StateValue::new_dynamic_mem_region_of_type(1, 2, Vec::new()), None);
}

#[test]
fn branches_merge_with_one_phi_per_part() {
    let (mut cg, _, _) = in_function(&test_module());
    let before = code(&cg).len();
    assert_eq!(
        StateValue::Char(1).merge(&mut cg, 10, &StateValue::Char(2), 20),
        Ok(StateValue::Char(before))
    );
    let left = StateValue::DynamicArray { data: 1, size: 2, elem_type: an_int() };
    let right = StateValue::DynamicArray { data: 3, size: 4, elem_type: an_int() };
    assert_eq!(
        left.merge(&mut cg, 10, &right, 20),
        Ok(StateValue::DynamicArray { data: before + 1, size: before + 2, elem_type: an_int() })
    );
    assert_eq!(
        StateValue::Nothing.merge(&mut cg, 10, &StateValue::Nothing, 20),
        Ok(StateValue::Nothing)
    );
    assert!(matches!(
        StateValue::Char(1).merge(&mut cg, 10, &StateValue::Int(2), 20),
        Err(CodegenError::TypeMismatch(_))
    ));
    assert_eq!(
        added(&cg, before),
        vec![
            &Instr::Phi {
                ty: IrType::Int(8),
                incoming: vec![(1, 10), (2, 20)],
                name: name("merged"),
            },
            &Instr::Phi {
                ty: IrType::Int(64).pointer_to(),
                incoming: vec![(1, 10), (3, 20)],
                name: name("merged"),
            },
            &Instr::Phi {
                ty: IrType::Int(64),
                incoming: vec![(2, 10), (4, 20)],
                name: name("merged_size"),
            },
        ]
    );
}

fn expression_types_module() -> ModuleDecl {
    module_of(
        vec![
            handle("i_tuple", vec![Usage::Read], Type::Tuple(vec![Type::String, Type::Int])),
            handle("offset", vec![Usage::Read], Type::Int),
        ],
        Vec::new(),
    )
}

#[test]
fn expression_types() {
    let module = expression_types_module();
    let cg = CodegenState::new("InvalidModule");
    let first = || ExpressionValue::TupleLookup(Box::new(state("i_tuple")), 0);
    let t =
        expression_type(&cg, &module, &ExpressionValue::Tuple(vec![first(), state("offset")]));
    let u = expression_type(&cg, &module, &state("i_tuple"));
    let v = expression_type(&cg, &module, &first());
    assert_eq!(t, Ok(vec![TypePrimitive::PointerTo(vec![chars(), TypePrimitive::Int])]));
    assert_eq!(u, Ok(vec![TypePrimitive::PointerTo(vec![chars(), TypePrimitive::Int])]));
    assert_eq!(v, Ok(vec![chars()]));
}

#[test]
fn expression_types_follow_the_shape_of_the_expression() {
    let module = expression_types_module();
    let mut cg = CodegenState::new("T");
    let ty = |cg: &CodegenState, e: ExpressionValue| expression_type(cg, &module, &e);
    assert_eq!(ty(&cg, ExpressionValue::IntLiteral(1)), Ok(an_int()));
    assert_eq!(ty(&cg, ExpressionValue::CharLiteral(b'a')), Ok(vec![TypePrimitive::Char]));
    assert_eq!(ty(&cg, ExpressionValue::StringLiteral(name("s"))), Ok(vec![chars()]));
    assert_eq!(ty(&cg, ExpressionValue::Empty), Ok(Vec::new()));
    assert_eq!(ty(&cg, ExpressionValue::Block(Vec::new())), Ok(Vec::new()));
    assert_eq!(
        ty(&cg, ExpressionValue::Block(vec![state("nope"), ExpressionValue::IntLiteral(1)])),
        Ok(an_int())
    );
    assert_eq!(ty(&cg, output("x", ExpressionValue::CharLiteral(1))), Ok(vec![TypePrimitive::Char]));
    assert_eq!(
        ty(
            &cg,
            ExpressionValue::Let(LetExpression {
                var_name: name("v"),
                expression: Box::new(ExpressionValue::IntLiteral(1)),
            })
        ),
        Ok(an_int())
    );
    let call = |f: &str| ExpressionValue::FunctionCall(name(f), Box::new(ExpressionValue::Empty));
    assert_eq!(ty(&cg, call("new")), Ok(vec![TypePrimitive::MemRegion]));
    assert_eq!(ty(&cg, call("size")), Ok(an_int()));
    assert_eq!(ty(&cg, call("other")), Err(CodegenError::UnknownFunctionCall(name("other"))));
    assert_eq!(ty(&cg, state("nope")), Err(CodegenError::BadReadFieldName(name("nope"))));
    assert_eq!(
        ty(
            &cg,
            ExpressionValue::ArrayLookup(
                Box::new(ExpressionValue::StringLiteral(name("s"))),
                Box::new(state("nope")),
            )
        ),
        Ok(vec![TypePrimitive::Char])
    );
    let mismatch = |r| assert!(matches!(r, Err(CodegenError::TypeMismatch(_))), "{:?}", r);
    mismatch(ty(
        &cg,
        ExpressionValue::ArrayLookup(
            Box::new(ExpressionValue::IntLiteral(1)),
            Box::new(ExpressionValue::IntLiteral(1)),
        ),
    ));
    mismatch(ty(&cg, ExpressionValue::TupleLookup(Box::new(state("i_tuple")), 2)));
    mismatch(ty(&cg, ExpressionValue::TupleLookup(Box::new(state("offset")), 0)));
    mismatch(ty(&cg, ExpressionValue::TupleLookup(Box::new(ExpressionValue::Empty), 0)));
    mismatch(ty(
        &cg,
        ExpressionValue::BinaryOperator(
            Box::new(ExpressionValue::IntLiteral(1)),
            Operator::Equality,
            Box::new(ExpressionValue::IntLiteral(1)),
        ),
    ));
    mismatch(ty(
        &cg,
        ExpressionValue::If(IfExpression {
            test: Box::new(ExpressionValue::IntLiteral(1)),
            if_true: Box::new(ExpressionValue::Empty),
            if_false: Box::new(ExpressionValue::Empty),
        }),
    ));
    mismatch(ty(
        &cg,
        ExpressionValue::While(WhileExpression {
            test: Box::new(ExpressionValue::IntLiteral(1)),
            body: Box::new(ExpressionValue::Empty),
        }),
    ));
    assert_eq!(
        ty(
            &cg,
            ExpressionValue::CopyToSubModule(CopyToSubModuleInfo {
                state: name("a"),
                submodule_index: 0,
                submodule_state: name("b"),
            })
        ),
        Ok(Vec::new())
    );
    // A tuple entry without a type makes the tuple have none.
    assert_eq!(
        ty(&cg, ExpressionValue::Tuple(vec![ExpressionValue::IntLiteral(1), state("nope")])),
        Err(CodegenError::BadReadFieldName(name("nope")))
    );
    assert_eq!(
        ty(&cg, ExpressionValue::Tuple(vec![ExpressionValue::Empty])),
        Ok(vec![TypePrimitive::PointerTo(Vec::new())])
    );
    // A local hides a handle of its name; the latest binding counts.
    cg.add_local(&name("offset"), StateValue::Char(1));
    cg.add_local(&name("offset"), StateValue::Bool(2));
    assert_eq!(ty(&cg, state("offset")), Ok(vec![TypePrimitive::Bool]));
    assert_eq!(cg.get_local(&name("offset")), Some(&StateValue::Bool(2)));
    assert_eq!(cg.get_local(&name("other")), None);
    cg.clear_locals();
    assert_eq!(ty(&cg, state("offset")), Ok(an_int()));
}

fn compile(
    module: &ModuleDecl,
    expression: ExpressionValue,
) -> (CodegenState, usize, Result<StateValue, CodegenError>) {
    let (mut cg, alloca, _) = in_function(module);
    let before = code(&cg).len();
    let result = expression_codegen(&mut cg, module, alloca, &expression);
    (cg, before, result)
}

#[test]
fn literals_become_constants() {
    let module = test_module();
    let (cg, before, result) = compile(&module, ExpressionValue::IntLiteral(-2));
    assert_eq!(result, Ok(StateValue::Int(before)));
    assert_eq!(
        added(&cg, before),
        vec![&Instr::ConstInt { bits: 64, constant: 0xffff_ffff_ffff_fffe }]
    );
    let (cg, before, result) = compile(&module, ExpressionValue::IntLiteral(i64::MIN));
    assert_eq!(result, Ok(StateValue::Int(before)));
    assert_eq!(added(&cg, before), vec![&Instr::ConstInt { bits: 64, constant: 1 << 63 }]);
    let (cg, before, result) = compile(&module, ExpressionValue::CharLiteral(b'x'));
    assert_eq!(result, Ok(StateValue::Char(before)));
    assert_eq!(added(&cg, before), vec![&Instr::ConstInt { bits: 8, constant: 120 }]);
    // The size of a string is its length in bytes.
    let (cg, before, result) = compile(&module, ExpressionValue::StringLiteral(name("h\u{e9}")));
    assert_eq!(
        result,
        Ok(StateValue::DynamicArray {
            data: before + 1,
            size: before,
            elem_type: vec![TypePrimitive::Char],
        })
    );
    assert_eq!(
        added(&cg, before),
        vec![
            &Instr::ConstInt { bits: 64, constant: 3 },
            &Instr::GlobalString { text: name("h\u{e9}"), name: name("literal") },
        ]
    );
    for nothing in [ExpressionValue::Empty, ExpressionValue::Block(vec![])] {
        let (cg, before, result) = compile(&module, nothing);
        assert_eq!(result, Ok(StateValue::Nothing));
        assert_eq!(code(&cg).len(), before);
    }
}

#[test]
fn references_read_locals_first_and_current_slots_else() {
    let module = test_module();
    let (cg, before, result) = compile(&module, state("far"));
    assert_eq!(result, Ok(StateValue::Int(before + 2)));
    assert_eq!(
        added(&cg, before),
        vec![
            &Instr::Load { ptr: 1, name: name("state_ptr") },
            &Instr::StructGep { ptr: before, index: 2, name: name("read_ptr") },
            &Instr::Load { ptr: before + 1, name: name("ref_to_state_far") },
        ]
    );
    let (_, _, result) = compile(&module, state("nope"));
    assert_eq!(result, Err(CodegenError::BadReadFieldName(name("nope"))));
    let bound = ExpressionValue::Block(vec![
        ExpressionValue::Let(LetExpression {
            var_name: name("far"),
            expression: Box::new(ExpressionValue::CharLiteral(b'a')),
        }),
        state("far"),
    ]);
    let (cg, before, result) = compile(&module, bound);
    assert_eq!(result, Ok(StateValue::Char(before)));
    assert_eq!(code(&cg).len(), before + 1);
    assert_eq!(cg.locals, vec![(name("far"), StateValue::Char(before))]);
}

#[test]
fn outputs_store_to_the_update_slot_and_set_the_bit() {
    let module = test_module();
    let (cg, before, result) = compile(&module, output("bar", ExpressionValue::IntLiteral(7)));
    assert_eq!(result, Ok(StateValue::Int(before)));
    assert_eq!(
        added(&cg, before),
        vec![
            &Instr::ConstInt { bits: 64, constant: 7 },
            &Instr::Load { ptr: 1, name: name("state_ptr") },
            &Instr::StructGep { ptr: before + 1, index: 5, name: name("update_ptr") },
            &Instr::StructGep { ptr: before + 1, index: 6, name: name("bitfield_ptr") },
            &Instr::Store { ptr: before + 2, value: before },
            &Instr::Load { ptr: before + 3, name: name("bitfield") },
            &Instr::ConstInt { bits: 64, constant: 4 },
            &Instr::Binary {
                op: BinaryOp::Or,
                lhs: before + 5,
                rhs: before + 6,
                name: name("new_bitfield"),
            },
            &Instr::Store { ptr: before + 3, value: before + 7 },
        ]
    );
    // No name: the value is computed and nothing is stored.
    let (cg, before, result) = compile(&module, output("", ExpressionValue::IntLiteral(7)));
    assert_eq!(result, Ok(StateValue::Int(before)));
    assert_eq!(code(&cg).len(), before + 1);
    // A return is followed by a block for what comes after it.
    let returning = ExpressionValue::Output(OutputExpression {
        output: String::new(),
        expression: Box::new(ExpressionValue::Empty),
        and_return: true,
    });
    let (cg, before, result) = compile(&module, returning);
    assert_eq!(result, Ok(StateValue::Nothing));
    assert_eq!(
        added(&cg, before),
        vec![&Instr::Ret, &Instr::Block { name: name("after_return") }]
    );
    assert_eq!(cg.position, Some(before + 1));
    let (_, _, result) = compile(&module, output("nope", ExpressionValue::IntLiteral(7)));
    assert_eq!(result, Err(CodegenError::BadReadFieldName(name("nope"))));
    let (_, _, result) = compile(&module, output("bar", ExpressionValue::CharLiteral(7)));
    assert!(matches!(result, Err(CodegenError::TypeMismatch(_))));
}

#[test]
fn built_in_functions() {
    let module = test_module();
    let call = |f: &str, argument| ExpressionValue::FunctionCall(name(f), Box::new(argument));
    let (cg, before, result) = compile(&module, call("new", ExpressionValue::IntLiteral(5)));
    assert_eq!(result, Ok(StateValue::MemRegion { data: before + 1, size: before }));
    assert_eq!(
        added(&cg, before),
        vec![
            &Instr::ConstInt { bits: 64, constant: 5 },
            &Instr::Call { callee: 1, args: vec![before], name: name("mem_region_location") },
        ]
    );
    let (_, _, result) = compile(&module, call("new", ExpressionValue::CharLiteral(5)));
    assert!(matches!(result, Err(CodegenError::TypeMismatch(_))));
    let (cg, before, result) =
        compile(&module, call("size", ExpressionValue::StringLiteral(name("abc"))));
    assert_eq!(result, Ok(StateValue::Int(before)));
    assert_eq!(code(&cg).len(), before + 2);
    let (_, _, result) = compile(&module, call("other", ExpressionValue::IntLiteral(5)));
    assert_eq!(result, Err(CodegenError::UnknownFunctionCall(name("other"))));
    // The argument is computed first, so its error comes first.
    let (_, _, result) = compile(&module, call("other", state("nope")));
    assert_eq!(result, Err(CodegenError::BadReadFieldName(name("nope"))));
}

#[test]
fn conditionals_merge_their_arms() {
    let module = test_module();
    let conditional = |if_true, if_false| {
        ExpressionValue::If(IfExpression {
            test: Box::new(ExpressionValue::CharLiteral(1)),
            if_true: Box::new(if_true),
            if_false: Box::new(if_false),
        })
    };
    let (cg, before, result) = compile(
        &module,
        conditional(ExpressionValue::IntLiteral(10), ExpressionValue::IntLiteral(20)),
    );
    assert_eq!(result, Ok(StateValue::Int(before + 11)));
    assert_eq!(
        code(&cg)[before..],
        [
            Emitted { at: Some(0), instr: Instr::ConstInt { bits: 8, constant: 1 } },
            Emitted { at: Some(0), instr: Instr::ConstInt { bits: 8, constant: 0 } },
            Emitted {
                at: Some(0),
                instr: Instr::Compare {
                    predicate: Predicate::NotEqual,
                    lhs: before,
                    rhs: before + 1,
                    name: name("if_true"),
                },
            },
            Emitted { at: Some(0), instr: Instr::Block { name: name("if_true_block") } },
            Emitted { at: Some(0), instr: Instr::Block { name: name("if_false_block") } },
            Emitted { at: Some(0), instr: Instr::Block { name: name("after_if") } },
            Emitted {
                at: Some(0),
                instr: Instr::CondBr {
                    condition: before + 2,
                    if_true: before + 3,
                    if_false: before + 4,
                },
            },
            Emitted { at: Some(before + 3), instr: Instr::ConstInt { bits: 64, constant: 10 } },
            Emitted { at: Some(before + 3), instr: Instr::Br { target: before + 5 } },
            Emitted { at: Some(before + 4), instr: Instr::ConstInt { bits: 64, constant: 20 } },
            Emitted { at: Some(before + 4), instr: Instr::Br { target: before + 5 } },
            Emitted {
                at: Some(before + 5),
                instr: Instr::Phi {
                    ty: IrType::Int(64),
                    incoming: vec![(before + 7, before + 3), (before + 9, before + 4)],
                    name: name("merged"),
                },
            },
        ]
    );
    // Without a value in the first arm there is no value and no phi.
    let (cg, before, result) =
        compile(&module, conditional(ExpressionValue::Empty, ExpressionValue::IntLiteral(20)));
    assert_eq!(result, Ok(StateValue::Nothing));
    assert_eq!(code(&cg).len(), before + 10);
    let (_, _, result) = compile(
        &module,
        conditional(ExpressionValue::IntLiteral(10), ExpressionValue::CharLiteral(20)),
    );
    assert!(matches!(result, Err(CodegenError::TypeMismatch(_))));
    let (_, _, result) = compile(
        &module,
        ExpressionValue::If(IfExpression {
            test: Box::new(ExpressionValue::StringLiteral(name("s"))),
            if_true: Box::new(ExpressionValue::Empty),
            if_false: Box::new(ExpressionValue::Empty),
        }),
    );
    assert!(matches!(result, Err(CodegenError::TypeMismatch(_))));
    // The phi of a nested conditional takes its values from where the arms end.
    let nested = conditional(
        conditional(ExpressionValue::IntLiteral(1), ExpressionValue::IntLiteral(2)),
        ExpressionValue::IntLiteral(3),
    );
    let (cg, _, result) = compile(&module, nested);
    let outer = match result {
        Ok(StateValue::Int(id)) => id,
        other => panic!("{:?}", other),
    };
    match &code(&cg)[outer].instr {
        Instr::Phi { incoming, .. } => {
            let (inner, inner_end) = incoming[0];
            assert!(matches!(code(&cg)[inner].instr, Instr::Phi { .. }));
            assert_eq!(code(&cg)[inner].at, Some(inner_end));
        }
        other => panic!("{:?}", other),
    }
}

#[test]
fn logical_operators_short_circuit() {
    let module = test_module();
    let truth = |lhs: u8, rhs: u8| {
        ExpressionValue::BinaryOperator(
            Box::new(ExpressionValue::CharLiteral(lhs)),
            Operator::Equality,
            Box::new(ExpressionValue::CharLiteral(rhs)),
        )
    };
    let either = ExpressionValue::BinaryOperator(
        Box::new(truth(1, 2)),
        Operator::LogicalOr,
        Box::new(truth(3, 4)),
    );
    let (cg, before, result) = compile(&module, either);
    assert_eq!(result, Ok(StateValue::Bool(before + 10)));
    assert_eq!(
        code(&cg)[before + 3..],
        [
            Emitted { at: Some(0), instr: Instr::Block { name: name("lhs_false") } },
            Emitted { at: Some(0), instr: Instr::Block { name: name("end_of_test") } },
            Emitted {
                at: Some(0),
                instr: Instr::CondBr {
                    condition: before + 2,
                    if_true: before + 4,
                    if_false: before + 3,
                },
            },
            Emitted { at: Some(before + 3), instr: Instr::ConstInt { bits: 8, constant: 3 } },
            Emitted { at: Some(before + 3), instr: Instr::ConstInt { bits: 8, constant: 4 } },
            Emitted {
                at: Some(before + 3),
                instr: Instr::Compare {
                    predicate: Predicate::Equal,
                    lhs: before + 6,
                    rhs: before + 7,
                    name: name("equal"),
                },
            },
            Emitted { at: Some(before + 3), instr: Instr::Br { target: before + 4 } },
            Emitted {
                at: Some(before + 4),
                instr: Instr::Phi {
                    ty: IrType::Int(1),
                    incoming: vec![(before + 2, 0), (before + 8, before + 3)],
                    name: name("logical-or-result"),
                },
            },
        ]
    );
    // The dual: the right side runs where the left side holds.
    let (mut cg, alloca, _) = in_function(&module);
    let before = code(&cg).len();
    let result = expression_logical_and(&mut cg, &module, alloca, &truth(1, 2), &truth(3, 4));
    assert_eq!(result, Ok(StateValue::Bool(before + 10)));
    assert_eq!(
        code(&cg)[before + 3..before + 6],
        [
            Emitted { at: Some(0), instr: Instr::Block { name: name("lhs_true") } },
            Emitted { at: Some(0), instr: Instr::Block { name: name("end_of_test") } },
            Emitted {
                at: Some(0),
                instr: Instr::CondBr {
                    condition: before + 2,
                    if_true: before + 3,
                    if_false: before + 4,
                },
            },
        ]
    );
    let both = ExpressionValue::BinaryOperator(
        Box::new(truth(1, 2)),
        Operator::LogicalAnd,
        Box::new(truth(3, 4)),
    );
    let (same, _, result) = compile(&module, both);
    assert_eq!(result, Ok(StateValue::Bool(before + 10)));
    assert_eq!(code(&same), code(&cg));
    for (lhs, rhs) in [
        (ExpressionValue::IntLiteral(1), truth(1, 2)),
        (truth(1, 2), ExpressionValue::IntLiteral(1)),
    ] {
        let (_, _, result) = compile(
            &module,
            ExpressionValue::BinaryOperator(Box::new(lhs), Operator::LogicalOr, Box::new(rhs)),
        );
        assert!(matches!(result, Err(CodegenError::TypeMismatch(_))));
    }
}

#[test]
fn operators_without_code_and_loops_are_refused() {
    let module = test_module();
    for op in [
        Operator::Inequality,
        Operator::LessThanOrEqual,
        Operator::GreaterThanOrEqual,
        Operator::Add,
        Operator::Subtract,
        Operator::Multiply,
        Operator::Divide,
    ] {
        let (_, _, result) = compile(
            &module,
            ExpressionValue::BinaryOperator(
                Box::new(ExpressionValue::IntLiteral(1)),
                op,
                Box::new(ExpressionValue::IntLiteral(2)),
            ),
        );
        assert!(matches!(result, Err(CodegenError::TypeMismatch(_))), "{:?}", op);
    }
    let (_, _, result) = compile(
        &module,
        ExpressionValue::While(WhileExpression {
            test: Box::new(ExpressionValue::IntLiteral(1)),
            body: Box::new(ExpressionValue::Empty),
        }),
    );
    assert!(matches!(result, Err(CodegenError::TypeMismatch(_))));
}

#[test]
fn copies_into_submodules_need_wiring() {
    let child = || ModuleDecl {
        name: name("Child"),
        handles: vec![
            handle("in", vec![Usage::Read], Type::Int),
            handle("out", vec![Usage::Write], Type::Int),
        ],
        listeners: Vec::new(),
        submodules: Vec::new(),
    };
    let parent = |handle_map: Vec<(String, String)>| ModuleDecl {
        name: name("Parent"),
        handles: vec![
            handle("a", vec![Usage::Read], Type::Int),
            handle("b", vec![Usage::Write], Type::Int),
            handle("c", vec![Usage::Write], Type::Char),
        ],
        listeners: Vec::new(),
        submodules: vec![ModuleInfo { module: child(), handle_map }],
    };
    let copy = |state: &str, submodule_index: usize, submodule_state: &str| {
        ExpressionValue::CopyToSubModule(CopyToSubModuleInfo {
            state: name(state),
            submodule_index,
            submodule_state: name(submodule_state),
        })
    };
    let wired = parent(vec![(name("out"), name("b"))]);
    let (cg, _, result) = compile(&wired, copy("a", 0, "in"));
    assert_eq!(result, Ok(StateValue::Nothing));
    let blocks: Vec<&str> = code(&cg)
        .iter()
        .filter_map(|entry| match &entry.instr {
            Instr::Block { name } => Some(name.as_str()),
            _ => None,
        })
        .collect();
    assert_eq!(
        blocks,
        ["entry", "invoke_loop_start", "copy_back", "updates_complete", "do_copy", "after_copy"]
    );
    assert_eq!(cg.functions[1].name, "Child_update");
    let (_, _, result) = compile(&wired, copy("nope", 0, "in"));
    assert_eq!(result, Err(CodegenError::BadReadFieldName(name("nope"))));
    let (_, _, result) = compile(&wired, copy("a", 0, "nope"));
    assert_eq!(result, Err(CodegenError::BadReadFieldName(name("nope"))));
    let (_, _, result) = compile(&wired, copy("a", 1, "in"));
    assert!(matches!(result, Err(CodegenError::TypeMismatch(_))));
    let (_, _, result) = compile(&wired, copy("c", 0, "in"));
    assert!(matches!(result, Err(CodegenError::TypeMismatch(_))));
    // An output of the child that is wired to nothing, or to no handle.
    let (_, _, result) = compile(&parent(Vec::new()), copy("a", 0, "in"));
    assert_eq!(result, Err(CodegenError::BadReadFieldName(name("out"))));
    let (_, _, result) = compile(&parent(vec![(name("out"), name("z"))]), copy("a", 0, "in"));
    assert_eq!(result, Err(CodegenError::BadReadFieldName(name("z"))));
    let (_, _, result) = compile(&parent(vec![(name("out"), name("c"))]), copy("a", 0, "in"));
    assert!(matches!(result, Err(CodegenError::TypeMismatch(_))));
}

#[test]
fn listeners_start_without_locals() {
    let mut module = test_module();
    module.listeners = vec![
        on_change(
            "foo",
            ExpressionValue::Let(LetExpression {
                var_name: name("kept"),
                expression: Box::new(ExpressionValue::IntLiteral(1)),
            }),
        ),
        on_change("far", output("bar", state("kept"))),
    ];
    let mut cg = CodegenState::new("TestModule");
    assert_eq!(listener_codegen(&mut cg, &module, &module.listeners[0]), Ok(()));
    assert_eq!(cg.locals.len(), 1);
    assert_eq!(
        listener_codegen(&mut cg, &module, &module.listeners[1]),
        Err(CodegenError::BadReadFieldName(name("kept")))
    );
    assert_eq!(
        plan_module(&module).map(|_| ()),
        Err(CodegenError::BadReadFieldName(name("kept")))
    );
}

#[test]
fn a_mismatch_says_what_was_asked_of_the_value() {
    let module = expression_types_module();
    let cg = CodegenState::new("T");
    let told = |e: ExpressionValue| match expression_type(&cg, &module, &e) {
        Err(CodegenError::TypeMismatch(text)) => text,
        other => panic!("no mismatch: {:?}", other),
    };
    let lookup = |array: ExpressionValue| {
        ExpressionValue::ArrayLookup(Box::new(array), Box::new(ExpressionValue::IntLiteral(0)))
    };
    // An element: a single value that is no array, and no single value.
    assert_eq!(told(lookup(ExpressionValue::IntLiteral(1))), "array lookup on non-array");
    assert_eq!(told(lookup(state("offset"))), "array lookup on non-array");
    assert_eq!(told(lookup(ExpressionValue::Empty)), "array lookup on non-array");
    // The text of an inner mismatch is handed on as it is.
    let field = |tuple: ExpressionValue, pos: usize| {
        ExpressionValue::TupleLookup(Box::new(tuple), pos)
    };
    assert_eq!(told(lookup(field(state("i_tuple"), 2))), "no such tuple field");
    assert_eq!(told(field(state("offset"), 0)), "non-pointer tuple field of size 1");
    assert_eq!(told(field(ExpressionValue::Empty, 0)), "lookup in an inline tuple");
    assert_eq!(
        told(ExpressionValue::Tuple(vec![
            ExpressionValue::IntLiteral(1),
            lookup(ExpressionValue::CharLiteral(b'a')),
            field(state("offset"), 0),
        ])),
        "array lookup on non-array"
    );
    // An error that is no mismatch comes out unchanged.
    assert_eq!(
        expression_type(&cg, &module, &lookup(state("nope"))),
        Err(CodegenError::BadReadFieldName(name("nope")))
    );
}

#[test]
fn the_main_module_is_the_only_one_or_the_one_named_as_the_file() {
    let named = |n: &str| ModuleDecl {
        name: name(n),
        handles: Vec::new(),
        listeners: Vec::new(),
        submodules: Vec::new(),
    };
    assert_eq!(main_module_index(&Vec::new(), &name("a")), None);
    assert_eq!(main_module_index(&vec![named("other")], &name("a")), Some(0));
    assert_eq!(main_module_index(&vec![named("b"), named("a"), named("a")], &name("a")), Some(1));
    assert_eq!(main_module_index(&vec![named("b"), named("c")], &name("a")), None);
}

#[test]
fn debugging_no_value_still_declares_printf() {
    let mut cg = CodegenState::new("T");
    begin_function(&mut cg, &test_module(), name("f"));
    let functions = cg.functions.len();
    let before = code(&cg).len();
    assert_eq!(debug(&mut cg, StateValue::Nothing), Ok(()));
    assert_eq!(code(&cg).len(), before);
    assert_eq!(cg.functions.len(), functions + 1);
    assert_eq!(cg.functions[functions].name, "printf");
    assert!(cg.functions[functions].var_args);
    assert_eq!(debug(&mut cg, StateValue::Nothing), Ok(()));
    assert_eq!(cg.functions.len(), functions + 1);
}

#[test]
fn breaks_and_loops_are_refused() {
    let module = expression_types_module();
    let cg = CodegenState::new("T");
    let a_loop = || {
        ExpressionValue::While(WhileExpression {
            test: Box::new(ExpressionValue::IntLiteral(1)),
            body: Box::new(ExpressionValue::Break),
        })
    };
    for (unimplemented, text) in [
        (ExpressionValue::Break, "a break has no derived type"),
        (a_loop(), "a loop has no derived type"),
    ] {
        assert_eq!(
            expression_type(&cg, &module, &unimplemented),
            Err(CodegenError::TypeMismatch(name(text)))
        );
    }
    for unimplemented in [ExpressionValue::Break, a_loop()] {
        let (cg, before, result) = compile(&test_module(), unimplemented);
        assert!(matches!(result, Err(CodegenError::TypeMismatch(_))), "{:?}", result);
        assert_eq!(code(&cg).len(), before);
    }
    // A break inside a block stops the block.
    let (_, _, result) = compile(
        &test_module(),
        ExpressionValue::Block(vec![ExpressionValue::IntLiteral(1), ExpressionValue::Break]),
    );
    assert!(matches!(result, Err(CodegenError::TypeMismatch(_))));
}

#[test]
fn a_text_with_a_zero_character_is_no_literal() {
    let (cg, before, result) = compile(&test_module(), ExpressionValue::StringLiteral(name("a\0b")));
    assert!(matches!(result, Err(CodegenError::TypeMismatch(_))), "{:?}", result);
    assert_eq!(code(&cg).len(), before);
    let (_, _, sound) = compile(&test_module(), ExpressionValue::StringLiteral(name("ab")));
    assert!(sound.is_ok());
    let (_, _, empty) = compile(&test_module(), ExpressionValue::StringLiteral(name("")));
    assert!(empty.is_ok());
}

#[test]
fn a_file_names_its_module_and_the_files_beside_it() {
    for (path, module) in [
        ("test.skunk", "test"),
        ("examples/deep/Adder.skunk", "Adder"),
        ("/Adder.skunk", "Adder"),
        ("dir.skunk/plain", "plain"),
        ("a/.skunk", ""),
        ("a/b.skunk.txt", "b.skunk.txt"),
        ("skunk", "skunk"),
        ("", ""),
        ("d\u{e9}j\u{e0}/vu\u{e9}.skunk", "vu\u{e9}"),
    ] {
        assert_eq!(module_name_of(path), module, "{}", path);
    }
    for (path, used, file) in [
        ("test.skunk", "Adder", "./Adder.skunk"),
        ("examples/deep/Main.skunk", "Adder", "examples/deep/Adder.skunk"),
        ("/Main.skunk", "Adder", "/Adder.skunk"),
        ("", "", "./.skunk"),
    ] {
        assert_eq!(dependency_path(path, used), file, "{}", path);
    }
}
