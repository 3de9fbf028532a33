use skunk::ast::{
    CopyToSubModuleInfo, ExpressionValue, Handle, IfExpression, LetExpression, Listener,
    ListenerKind, ModuleDecl, ModuleInfo, Operator, OutputExpression, Type, Usage,
};
use skunk::ir_gen::codegen::plan_module;
use skunk::ir_gen::codegen_state::CodegenState;
use skunk::ir_gen::ir::{BinaryOp, Instr, IrType, Predicate};

// A small machine that runs generated code, so that the scenarios can check
// what the code does to a module's state. Memory is a flat array of bytes;
// integers and addresses are both 64-bit words.

struct Machine<'a> {
    plans: &'a [CodegenState],
    memory: Vec<u8>,
    calls: Vec<String>,
    stores: usize,
    steps: usize,
}

fn align_of(ty: &IrType) -> u64 {
    match ty {
        IrType::Int(bits) => {
            if *bits <= 8 {
                1
            } else if *bits <= 16 {
                2
            } else if *bits <= 32 {
                4
            } else {
                8
            }
        }
        IrType::Pointer(_) => 8,
        IrType::Struct(fields, packed) => {
            if *packed {
                1
            } else {
                fields.iter().map(align_of).max().unwrap_or(1)
            }
        }
    }
}

fn size_of(ty: &IrType) -> u64 {
    match ty {
        IrType::Int(bits) => ((*bits as u64) + 7) / 8,
        IrType::Pointer(_) => 8,
        IrType::Struct(fields, packed) => {
            let end = field_offset(fields, *packed, fields.len());
            let align = align_of(ty);
            (end + align - 1) / align * align
        }
    }
}

fn field_offset(fields: &[IrType], packed: bool, index: usize) -> u64 {
    let mut offset = 0;
    for (i, field) in fields.iter().enumerate() {
        if !packed {
            let align = align_of(field);
            offset = (offset + align - 1) / align * align;
        }
        if i == index {
            return offset;
        }
        offset += size_of(field);
    }
    offset
}

fn offset_of(ty: &IrType, path: &[usize]) -> (u64, IrType) {
    let mut offset = 0;
    let mut current = ty.duplicate();
    for index in path {
        let next = match &current {
            IrType::Struct(fields, packed) => {
                offset += field_offset(fields, *packed, *index);
                fields[*index].duplicate()
            }
            other => panic!("no field {} in {:?}", index, other),
        };
        current = next;
    }
    (offset, current)
}

fn mask(bits: u32, value: u64) -> u64 {
    if bits >= 64 {
        value
    } else {
        value & ((1u64 << bits) - 1)
    }
}

fn signed(bits: u32, value: u64) -> i64 {
    if bits >= 64 {
        value as i64
    } else if value & (1u64 << (bits - 1)) != 0 {
        (value | !((1u64 << bits) - 1)) as i64
    } else {
        value as i64
    }
}

fn bits_of(ty: &IrType) -> u32 {
    match ty {
        IrType::Int(bits) => *bits,
        _ => 64,
    }
}

impl<'a> Machine<'a> {
    fn new(plans: &'a [CodegenState]) -> Machine<'a> {
        Machine { plans, memory: vec![0; 64], calls: Vec::new(), stores: 0, steps: 0 }
    }

    fn reserve(&mut self, size: u64, align: u64) -> u64 {
        let align = align.max(1) as usize;
        let start = (self.memory.len() + align - 1) / align * align;
        self.memory.resize(start + size as usize, 0);
        start as u64
    }

    fn reserve_bytes(&mut self, bytes: &[u8]) -> u64 {
        let start = self.reserve(bytes.len() as u64 + 1, 1);
        self.memory[start as usize..start as usize + bytes.len()].copy_from_slice(bytes);
        start
    }

    fn read(&self, address: u64, size: u64) -> u64 {
        let mut value = 0u64;
        for i in 0..size {
            value |= (self.memory[(address + i) as usize] as u64) << (8 * i);
        }
        value
    }

    fn write(&mut self, address: u64, size: u64, value: u64) {
        for i in 0..size {
            self.memory[(address + i) as usize] = (value >> (8 * i)) as u8;
        }
    }

    fn read_field(&self, base: u64, ty: &IrType, path: &[usize]) -> u64 {
        let (offset, field) = offset_of(ty, path);
        mask(bits_of(&field), self.read(base + offset, size_of(&field)))
    }

    fn write_field(&mut self, base: u64, ty: &IrType, path: &[usize], value: u64) {
        let (offset, field) = offset_of(ty, path);
        self.write(base + offset, size_of(&field), value);
    }

    fn find(&self, name: &str) -> Option<(usize, usize)> {
        let mut declared = None;
        for (p, plan) in self.plans.iter().enumerate() {
            for (f, function) in plan.functions.iter().enumerate() {
                if function.name == name {
                    if !function.code.is_empty() {
                        return Some((p, f));
                    }
                    declared = Some((p, f));
                }
            }
        }
        declared
    }

    fn call(&mut self, name: &str, args: &[u64]) -> u64 {
        self.calls.push(name.to_string());
        let (p, f) = self.find(name).expect("call of an unknown function");
        if !self.plans[p].functions[f].code.is_empty() {
            return self.run(p, f, args);
        }
        match name {
            "malloc" => self.reserve(args[0].max(1), 16),
            "free" => 0,
            "printf" => 0,
            "memcmp" => {
                for i in 0..args[2] {
                    let l = self.memory[(args[0] + i) as usize];
                    let r = self.memory[(args[1] + i) as usize];
                    if l != r {
                        return if l < r { u64::MAX } else { 1 };
                    }
                }
                0
            }
            other => panic!("call of the undefined function {}", other),
        }
    }

    fn run(&mut self, p: usize, f: usize, args: &[u64]) -> u64 {
        let plans = self.plans;
        let function = &plans[p].functions[f];
        let code = &function.code;
        let mut values: Vec<Option<u64>> = vec![None; code.len()];
        let mut types: Vec<Option<IrType>> = Vec::new();
        for entry in code.iter() {
            let known = |id: &usize| -> IrType {
                types[*id].as_ref().expect("use of a value without a type").duplicate()
            };
            let pointee = |ty: IrType| -> IrType {
                match ty {
                    IrType::Pointer(inner) => *inner,
                    other => panic!("{:?} is no pointer", other),
                }
            };
            let ty = match &entry.instr {
                Instr::Param { index } => Some(function.params[*index as usize].duplicate()),
                Instr::ConstInt { bits, .. } => Some(IrType::Int(*bits)),
                Instr::GlobalString { .. } => Some(IrType::Int(8).pointer_to()),
                Instr::Alloca { ty, .. } => Some(ty.duplicate().pointer_to()),
                Instr::Load { ptr, .. } => Some(pointee(known(ptr))),
                Instr::StructGep { ptr, index, .. } => match pointee(known(ptr)) {
                    IrType::Struct(fields, _) => {
                        Some(fields[*index as usize].duplicate().pointer_to())
                    }
                    other => panic!("{:?} has no fields", other),
                },
                Instr::Binary { lhs, .. } => Some(known(lhs)),
                Instr::Compare { .. } => Some(IrType::Int(1)),
                Instr::PtrToInt { .. } => Some(IrType::Int(64)),
                Instr::IntToPtr { pointee, .. } => Some(pointee.duplicate().pointer_to()),
                Instr::PointerCast { pointee, .. } => Some(pointee.duplicate().pointer_to()),
                Instr::Call { callee, .. } => {
                    plans[p].functions[*callee].result.as_ref().map(|t| t.duplicate())
                }
                Instr::Phi { ty, .. } => Some(ty.duplicate()),
                _ => None,
            };
            types.push(ty);
        }
        for (i, entry) in code.iter().enumerate() {
            match &entry.instr {
                Instr::Param { index } => values[i] = Some(args[*index as usize]),
                Instr::ConstInt { bits, constant } => values[i] = Some(mask(*bits, *constant)),
                _ => {}
            }
        }
        let mut block = code
            .iter()
            .position(|entry| matches!(entry.instr, Instr::Block { .. }))
            .expect("the function has no block");
        let mut previous = block;
        loop {
            let mut next = None;
            for i in 0..code.len() {
                let entry = &code[i];
                if entry.at != Some(block) {
                    continue;
                }
                self.steps += 1;
                assert!(self.steps < 1_000_000, "the code does not come to an end");
                let value = |id: &usize| values[*id].expect("use of a value that was not computed");
                let type_of = |id: &usize| types[*id].as_ref().unwrap();
                match &entry.instr {
                    Instr::Block { .. } | Instr::Param { .. } | Instr::ConstInt { .. } => {}
                    Instr::GlobalString { text, .. } => {
                        values[i] = Some(self.reserve_bytes(text.as_bytes()));
                    }
                    Instr::Alloca { ty, .. } => {
                        values[i] = Some(self.reserve(size_of(ty), align_of(ty)));
                    }
                    Instr::Load { ptr, .. } => {
                        let ty = types[i].as_ref().unwrap();
                        values[i] = Some(mask(bits_of(ty), self.read(value(ptr), size_of(ty))));
                    }
                    Instr::Store { ptr, value: stored } => {
                        let size = size_of(type_of(stored));
                        let (address, word) = (value(ptr), value(stored));
                        self.stores += 1;
                        self.write(address, size, word);
                    }
                    Instr::StructGep { ptr, index, .. } => {
                        let offset = match type_of(ptr) {
                            IrType::Pointer(inner) => match &**inner {
                                IrType::Struct(fields, packed) => {
                                    field_offset(fields, *packed, *index as usize)
                                }
                                other => panic!("{:?} has no fields", other),
                            },
                            other => panic!("{:?} is no pointer", other),
                        };
                        values[i] = Some(value(ptr) + offset);
                    }
                    Instr::Binary { op, lhs, rhs, .. } => {
                        let (l, r) = (value(lhs), value(rhs));
                        let result = match op {
                            BinaryOp::And => l & r,
                            BinaryOp::Or => l | r,
                            BinaryOp::Add => l.wrapping_add(r),
                            BinaryOp::Mul => l.wrapping_mul(r),
                        };
                        values[i] = Some(mask(bits_of(type_of(lhs)), result));
                    }
                    Instr::Compare { predicate, lhs, rhs, .. } => {
                        let bits = bits_of(type_of(lhs));
                        let (l, r) = (value(lhs), value(rhs));
                        let holds = match predicate {
                            Predicate::Equal => l == r,
                            Predicate::NotEqual => l != r,
                            Predicate::SignedLess => signed(bits, l) < signed(bits, r),
                            Predicate::SignedGreater => signed(bits, l) > signed(bits, r),
                            Predicate::UnsignedLess => l < r,
                            Predicate::UnsignedGreater => l > r,
                        };
                        values[i] = Some(holds as u64);
                    }
                    Instr::PtrToInt { ptr, .. } => values[i] = Some(value(ptr)),
                    Instr::IntToPtr { address, .. } => values[i] = Some(value(address)),
                    Instr::PointerCast { ptr, .. } => values[i] = Some(value(ptr)),
                    Instr::Call { callee, args, .. } => {
                        let words: Vec<u64> = args.iter().map(|a| value(a)).collect();
                        let name = plans[p].functions[*callee].name.clone();
                        values[i] = Some(self.call(&name, &words));
                    }
                    Instr::Phi { incoming, .. } => {
                        let (chosen, _) = incoming
                            .iter()
                            .find(|(_, from)| *from == previous)
                            .expect("the phi has no value for the block that control came from");
                        values[i] = Some(value(chosen));
                    }
                    Instr::Br { target } => {
                        next = Some(*target);
                        break;
                    }
                    Instr::CondBr { condition, if_true, if_false } => {
                        next = Some(if value(condition) != 0 { *if_true } else { *if_false });
                        break;
                    }
                    Instr::Ret => return 0,
                }
            }
            previous = block;
            block = next.expect("the block has no terminator");
        }
    }
}

fn reads(name: &str, h_type: Type) -> Handle {
    Handle { name: name.to_string(), usages: vec![Usage::Read], h_type }
}

fn writes(name: &str, h_type: Type) -> Handle {
    Handle { name: name.to_string(), usages: vec![Usage::Write], h_type }
}

fn on_change(trigger: &str, implementation: ExpressionValue) -> Listener {
    Listener { trigger: trigger.to_string(), kind: ListenerKind::OnChange, implementation }
}

fn output(name: &str, expression: ExpressionValue) -> ExpressionValue {
    ExpressionValue::Output(OutputExpression {
        output: name.to_string(),
        expression: Box::new(expression),
        and_return: false,
    })
}

fn output_and_return(name: &str, expression: ExpressionValue) -> ExpressionValue {
    ExpressionValue::Output(OutputExpression {
        output: name.to_string(),
        expression: Box::new(expression),
        and_return: true,
    })
}

fn state(name: &str) -> ExpressionValue {
    ExpressionValue::ReferenceToState(name.to_string())
}

fn copy_to(state: &str, submodule_index: usize, submodule_state: &str) -> ExpressionValue {
    output(
        "",
        ExpressionValue::CopyToSubModule(CopyToSubModuleInfo {
            state: state.to_string(),
            submodule_index,
            submodule_state: submodule_state.to_string(),
        }),
    )
}

fn wiring(pairs: &[(&str, &str)]) -> Vec<(String, String)> {
    pairs.iter().map(|(child, parent)| (child.to_string(), parent.to_string())).collect()
}

fn binary(lhs: ExpressionValue, op: Operator, rhs: ExpressionValue) -> ExpressionValue {
    ExpressionValue::BinaryOperator(Box::new(lhs), op, Box::new(rhs))
}

fn test_module() -> ModuleDecl {
    ModuleDecl {
        name: String::from("TestModule"),
        handles: vec![
            Handle {
                name: String::from("foo"),
                usages: vec![Usage::Read, Usage::Write],
                h_type: Type::Int,
            },
            reads("far", Type::Int),
            writes("bar", Type::Int),
        ],
        listeners: vec![on_change("foo", output("bar", state("far")))],
        submodules: Vec::new(),
    }
}

fn passthrough(name: &str) -> ModuleDecl {
    ModuleDecl {
        name: name.to_string(),
        handles: vec![reads("foo", Type::Int), writes("bar", Type::Int)],
        listeners: vec![on_change("foo", output("bar", state("foo")))],
        submodules: Vec::new(),
    }
}

// What the graph resolver makes of `first -> second`: a parent whose
// handles are the first module's input, the second module's outputs and the
// wire between the two.
fn pipeline(
    handles: Vec<Handle>,
    first: ModuleDecl,
    first_map: &[(&str, &str)],
    second: ModuleDecl,
    second_map: &[(&str, &str)],
    input: (&str, &str),
    wire: (&str, &str),
) -> ModuleDecl {
    ModuleDecl {
        name: String::from("Main"),
        handles,
        listeners: vec![
            on_change(input.0, copy_to(input.0, 0, input.1)),
            on_change(wire.0, copy_to(wire.0, 1, wire.1)),
        ],
        submodules: vec![
            ModuleInfo { module: first, handle_map: wiring(first_map) },
            ModuleInfo { module: second, handle_map: wiring(second_map) },
        ],
    }
}

fn multi_module() -> ModuleDecl {
    pipeline(
        vec![
            reads("foo", Type::Int),
            writes("bar", Type::Int),
            Handle {
                name: String::from("h0"),
                usages: vec![Usage::Read, Usage::Write],
                h_type: Type::Int,
            },
        ],
        passthrough("MyModule"),
        &[("foo", "foo"), ("bar", "h0")],
        passthrough("MyModule2"),
        &[("foo", "h0"), ("bar", "bar")],
        ("foo", "foo"),
        ("h0", "foo"),
    )
}

struct Run<'a> {
    machine: Machine<'a>,
    update: String,
    ty: IrType,
    base: u64,
}

fn plans_for(module: &ModuleDecl) -> Vec<CodegenState> {
    let mut plans = vec![plan_module(module).unwrap()];
    for submodule in &module.submodules {
        plans.push(plan_module(&submodule.module).unwrap());
    }
    plans
}

impl<'a> Run<'a> {
    fn new(module: &ModuleDecl, plans: &'a [CodegenState]) -> Run<'a> {
        let ty = module.ir_type();
        let mut machine = Machine::new(plans);
        let base = machine.reserve(size_of(&ty), align_of(&ty));
        Run { machine, update: module.fn_name(), ty, base }
    }

    fn set(&mut self, path: &[usize], value: u64) {
        self.machine.write_field(self.base, &self.ty, path, value);
    }

    fn get(&self, path: &[usize]) -> u64 {
        self.machine.read_field(self.base, &self.ty, path)
    }

    fn update(&mut self) {
        self.machine.calls.clear();
        self.machine.stores = 0;
        let name = self.update.clone();
        self.machine.call(&name, &[self.base]);
    }
}

#[test]
fn jit_module_codegen_runs() {
    let module = test_module();
    let plans = plans_for(&module);
    let mut run = Run::new(&module, &plans);
    // foo, foo_upd, far, far_upd, bar, bar_upd, bitfield
    run.set(&[1], 10);
    run.set(&[2], 20);
    run.set(&[6], 0x1);
    run.update();
    assert_eq!(run.get(&[6]), 0x4);
    assert_eq!(run.get(&[5]), 20);
    assert_eq!(run.get(&[0]), 10);
}

#[test]
fn jit_multi_module_codegen_runs() {
    let module = multi_module();
    let plans = plans_for(&module);
    let mut run = Run::new(&module, &plans);
    // foo, foo_upd, bar, bar_upd, h0, h0_upd, bitfield, my_module, my_module2
    run.set(&[1], 10);
    run.set(&[6], 0x1);

    run.update();
    assert_eq!(run.get(&[6]), 0x4);
    assert_eq!(run.get(&[0]), 10);
    assert_eq!(run.get(&[1]), 0);
    assert_eq!(run.get(&[5]), 10);
    assert_eq!(run.get(&[7, 0]), 10);
    assert_eq!(run.get(&[7, 2]), 10);
    assert_eq!(run.get(&[8, 0]), 0);
    assert_eq!(run.get(&[8, 2]), 0);

    run.update();
    assert_eq!(run.get(&[6]), 0x2);
    assert_eq!(run.get(&[4]), 10);
    assert_eq!(run.get(&[5]), 0);
    assert_eq!(run.get(&[3]), 10);
    assert_eq!(run.get(&[7, 0]), 10);
    assert_eq!(run.get(&[7, 2]), 10);
    assert_eq!(run.get(&[8, 0]), 10);
    assert_eq!(run.get(&[8, 2]), 10);
}

fn module_with_new() -> ModuleDecl {
    ModuleDecl {
        name: String::from("ModuleWithNew"),
        handles: vec![writes("bar", Type::MemRegion), reads("foo", Type::Int)],
        listeners: vec![on_change(
            "foo",
            output("bar", ExpressionValue::FunctionCall(String::from("new"), Box::new(state("foo")))),
        )],
        submodules: Vec::new(),
    }
}

#[test]
fn jit_new_memregion_codegen_runs() {
    let module = module_with_new();
    let plans = plans_for(&module);
    let mut run = Run::new(&module, &plans);
    // bar, bar_upd, foo, foo_upd, bitfield
    run.set(&[3], 10);
    run.set(&[4], 0x2);
    run.update();
    assert_eq!(run.get(&[4]), 0x1);
    assert_eq!(run.get(&[2]), 10);
    assert_eq!(run.get(&[3]), 0);
    assert_eq!(run.get(&[1, 1]), 10);
    assert_ne!(run.get(&[1, 0]), 0);
}

fn copy_memregion() -> ModuleDecl {
    let writer = ModuleDecl {
        name: String::from("Writer"),
        handles: vec![reads("size_in", Type::Int), writes("region", Type::MemRegion)],
        listeners: vec![on_change(
            "size_in",
            output(
                "region",
                ExpressionValue::FunctionCall(String::from("new"), Box::new(state("size_in"))),
            ),
        )],
        submodules: Vec::new(),
    };
    let reader = ModuleDecl {
        name: String::from("Reader"),
        handles: vec![reads("region", Type::MemRegion), writes("size_out", Type::Int)],
        listeners: vec![on_change(
            "region",
            output(
                "size_out",
                ExpressionValue::FunctionCall(String::from("size"), Box::new(state("region"))),
            ),
        )],
        submodules: Vec::new(),
    };
    pipeline(
        vec![
            reads("size_in", Type::Int),
            writes("size_out", Type::Int),
            Handle {
                name: String::from("h0"),
                usages: vec![Usage::Read, Usage::Write],
                h_type: Type::MemRegion,
            },
        ],
        writer,
        &[("size_in", "size_in"), ("region", "h0")],
        reader,
        &[("region", "h0"), ("size_out", "size_out")],
        ("size_in", "size_in"),
        ("h0", "region"),
    )
}

#[test]
fn jit_copy_memregion_codegen_runs() {
    let module = copy_memregion();
    let plans = plans_for(&module);
    let mut run = Run::new(&module, &plans);
    // size_in, size_in_upd, size_out, size_out_upd, h0, h0_upd, bitfield
    run.set(&[1], 50);
    run.set(&[6], 0x1);

    run.update();
    assert_eq!(run.get(&[6]), 0x4);
    assert_eq!(run.get(&[5, 1]), 50);
    assert_ne!(run.get(&[5, 0]), 0);

    run.update();
    assert_eq!(run.get(&[6]), 0x2);
    assert_eq!(run.get(&[3]), 50);
}

fn string_pipeline() -> ModuleDecl {
    let create = ModuleDecl {
        name: String::from("CreateString"),
        handles: vec![reads("inp", Type::Int), writes("out", Type::String)],
        listeners: vec![on_change(
            "inp",
            output("out", ExpressionValue::StringLiteral(String::from("static string"))),
        )],
        submodules: Vec::new(),
    };
    let char_from = ModuleDecl {
        name: String::from("CharFromString"),
        handles: vec![reads("inp", Type::String), writes("out", Type::Char)],
        listeners: vec![on_change(
            "inp",
            output(
                "out",
                ExpressionValue::ArrayLookup(
                    Box::new(state("inp")),
                    Box::new(ExpressionValue::IntLiteral(5)),
                ),
            ),
        )],
        submodules: Vec::new(),
    };
    pipeline(
        vec![
            reads("inp", Type::Int),
            writes("out", Type::Char),
            Handle {
                name: String::from("h0"),
                usages: vec![Usage::Read, Usage::Write],
                h_type: Type::String,
            },
        ],
        create,
        &[("inp", "inp"), ("out", "h0")],
        char_from,
        &[("inp", "h0"), ("out", "out")],
        ("inp", "inp"),
        ("h0", "inp"),
    )
}

#[test]
fn jit_create_string_codegen_runs() {
    let module = string_pipeline();
    let plans = plans_for(&module);
    let mut run = Run::new(&module, &plans);
    // inp, inp_upd, out, out_upd, h0, h0_upd, bitfield
    run.set(&[1], 10);
    run.set(&[6], 0x1);
    run.update();
    run.update();
    assert_eq!(run.get(&[3]), 'c' as u64);
}

fn tuple_pipeline() -> ModuleDecl {
    let pair = || Type::Tuple(vec![Type::Int, Type::String]);
    let create = ModuleDecl {
        name: String::from("CreateTuple"),
        handles: vec![reads("inp", Type::Int), writes("out", pair())],
        listeners: vec![on_change(
            "inp",
            output(
                "out",
                ExpressionValue::Tuple(vec![
                    state("inp"),
                    ExpressionValue::StringLiteral(String::from("static string")),
                ]),
            ),
        )],
        submodules: Vec::new(),
    };
    let read = ModuleDecl {
        name: String::from("ReadTuple"),
        handles: vec![reads("inp", pair()), writes("out1", Type::Int), writes("out2", Type::String)],
        listeners: vec![on_change(
            "inp",
            ExpressionValue::Block(vec![
                output("out1", ExpressionValue::TupleLookup(Box::new(state("inp")), 0)),
                output("out2", ExpressionValue::TupleLookup(Box::new(state("inp")), 1)),
            ]),
        )],
        submodules: Vec::new(),
    };
    pipeline(
        vec![
            reads("inp", Type::Int),
            writes("out1", Type::Int),
            writes("out2", Type::String),
            Handle {
                name: String::from("h0"),
                usages: vec![Usage::Read, Usage::Write],
                h_type: pair(),
            },
        ],
        create,
        &[("inp", "inp"), ("out", "h0")],
        read,
        &[("inp", "h0"), ("out1", "out1"), ("out2", "out2")],
        ("inp", "inp"),
        ("h0", "inp"),
    )
}

#[test]
fn jit_create_tuple_codegen_runs() {
    let module = tuple_pipeline();
    let plans = plans_for(&module);
    let mut run = Run::new(&module, &plans);
    // inp, inp_upd, out1, out1_upd, out2, out2_upd, h0, h0_upd, bitfield
    run.set(&[1], 10);
    run.set(&[8], 0x1);
    run.update();
    run.update();
    assert_eq!(run.get(&[3]), 10);
    assert_eq!(run.get(&[5, 1]), 13);
}

fn syntax_test() -> ModuleDecl {
    let pair = || Type::Tuple(vec![Type::String, Type::Int]);
    let text = || ExpressionValue::TupleLookup(Box::new(state("input")), 0);
    let at_offset =
        || ExpressionValue::ArrayLookup(Box::new(text()), Box::new(state("offset")));
    let test = binary(
        binary(
            binary(
                state("offset"),
                Operator::Equality,
                ExpressionValue::FunctionCall(String::from("size"), Box::new(text())),
            ),
            Operator::LogicalOr,
            binary(at_offset(), Operator::LessThan, ExpressionValue::CharLiteral(b'0')),
        ),
        Operator::LogicalOr,
        binary(at_offset(), Operator::GreaterThan, ExpressionValue::CharLiteral(b'9')),
    );
    ModuleDecl {
        name: String::from("SyntaxTest"),
        handles: vec![
            reads("input", pair()),
            writes("output", pair()),
            writes("result", Type::Int),
            writes("error", Type::Int),
        ],
        listeners: vec![on_change(
            "input",
            ExpressionValue::Block(vec![
                ExpressionValue::Let(LetExpression {
                    var_name: String::from("offset"),
                    expression: Box::new(ExpressionValue::TupleLookup(
                        Box::new(state("input")),
                        1,
                    )),
                }),
                ExpressionValue::If(IfExpression {
                    test: Box::new(test),
                    if_true: Box::new(ExpressionValue::Block(vec![
                        output_and_return("error", ExpressionValue::IntLiteral(1)),
                        ExpressionValue::Empty,
                    ])),
                    if_false: Box::new(ExpressionValue::Empty),
                }),
                output("result", ExpressionValue::IntLiteral(3)),
            ]),
        )],
        submodules: Vec::new(),
    }
}

fn run_syntax_test(text: &str, offset: u64) -> u64 {
    let module = syntax_test();
    let plans = plans_for(&module);
    let mut run = Run::new(&module, &plans);
    let bytes = run.machine.reserve_bytes(text.as_bytes());
    let tuple = run.machine.reserve(24, 8);
    run.machine.write(tuple, 8, bytes);
    run.machine.write(tuple + 8, 8, text.len() as u64);
    run.machine.write(tuple + 16, 8, offset);
    // input, input_upd, output, output_upd, result, result_upd, error, error_upd, bitfield
    run.set(&[1], tuple);
    run.set(&[8], 0x1);
    run.update();
    run.get(&[8])
}

#[test]
fn jit_syntax_test_codegen_runs() {
    assert_eq!(run_syntax_test("Delicious boots", 15), 0x8);
    assert_eq!(run_syntax_test("15 Delicious boots", 0), 0x4);
    assert_eq!(run_syntax_test("Delicious boots", 0), 0x8);
}

#[test]
fn update_without_pending_bits_does_nothing() {
    let module = test_module();
    let plans = plans_for(&module);
    let mut run = Run::new(&module, &plans);
    run.set(&[1], 10);
    run.set(&[2], 20);
    run.update();
    assert_eq!(run.machine.calls, vec![String::from("TestModule_update")]);
    // The only store is that of the state pointer to its stack slot.
    assert_eq!(run.machine.stores, 1);
    for (path, expected) in [(0, 0), (1, 10), (2, 20), (3, 0), (4, 0), (5, 0), (6, 0)] {
        assert_eq!(run.get(&[path]), expected);
    }
    run.update();
    assert_eq!(run.get(&[1]), 10);
    assert_eq!(run.get(&[6]), 0);
}

#[test]
fn update_installs_pending_values_and_clears_their_bits() {
    let module = test_module();
    let plans = plans_for(&module);
    let mut run = Run::new(&module, &plans);
    run.set(&[3], 7);
    run.set(&[5], 9);
    run.set(&[6], 0x6);
    run.update();
    assert_eq!(run.get(&[2]), 7);
    assert_eq!(run.get(&[4]), 9);
    assert_eq!(run.get(&[6]), 0);
    // The update slots are left empty.
    assert_eq!(run.get(&[3]), 0);
    assert_eq!(run.get(&[5]), 0);
    assert_eq!(run.machine.calls, vec![String::from("TestModule_update")]);
}

#[test]
fn listeners_fire_in_declaration_order() {
    let module = ModuleDecl {
        name: String::from("Order"),
        handles: vec![
            reads("a", Type::Int),
            reads("b", Type::Int),
            writes("x", Type::Int),
            writes("y", Type::Int),
        ],
        listeners: vec![
            Listener {
                trigger: String::from("b"),
                kind: ListenerKind::OnWrite,
                implementation: output("x", state("b")),
            },
            on_change("a", output("x", state("a"))),
            on_change("b", output("y", state("b"))),
        ],
        submodules: Vec::new(),
    };
    let plans = plans_for(&module);
    let mut run = Run::new(&module, &plans);
    run.set(&[1], 1);
    run.set(&[3], 2);
    run.set(&[8], 0x3);
    run.update();
    assert_eq!(
        run.machine.calls,
        vec![
            String::from("Order_update"),
            String::from("Order__OnChange__a"),
            String::from("Order__OnWrite__b"),
            String::from("Order__OnChange__b"),
        ]
    );
    // The listener of `a` wrote 1 to `x`, then the first listener of `b`
    // wrote 2 over it; the second listener of `b` wrote 2 to `y`.
    assert_eq!(run.get(&[5]), 2);
    assert_eq!(run.get(&[7]), 2);
    assert_eq!(run.get(&[8]), 0xc);
}

#[test]
fn copy_to_submodule_leaves_the_child_stable_and_drains_its_outputs() {
    let module = multi_module();
    let plans = plans_for(&module);
    let mut run = Run::new(&module, &plans);
    run.set(&[1], 10);
    run.set(&[6], 0x1);
    run.update();
    // The child's bitfield reads zero, its output arrived at the parent's
    // wire, and the wire's bit is set.
    assert_eq!(run.get(&[7, 4]), 0);
    assert_eq!(run.get(&[7, 2]), 10);
    assert_eq!(run.get(&[5]), 10);
    assert_eq!(run.get(&[6]) & 0x4, 0x4);
    let child_updates =
        run.machine.calls.iter().filter(|name| name.as_str() == "MyModule_update").count();
    assert_eq!(child_updates, 2);
}

#[test]
fn compiling_twice_gives_the_same_code() {
    for module in [test_module(), multi_module(), syntax_test(), tuple_pipeline()] {
        let first = plan_module(&module).unwrap();
        let second = plan_module(&module).unwrap();
        assert_eq!(format!("{:?}", first), format!("{:?}", second));
    }
}

#[test]
fn copy_chain_moves_one_hop_per_update_and_then_rests() {
    let both = |name: &str| Handle {
        name: name.to_string(),
        usages: vec![Usage::Read, Usage::Write],
        h_type: Type::Int,
    };
    let module = ModuleDecl {
        name: String::from("Chain"),
        handles: vec![reads("a", Type::Int), both("b"), both("c"), writes("d", Type::Int)],
        listeners: vec![
            on_change("a", output("b", state("a"))),
            on_change("b", output("c", state("b"))),
            on_change("c", output("d", state("c"))),
        ],
        submodules: Vec::new(),
    };
    let plans = plans_for(&module);
    let mut run = Run::new(&module, &plans);
    // a, a_upd, b, b_upd, c, c_upd, d, d_upd, bitfield
    run.set(&[1], 5);
    run.set(&[8], 0x1);
    let mut seen = Vec::new();
    for _ in 0..6 {
        run.update();
        seen.push((
            run.get(&[8]),
            [run.get(&[0]), run.get(&[2]), run.get(&[4]), run.get(&[6])],
            run.machine.calls.len() - 1,
        ));
    }
    assert_eq!(
        seen,
        vec![
            (0x2, [5, 0, 0, 0], 1),
            (0x4, [5, 5, 0, 0], 1),
            (0x8, [5, 5, 5, 0], 1),
            (0x0, [5, 5, 5, 5], 0),
            (0x0, [5, 5, 5, 5], 0),
            (0x0, [5, 5, 5, 5], 0),
        ]
    );
    assert_eq!(run.get(&[7]), 0);
}
