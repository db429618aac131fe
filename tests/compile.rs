use coocoo::ast::{Expr, Opcode, Statement};
use coocoo::compiler::{CompiledModule, Compiler};
use coocoo::codegen::Codegen;
use coocoo::deps::DependencyGraph;
use coocoo::instr::{CompileError, Instr, ValType};
use coocoo::memory::Memory;
use coocoo::symbol::{Attribute, SymbolTable};
use coocoo::wasm::emit_wasm;

fn s(x: &str) -> String {
    x.to_string()
}

fn num(n: i32) -> Box<Expr> {
    Box::new(Expr::Number(n))
}

fn var(x: &str) -> Box<Expr> {
    Box::new(Expr::Variable(s(x)))
}

fn call(f: &str, args: Vec<Box<Expr>>) -> Box<Expr> {
    Box::new(Expr::Call(s(f), args))
}

fn declare(id: &str, tag: &str, init: Option<Box<Expr>>) -> Statement {
    Statement::Declare(s(id), s(tag), init)
}

fn assign(id: &str, e: Box<Expr>) -> Statement {
    Statement::Assignment(vec![s(id)], e)
}

fn assign_channel(m: &str, ch: &str, e: Box<Expr>) -> Statement {
    Statement::Assignment(vec![s(m), s(ch)], e)
}

fn show(names: &[&str]) -> Statement {
    Statement::Call(s("show"), names.iter().map(|n| var(n)).collect())
}

fn compile(stmts: Vec<Statement>, images: &[&str]) -> Result<CompiledModule, CompileError> {
    let names: Vec<String> = images.iter().map(|n| s(n)).collect();
    Compiler::new().compile(&stmts, &names)
}

fn error_of(r: Result<CompiledModule, CompileError>) -> CompileError {
    match r {
        Ok(_) => panic!("expected a compile error"),
        Err(e) => e,
    }
}

/// State of a run of a compiled entry function.
struct Run {
    locals: Vec<i32>,
    memory: Vec<u8>,
    calls: Vec<(String, Vec<i32>)>,
}

/// Runs the entry function's code. Each host call is recorded and returns
/// `host_result`.
fn run(m: &CompiledModule, host_result: i32) -> Result<Run, String> {
    let mut stack: Vec<i32> = Vec::new();
    let mut r = Run { locals: vec![0; m.locals as usize], memory: vec![0; 655360], calls: vec![] };
    for ins in &m.code {
        match *ins {
            Instr::Const(n) => stack.push(n),
            Instr::LocalGet(l) => stack.push(*r.locals.get(l as usize).ok_or("no such local")?),
            Instr::LocalSet(l) => {
                let v = stack.pop().ok_or("empty stack")?;
                *r.locals.get_mut(l as usize).ok_or("no such local")? = v;
            }
            Instr::Binary(op) => {
                let b = stack.pop().ok_or("empty stack")?;
                let a = stack.pop().ok_or("empty stack")?;
                stack.push(match op {
                    Opcode::Add => a.wrapping_add(b),
                    Opcode::Sub => a.wrapping_sub(b),
                    Opcode::Mul => a.wrapping_mul(b),
                    Opcode::Div => a.checked_div(b).ok_or("division trap")?,
                });
            }
            Instr::Call(f) => {
                let import = m.imports.get(f as usize).ok_or("no such function")?;
                let n = import.params.len();
                if stack.len() < n {
                    return Err("empty stack".to_string());
                }
                let args = stack.split_off(stack.len() - n);
                r.calls.push((import.name.clone(), args));
                if !import.results.is_empty() {
                    stack.push(host_result);
                }
            }
            Instr::Load => {
                let a = stack.pop().ok_or("empty stack")? as usize;
                let w = r.memory.get(a..a + 4).ok_or("out of bounds")?;
                stack.push(i32::from_le_bytes([w[0], w[1], w[2], w[3]]));
            }
            Instr::Store => {
                let v = stack.pop().ok_or("empty stack")?;
                let a = stack.pop().ok_or("empty stack")? as usize;
                let w = r.memory.get_mut(a..a + 4).ok_or("out of bounds")?;
                w.copy_from_slice(&v.to_le_bytes());
            }
        }
    }
    if !stack.is_empty() {
        return Err("values left on the stack".to_string());
    }
    Ok(r)
}

fn word(r: &Run, byte: usize) -> i32 {
    i32::from_le_bytes([r.memory[byte], r.memory[byte + 1], r.memory[byte + 2], r.memory[byte + 3]])
}

#[test]
fn rust_test1() {
    let r = compile(vec![assign("number1", num(20))], &[]);
    assert_eq!(error_of(r), CompileError::UndefinedReference);
}

#[test]
fn rust_test2() {
    let r = compile(
        vec![
            declare("num1", "N", None),
            declare("num2", "N", Some(num(1))),
            declare("img1", "I", Some(call("blank_image", vec![num(10), num(10)]))),
        ],
        &[],
    );
    assert!(r.is_ok());
}

#[test]
fn number_alias_copies_value() {
    let m = compile(
        vec![declare("x", "Number", Some(num(5))), declare("y", "Number", Some(var("x")))],
        &[],
    )
    .unwrap();
    assert_eq!(
        m.code,
        vec![Instr::Const(5), Instr::LocalSet(0), Instr::LocalGet(0), Instr::LocalSet(1)]
    );
    let r = run(&m, 0).unwrap();
    assert_eq!(r.locals[1], 5);
}

#[test]
fn arithmetic_is_evaluated_in_order() {
    let e = Box::new(Expr::Op(
        Box::new(Expr::Op(num(7), Opcode::Sub, num(3))),
        Opcode::Mul,
        Box::new(Expr::Op(num(-9), Opcode::Div, num(2))),
    ));
    let m = compile(vec![declare("v", "n", Some(e))], &[]).unwrap();
    let r = run(&m, 0).unwrap();
    assert_eq!(r.locals[0], -16);
}

#[test]
fn alias_chain_cycle_rejected() {
    let program = || {
        vec![
            declare("a", "N", Some(num(1))),
            declare("b", "N", Some(num(2))),
            declare("c", "N", Some(num(3))),
            assign("a", var("b")),
            assign("c", var("a")),
            assign("b", var("c")),
        ]
    };
    assert_eq!(error_of(compile(program(), &[])), CompileError::DependencyCycle);
    assert_eq!(error_of(compile(program(), &[])), CompileError::DependencyCycle);
    let first_two: Vec<Statement> = program().into_iter().take(5).collect();
    assert!(compile(first_two, &[]).is_ok());
}

#[test]
fn self_alias_rejected() {
    let r = compile(vec![declare("a", "N", Some(num(1))), assign("a", var("a"))], &[]);
    assert_eq!(error_of(r), CompileError::DependencyCycle);
}

#[test]
fn arity_mismatch_blank_image() {
    let r = compile(vec![declare("img", "Image", Some(call("blank_image", vec![num(10)])))], &[]);
    assert_eq!(error_of(r), CompileError::ArityMismatch);
}

#[test]
fn arity_mismatch_emits_no_call() {
    let mut table = SymbolTable::new();
    table.insert(s("blank_image"), Attribute::Func(1, vec![ValType::I32, ValType::I32], vec![ValType::I32]));
    let mut cg = Codegen {
        code: vec![],
        locals: 0,
        symbol_table: table,
        memory: Memory::new(0),
        imports: 2,
        aliases: DependencyGraph::new(),
    };
    let e = Expr::Call(s("blank_image"), vec![num(10)]);
    assert_eq!(e.compile(&mut cg), Err(CompileError::ArityMismatch));
    assert!(!cg.code.iter().any(|i| matches!(i, Instr::Call(_))));
    assert_eq!(cg.symbol_table.library_tracker().get_next_image_id(), 0);
}

#[test]
fn materials_are_packed() {
    let m = compile(
        vec![
            declare("m1", "Material", None),
            declare("m2", "m", None),
            declare("img", "Image", None),
            assign_channel("m1", "diffuse", var("img")),
        ],
        &[],
    )
    .unwrap();
    let rows: Vec<(u32, String, String)> =
        m.materials.iter().map(|c| (c.position, c.name.clone(), c.channel.clone())).collect();
    assert_eq!(rows.len(), 20);
    assert_eq!(rows[0], (2, s("m1"), s("diffuse")));
    assert_eq!(rows[9], (11, s("m1"), s("subsurfance_scattering")));
    assert_eq!(rows[10], (34, s("m2"), s("diffuse")));
    assert!(m.materials.iter().all(|c| c.material_type == "PBRMetalness"));
    let tail = &m.code[m.code.len() - 3..];
    assert_eq!(tail, &[Instr::Const(8), Instr::LocalGet(0), Instr::Store]);
    let r = run(&m, 0).unwrap();
    assert_eq!(word(&r, 12), i32::MAX);
    assert_eq!(word(&r, 128 + 8), i32::MAX);
    assert_eq!(word(&r, 8), 0);
}

#[test]
fn new_material_writes_header() {
    let m = compile(
        vec![
            declare("a", "M", None),
            declare("b", "M", Some(call("new_material", vec![num(64), num(32)]))),
        ],
        &[],
    )
    .unwrap();
    let r = run(&m, 0).unwrap();
    assert_eq!((word(&r, 128), word(&r, 132)), (64, 32));
    assert_eq!(word(&r, 136), i32::MAX);
}

#[test]
fn material_copy_moves_every_word() {
    let m = compile(
        vec![
            declare("a", "M", Some(call("new_material", vec![num(5), num(6)]))),
            declare("b", "M", None),
            assign("b", var("a")),
        ],
        &[],
    )
    .unwrap();
    let r = run(&m, 0).unwrap();
    assert_eq!((word(&r, 128), word(&r, 132)), (5, 6));
    assert_eq!(word(&r, 128 + 124), i32::MAX);
}

#[test]
fn channel_from_call_stores_result() {
    let m = compile(
        vec![
            declare("img", "I", None),
            declare("mat", "M", None),
            assign_channel("mat", "ao", call("grayscale", vec![var("img")])),
        ],
        &[],
    )
    .unwrap();
    let r = run(&m, 41).unwrap();
    assert_eq!(word(&r, 8 + 4 * 5), 41);
}

#[test]
fn show_twice_one_export() {
    let m = compile(
        vec![
            declare("img", "I", Some(call("blank_image", vec![num(10), num(10)]))),
            show(&["img"]),
            show(&["img"]),
        ],
        &[],
    )
    .unwrap();
    assert_eq!(m.textures, vec![(0, s("img"))]);
}

#[test]
fn end_to_end_blank_image() {
    let m = compile(
        vec![
            declare("num", "Number", Some(num(7))),
            declare("img", "Image", Some(call("blank_image", vec![num(10), num(10)]))),
            show(&["img"]),
        ],
        &[],
    )
    .unwrap();
    let r = run(&m, 3).unwrap();
    assert_eq!(r.calls, vec![(s("blank_image"), vec![10, 10])]);
    assert_eq!(r.locals, vec![7, 3]);
    assert_eq!(m.textures, vec![(0, s("img"))]);
    let bytes = emit_wasm(&m).unwrap();
    assert_eq!(&bytes[0..8], &[0, 97, 115, 109, 1, 0, 0, 0]);
    assert!(bytes.windows(11).any(|w| w == b"blank_image"));
    assert!(bytes.windows(4).any(|w| w == b"main"));
}

#[test]
fn imported_images_get_positional_ids() {
    let m = compile(
        vec![
            declare("out", "I", Some(call("darken", vec![var("photo"), num(20)]))),
            show(&["photo", "out", "sky"]),
        ],
        &[" photo ", "sky"],
    )
    .unwrap();
    let r = run(&m, 9).unwrap();
    assert_eq!(r.calls, vec![(s("darken"), vec![0, 20])]);
    assert_eq!(m.textures, vec![(0, s("photo")), (2, s("out")), (1, s("sky"))]);
}

#[test]
fn image_alias_copies_id() {
    let m = compile(
        vec![declare("copy", "I", Some(var("photo"))), show(&["copy"])],
        &["photo"],
    )
    .unwrap();
    assert_eq!(m.textures, vec![(0, s("copy"))]);
    let r = run(&m, 0).unwrap();
    assert_eq!(r.locals, vec![0, 0]);
}

#[test]
fn numeric_name_rejected() {
    assert_eq!(error_of(compile(vec![declare("12", "N", None)], &[])), CompileError::LexicalNaming);
    assert_eq!(error_of(compile(vec![declare("-5", "I", None)], &[])), CompileError::LexicalNaming);
    assert!(compile(vec![declare("x12", "N", None)], &[]).is_ok());
}

#[test]
fn unknown_type_tag_rejected() {
    let r = compile(vec![declare("t", "Text", None)], &[]);
    assert_eq!(error_of(r), CompileError::UnsupportedForm);
    let r = compile(vec![declare("t", "NUMBER", None)], &[]);
    assert_eq!(error_of(r), CompileError::UnsupportedForm);
}

#[test]
fn type_mismatches_rejected() {
    let r = compile(vec![declare("m", "M", None), declare("x", "N", Some(var("m")))], &[]);
    assert_eq!(error_of(r), CompileError::TypeMismatch);
    let r = compile(vec![declare("x", "N", Some(call("blank_image", vec![num(1), num(1)])))], &[]);
    assert_eq!(error_of(r), CompileError::TypeMismatch);
    let r = compile(vec![declare("i", "I", Some(num(3)))], &[]);
    assert_eq!(error_of(r), CompileError::TypeMismatch);
    let r = compile(vec![declare("m", "M", Some(call("blank_image", vec![num(1), num(1)])))], &[]);
    assert_eq!(error_of(r), CompileError::TypeMismatch);
    let r = compile(vec![declare("i", "I", Some(call("logger", vec![num(1)])))], &[]);
    assert_eq!(error_of(r), CompileError::TypeMismatch);
}

#[test]
fn undefined_names_rejected() {
    let r = compile(vec![declare("x", "N", Some(var("nothing")))], &[]);
    assert_eq!(error_of(r), CompileError::UndefinedReference);
    let r = compile(vec![declare("i", "I", Some(call("sharpen", vec![])))], &[]);
    assert_eq!(error_of(r), CompileError::UndefinedReference);
    let r = compile(vec![show(&["ghost"])], &[]);
    assert_eq!(error_of(r), CompileError::UndefinedReference);
}

#[test]
fn unknown_channel_rejected() {
    let r = compile(
        vec![declare("m", "M", None), declare("i", "I", None), assign_channel("m", "albedo", var("i"))],
        &[],
    );
    assert_eq!(error_of(r), CompileError::UnknownChannel);
}

#[test]
fn bare_call_statement_rejected() {
    let r = compile(vec![Statement::Call(s("grayscale"), vec![num(1)])], &[]);
    assert_eq!(error_of(r), CompileError::UnsupportedForm);
    let r = compile(vec![Statement::Call(s("logger"), vec![num(1)])], &[]);
    assert!(r.is_ok());
    let r = compile(vec![Statement::Assignment(vec![], num(1))], &[]);
    assert_eq!(error_of(r), CompileError::UnsupportedForm);
}

#[test]
fn memory_limit_reached() {
    let mut stmts = Vec::new();
    for i in 0..5121 {
        stmts.push(declare(&format!("m{}", i), "M", None));
    }
    assert_eq!(error_of(compile(stmts, &[])), CompileError::LimitExceeded);
    let mut stmts = Vec::new();
    for i in 0..5120 {
        stmts.push(declare(&format!("m{}", i), "M", None));
    }
    assert!(compile(stmts, &[]).is_ok());
}

#[test]
fn blocks_share_one_table() {
    let m = compile(
        vec![
            Statement::Block(vec![declare("x", "N", Some(num(4)))]),
            declare("y", "N", Some(var("x"))),
        ],
        &[],
    )
    .unwrap();
    assert_eq!(run(&m, 0).unwrap().locals, vec![4, 4]);
}

#[test]
fn export_bundles_binary_and_descriptors() {
    let stmts = vec![
        declare("img", "I", Some(call("grayscale", vec![var("photo")]))),
        declare("mat", "M", None),
        assign_channel("mat", "normal", var("img")),
        show(&["img", "mat"]),
    ];
    let out = Compiler::new().export(&stmts, &vec![s("photo")]).unwrap();
    assert_eq!(&out.wasm[0..4], &[0, 97, 115, 109]);
    assert_eq!(out.textures, vec![(1, s("img"))]);
    assert_eq!(out.materials.len(), 10);
    assert_eq!(out.materials[2].position, 4);
    assert_eq!(out.materials[2].channel, "normal");
    let bad = vec![declare("x", "N", Some(var("y")))];
    assert!(matches!(Compiler::new().export(&bad, &vec![]), Err(CompileError::UndefinedReference)));
}

#[test]
fn emit_rejects_dangling_local() {
    let mut m = compile(vec![declare("x", "N", Some(num(1)))], &[]).unwrap();
    assert!(emit_wasm(&m).is_some());
    m.code.push(Instr::LocalGet(5));
    assert!(emit_wasm(&m).is_none());
}

fn nested_sum(levels: usize) -> Box<Expr> {
    let mut e = num(1);
    for _ in 0..levels {
        e = Box::new(Expr::Op(e, Opcode::Add, num(1)));
    }
    e
}

#[test]
fn depth_limit_is_enforced() {
    let program = |levels: usize| vec![declare("x", "N", Some(nested_sum(levels)))];
    let names: Vec<String> = vec![];
    // the statement, then `levels` operators, then the innermost literal
    assert!(Compiler::with_max_depth(5).compile(&program(3), &names).is_ok());
    let r = Compiler::with_max_depth(5).compile(&program(4), &names);
    assert!(matches!(r, Err(CompileError::LimitExceeded)));
    let m = Compiler::new().compile(&program(200), &names).unwrap();
    assert_eq!(run(&m, 0).unwrap().locals[0], 201);
    assert!(matches!(Compiler::new().compile(&program(300), &names), Err(CompileError::LimitExceeded)));
}

#[test]
fn depth_limit_counts_blocks() {
    let mut st = declare("x", "N", None);
    for _ in 0..3 {
        st = Statement::Block(vec![st]);
    }
    let names: Vec<String> = vec![];
    assert!(Compiler::with_max_depth(4).compile(&vec![st], &names).is_ok());
    let mut st = declare("x", "N", None);
    for _ in 0..4 {
        st = Statement::Block(vec![st]);
    }
    assert!(matches!(Compiler::with_max_depth(4).compile(&vec![st], &names), Err(CompileError::LimitExceeded)));
}

fn codegen_with_blank_image() -> Codegen {
    let mut table = SymbolTable::new();
    table.insert(s("blank_image"), Attribute::Func(0, vec![ValType::I32, ValType::I32], vec![ValType::I32]));
    Codegen {
        code: vec![],
        locals: 0,
        symbol_table: table,
        memory: Memory::new(0),
        imports: 1,
        aliases: DependencyGraph::new(),
    }
}

#[test]
fn failed_operand_stops_emission() {
    let mut cg = codegen_with_blank_image();
    let e = Expr::Op(num(4), Opcode::Add, var("missing"));
    assert_eq!(e.compile(&mut cg), Err(CompileError::UndefinedReference));
    assert_eq!(cg.code, vec![Instr::Const(4)]);
    let mut cg = codegen_with_blank_image();
    let e = Expr::Op(var("missing"), Opcode::Add, num(4));
    assert_eq!(e.compile(&mut cg), Err(CompileError::UndefinedReference));
    assert!(cg.code.is_empty());
}

#[test]
fn failed_argument_reserves_nothing() {
    let mut cg = codegen_with_blank_image();
    let bad = Statement::Declare(s("m"), s("M"), None);
    assert_eq!(bad.compile(&mut cg), Ok(()));
    let before = cg.code.len();
    let e = Expr::Call(s("blank_image"), vec![num(3), var("m")]);
    assert_eq!(e.compile(&mut cg), Err(CompileError::TypeMismatch));
    assert_eq!(cg.code.len(), before + 1);
    assert!(!cg.code.iter().any(|i| matches!(i, Instr::Call(_))));
    assert_eq!(cg.symbol_table.library_tracker().get_next_image_id(), 0);
}

#[test]
fn failed_declaration_leaves_name_unbound() {
    let mut cg = codegen_with_blank_image();
    let st = declare("x", "Number", Some(call("blank_image", vec![num(1), num(1)])));
    assert_eq!(st.compile(&mut cg), Err(CompileError::TypeMismatch));
    assert!(cg.symbol_table.lookup(&s("x")).is_none());
    let st = declare("y", "N", Some(var("nowhere")));
    assert_eq!(st.compile(&mut cg), Err(CompileError::UndefinedReference));
    assert!(cg.symbol_table.lookup(&s("y")).is_none());
}

#[test]
fn rejected_alias_keeps_graph() {
    let mut cg = codegen_with_blank_image();
    for st in [
        declare("a", "N", None),
        declare("b", "N", None),
        declare("c", "N", None),
        assign("a", var("b")),
        assign("c", var("a")),
    ] {
        assert_eq!(st.compile(&mut cg), Ok(()));
    }
    let code = cg.code.clone();
    assert_eq!(assign("b", var("c")).compile(&mut cg), Err(CompileError::DependencyCycle));
    assert_eq!(cg.code, code);
    assert!(!cg.aliases.depends_on(&s("b"), &s("c")));
    assert!(cg.aliases.depends_on(&s("c"), &s("b")));
}

#[test]
fn integer_text_rules() {
    assert_eq!(error_of(compile(vec![declare("+7", "N", None)], &[])), CompileError::LexicalNaming);
    assert_eq!(error_of(compile(vec![declare("-2147483648", "N", None)], &[])), CompileError::LexicalNaming);
    assert!(compile(vec![declare("2147483648", "N", None)], &[]).is_ok());
    assert!(compile(vec![declare("-", "N", None)], &[]).is_ok());
    assert!(compile(vec![declare("7a", "N", None)], &[]).is_ok());
}
