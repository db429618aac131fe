use vstd::prelude::*;

use crate::ast::Opcode;
use crate::compiler::{indices_ok, CompiledModule};
use crate::instr::{Instr, ValType};
use crate::memory::{MEMORY_MAX_PAGES, MEMORY_PAGES, WORD_BYTES};
use walrus::Function as WasmFunction;
use walrus::Memory as WasmMemory;

verus! {

/// A module under construction, opaque here.
#[verifier::external_type_specification]
#[verifier::external_body]
pub struct ExModule(walrus::Module);

/// A function body under construction, opaque here.
#[verifier::external_type_specification]
#[verifier::external_body]
pub struct ExFunctionBuilder(walrus::FunctionBuilder);

/// A handle to a local, function, memory or type of a module, opaque here.
#[verifier::external_type_specification]
#[verifier::external_body]
#[verifier::reject_recursive_types(T)]
pub struct ExId<T>(id_arena::Id<T>);

/// What a handle points to, opaque here.
#[verifier::external_type_specification]
#[verifier::external_body]
pub struct ExLocal(walrus::Local);

/// What a handle points to, opaque here.
#[verifier::external_type_specification]
#[verifier::external_body]
pub struct ExType(walrus::Type);

/// What a handle points to, opaque here.
#[verifier::external_type_specification]
#[verifier::external_body]
pub struct ExWasmFunction(WasmFunction);

/// What a handle points to, opaque here.
#[verifier::external_type_specification]
#[verifier::external_body]
pub struct ExWasmMemory(WasmMemory);

/// Relies on `walrus::Module::default`: an empty module.
#[verifier::external_body]
fn new_module() -> walrus::Module {
    walrus::Module::default()
}

/// Relies on `walrus::ModuleMemories::add_local`: adds a memory with the
/// given initial and maximum sizes in pages.
#[verifier::external_body]
fn add_memory(module: &mut walrus::Module, shared: bool, initial: u32, maximum: u32) -> walrus::MemoryId {
    module.memories.add_local(shared, initial, Some(maximum))
}

/// Which kind of item an export names.
pub enum ExportTarget {
    Function(walrus::FunctionId),
    Memory(walrus::MemoryId),
}

/// Relies on `walrus::ModuleTypes::add`: the function type with these
/// parameter and result types.
#[verifier::external_body]
fn add_type(module: &mut walrus::Module, params: &Vec<ValType>, results: &Vec<ValType>) -> walrus::TypeId {
    let convert = |t: &ValType| match t {
        ValType::I32 => walrus::ValType::I32,
        ValType::I64 => walrus::ValType::I64,
        ValType::F32 => walrus::ValType::F32,
        ValType::F64 => walrus::ValType::F64,
    };
    let p: Vec<walrus::ValType> = params.iter().map(convert).collect();
    let r: Vec<walrus::ValType> = results.iter().map(convert).collect();
    module.types.add(&p, &r)
}

/// Relies on `walrus::Module::add_import_func`: imports function `name` of
/// module `from` with type `ty`.
#[verifier::external_body]
fn add_import_func(module: &mut walrus::Module, from: &str, name: &String, ty: walrus::TypeId) -> walrus::FunctionId {
    module.add_import_func(from, name, ty).0
}

/// Relies on `walrus::ModuleLocals::add`: a new local of type `ty`.
#[verifier::external_body]
fn add_local(module: &mut walrus::Module, ty: ValType) -> walrus::LocalId {
    let ty = match ty {
        ValType::I32 => walrus::ValType::I32,
        ValType::I64 => walrus::ValType::I64,
        ValType::F32 => walrus::ValType::F32,
        ValType::F64 => walrus::ValType::F64,
    };
    module.locals.add(ty)
}

/// Relies on `walrus::FunctionBuilder::new`: a builder for a function with
/// these parameter and result types.
#[verifier::external_body]
fn new_function(module: &mut walrus::Module, params: &Vec<ValType>, results: &Vec<ValType>) -> walrus::FunctionBuilder {
    let convert = |t: &ValType| match t {
        ValType::I32 => walrus::ValType::I32,
        ValType::I64 => walrus::ValType::I64,
        ValType::F32 => walrus::ValType::F32,
        ValType::F64 => walrus::ValType::F64,
    };
    let p: Vec<walrus::ValType> = params.iter().map(convert).collect();
    let r: Vec<walrus::ValType> = results.iter().map(convert).collect();
    walrus::FunctionBuilder::new(&mut module.types, &p, &r)
}

/// Relies on `walrus::InstrSeqBuilder::i32_const`.
#[verifier::external_body]
fn push_const(f: &mut walrus::FunctionBuilder, n: i32) {
    f.func_body().i32_const(n);
}

/// Relies on `walrus::InstrSeqBuilder::local_get`.
#[verifier::external_body]
fn push_local_get(f: &mut walrus::FunctionBuilder, local: walrus::LocalId) {
    f.func_body().local_get(local);
}

/// Relies on `walrus::InstrSeqBuilder::local_set`.
#[verifier::external_body]
fn push_local_set(f: &mut walrus::FunctionBuilder, local: walrus::LocalId) {
    f.func_body().local_set(local);
}

/// Relies on `walrus::InstrSeqBuilder::binop`, with the 32-bit operator for
/// `op` (signed division for `Div`).
#[verifier::external_body]
fn push_binop(f: &mut walrus::FunctionBuilder, op: Opcode) {
    let op = match op {
        Opcode::Mul => walrus::ir::BinaryOp::I32Mul,
        Opcode::Div => walrus::ir::BinaryOp::I32DivS,
        Opcode::Add => walrus::ir::BinaryOp::I32Add,
        Opcode::Sub => walrus::ir::BinaryOp::I32Sub,
    };
    f.func_body().binop(op);
}

/// Relies on `walrus::InstrSeqBuilder::call`.
#[verifier::external_body]
fn push_call(f: &mut walrus::FunctionBuilder, func: walrus::FunctionId) {
    f.func_body().call(func);
}

/// Relies on `walrus::InstrSeqBuilder::load`: a non-atomic 32-bit load
/// aligned to `align` bytes, at `offset` past the popped address.
#[verifier::external_body]
fn push_load(f: &mut walrus::FunctionBuilder, memory: walrus::MemoryId, align: u32, offset: u32) {
    f.func_body().load(memory, walrus::ir::LoadKind::I32 { atomic: false }, walrus::ir::MemArg {
        align,
        offset,
    });
}

/// Relies on `walrus::InstrSeqBuilder::store`: a non-atomic 32-bit store
/// aligned to `align` bytes, at `offset` past the popped address.
#[verifier::external_body]
fn push_store(f: &mut walrus::FunctionBuilder, memory: walrus::MemoryId, align: u32, offset: u32) {
    f.func_body().store(memory, walrus::ir::StoreKind::I32 { atomic: false }, walrus::ir::MemArg {
        align,
        offset,
    });
}

/// Relies on `walrus::FunctionBuilder::finish`: adds the built function,
/// whose parameters are the locals `args`, to the module.
#[verifier::external_body]
fn finish_function(f: walrus::FunctionBuilder, args: Vec<walrus::LocalId>, module: &mut walrus::Module) -> walrus::FunctionId {
    f.finish(args, &mut module.funcs)
}

/// Relies on `walrus::ModuleExports::add`: exports the item under `name`.
#[verifier::external_body]
fn add_export(module: &mut walrus::Module, name: &str, item: ExportTarget) {
    match item {
        ExportTarget::Function(f) => module.exports.add(name, f),
        ExportTarget::Memory(m) => module.exports.add(name, m),
    };
}

/// The first eight bytes of every WebAssembly binary: the magic number
/// `\0asm` and version 1.
pub open spec fn wasm_header() -> Seq<u8> {
    seq![0x00u8, 0x61u8, 0x73u8, 0x6du8, 0x01u8, 0x00u8, 0x00u8, 0x00u8]
}

/// Relies on `walrus::Module::emit_wasm`: the module's binary encoding,
/// which it always starts with the magic number and version 1.
#[verifier::external_body]
fn encode(module: &mut walrus::Module) -> (r: Vec<u8>)
    ensures
        r@.len() >= 8,
        r@.subrange(0, 8) == wasm_header(),
{
    module.emit_wasm()
}

/// Encodes a compiled module as a WebAssembly binary: its imports, from
/// module `env`, come first; one memory is exported as `mem`; the entry
/// function is exported under its name. There is no binary where the code
/// names a local or a function the module does not have.
pub fn emit_wasm(m: &CompiledModule) -> (r: Option<Vec<u8>>)
    ensures
        r.is_some() == indices_ok(*m),
        r matches Some(b) ==> b@.len() >= 8 && b@.subrange(0, 8) == wasm_header(),
{
    let mut i: usize = 0;
    while i < m.code.len()
        invariant
            i <= m.code@.len(),
            forall|j: int|
                0 <= j < i ==> match #[trigger] m.code@[j] {
                    Instr::LocalGet(l) => l < m.locals,
                    Instr::LocalSet(l) => l < m.locals,
                    Instr::Call(f) => f < m.imports@.len(),
                    _ => true,
                },
        decreases m.code@.len() - i,
    {
        let fits = match m.code[i] {
            Instr::LocalGet(l) => l < m.locals,
            Instr::LocalSet(l) => l < m.locals,
            Instr::Call(f) => (f as usize) < m.imports.len(),
            _ => true,
        };
        if !fits {
            return None;
        }
        i = i + 1;
    }
    let mut module = new_module();
    let memory = add_memory(&mut module, false, MEMORY_PAGES, MEMORY_MAX_PAGES);
    let mut funcs: Vec<walrus::FunctionId> = Vec::new();
    let mut k: usize = 0;
    while k < m.imports.len()
        invariant
            k <= m.imports@.len(),
            funcs@.len() == k,
        decreases m.imports@.len() - k,
    {
        let ty = add_type(&mut module, &m.imports[k].params, &m.imports[k].results);
        funcs.push(add_import_func(&mut module, "env", &m.imports[k].name, ty));
        k = k + 1;
    }
    let mut locals: Vec<walrus::LocalId> = Vec::new();
    while locals.len() < m.locals as usize
        invariant
            locals@.len() <= m.locals,
        decreases m.locals - locals@.len(),
    {
        locals.push(add_local(&mut module, ValType::I32));
    }
    let mut body = new_function(&mut module, &Vec::new(), &Vec::new());
    let mut i: usize = 0;
    while i < m.code.len()
        invariant
            indices_ok(*m),
            funcs@.len() == m.imports@.len(),
            locals@.len() == m.locals,
        decreases m.code@.len() - i,
    {
        match m.code[i] {
            Instr::Const(n) => push_const(&mut body, n),
            Instr::LocalGet(l) => push_local_get(&mut body, locals[l as usize]),
            Instr::LocalSet(l) => push_local_set(&mut body, locals[l as usize]),
            Instr::Binary(op) => push_binop(&mut body, op),
            Instr::Call(f) => push_call(&mut body, funcs[f as usize]),
            Instr::Load => push_load(&mut body, memory, WORD_BYTES, 0),
            Instr::Store => push_store(&mut body, memory, WORD_BYTES, 0),
        }
        i = i + 1;
    }
    let main = finish_function(body, Vec::new(), &mut module);
    add_export(&mut module, m.entry.as_str(), ExportTarget::Function(main));
    add_export(&mut module, "mem", ExportTarget::Memory(memory));
    Some(encode(&mut module))
}

} // verus!
