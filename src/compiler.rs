use vstd::prelude::*;

use crate::ast::Statement;
use crate::codegen::{bind, copy_types, emit, outcome, stmts_gen, CgView, Codegen};
use crate::deps::DependencyGraph;
use crate::depth::{statements_within_depth, stmts_within};
use crate::instr::{CompileError, Instr, ValType};
use crate::memory::Memory;
use crate::wasm::{emit_wasm, wasm_header};
use crate::symbol::{
    channel_view, copy_string, material_rows, strings_view, text, AttrView, Attribute, Image,
    MaterialChannel, SymbolTable, TrackerView,
};

verus! {

/// An imported host function: its name and signature.
pub struct Import {
    pub name: String,
    pub params: Vec<ValType>,
    pub results: Vec<ValType>,
}

pub open spec fn import_view(i: Import) -> (Seq<char>, Seq<ValType>, Seq<ValType>) {
    (i.name@, i.params@, i.results@)
}

pub open spec fn imports_view(v: Seq<Import>) -> Seq<(Seq<char>, Seq<ValType>, Seq<ValType>)> {
    v.map_values(|i: Import| import_view(i))
}

/// The host functions every module imports, in import order.
pub open spec fn library_functions() -> Seq<(Seq<char>, Seq<ValType>, Seq<ValType>)> {
    seq![
        ("logger"@, seq![ValType::I32], seq![]),
        ("darken"@, seq![ValType::I32, ValType::I32], seq![ValType::I32]),
        ("blank_image"@, seq![ValType::I32, ValType::I32], seq![ValType::I32]),
        ("grayscale"@, seq![ValType::I32], seq![ValType::I32]),
    ]
}

/// `n` 32-bit value types.
fn i32s(n: usize) -> (r: Vec<ValType>)
    ensures
        r@ == Seq::new(n as nat, |i: int| ValType::I32),
{
    let mut r: Vec<ValType> = Vec::new();
    let mut i: usize = 0;
    while i < n
        invariant
            i <= n,
            r@ == Seq::new(i as nat, |j: int| ValType::I32),
        decreases n - i,
    {
        r.push(ValType::I32);
        assert(r@ =~= Seq::new((i + 1) as nat, |j: int| ValType::I32));
        i = i + 1;
    }
    r
}

/// A host function taking `params` and returning `results` 32-bit values.
fn import(name: &str, params: usize, results: usize) -> (r: Import)
    ensures
        r.name@ == name@,
        r.params@ == Seq::new(params as nat, |i: int| ValType::I32),
        r.results@ == Seq::new(results as nat, |i: int| ValType::I32),
{
    Import { name: text(name), params: i32s(params), results: i32s(results) }
}

/// The host functions every module imports.
pub fn library_function_list() -> (r: Vec<Import>)
    ensures
        imports_view(r@) == library_functions(),
{
    let mut r: Vec<Import> = Vec::new();
    r.push(import("logger", 1, 0));
    r.push(import("darken", 2, 1));
    r.push(import("blank_image", 2, 1));
    r.push(import("grayscale", 1, 1));
    assert(Seq::new(0, |i: int| ValType::I32) =~= seq![]);
    assert(Seq::new(1, |i: int| ValType::I32) =~= seq![ValType::I32]);
    assert(Seq::new(2, |i: int| ValType::I32) =~= seq![ValType::I32, ValType::I32]);
    assert(imports_view(r@) =~= library_functions());
    r
}

/// The state after binding each imported function to its index.
pub open spec fn register_gen(fs: Seq<(Seq<char>, Seq<ValType>, Seq<ValType>)>, s: CgView) -> CgView
    decreases fs.len(),
{
    if fs.len() == 0 {
        s
    } else {
        let f = fs[fs.len() - 1];
        bind(
            register_gen(fs.subrange(0, fs.len() - 1), s),
            f.0,
            AttrView::Func((fs.len() - 1) as u32, f.1, f.2),
        )
    }
}

/// Text without leading and trailing white space, as `str::trim` makes it.
pub uninterp spec fn trimmed(s: Seq<char>) -> Seq<char>;

/// Relies on `str::trim`: the text without leading and trailing white
/// space, which depends on the text alone.
#[verifier::external_body]
fn trim_text(s: &String) -> (r: String)
    ensures
        r@ == trimmed(s@),
{
    s.trim().to_string()
}

/// The state after importing the host's images: image `k` gets a fresh slot
/// holding `k`, bound under its trimmed name with registry id `k`.
///
/// The binding carries the id rather than none: the host registers the
/// supplied images first, in this order, so their registry ids are their
/// positions. Recording them keeps `show` of an imported image exporting
/// its real id, and moves the next id past them, so that the ids reserved
/// for call results are the ones the host gives those results.
pub open spec fn images_gen(names: Seq<Seq<char>>, s: CgView) -> Result<CgView, CompileError>
    decreases names.len(),
{
    if names.len() == 0 {
        Ok(s)
    } else {
        match images_gen(names.subrange(0, names.len() - 1), s) {
            Err(x) => Err(x),
            Ok(p) => {
                let k = names.len() - 1;
                if p.locals == u32::MAX || k >= i32::MAX - 1 {
                    Err(CompileError::LimitExceeded)
                } else {
                    let l = p.locals;
                    Ok(
                        bind(
                            emit(
                                CgView { locals: (l + 1) as u32, ..p },
                                seq![Instr::Const(k as i32), Instr::LocalSet(l)],
                            ),
                            trimmed(names[k]),
                            AttrView::Image(l, Some(Image { id: k as i32 })),
                        ),
                    )
                }
            },
        }
    }
}

/// The state code generation starts from.
pub open spec fn initial_state() -> CgView {
    CgView {
        code: seq![],
        locals: 0,
        table: Map::empty(),
        tracker: TrackerView {
            images: Map::empty(),
            next_id: 0,
            exports: Seq::empty(),
            materials: Seq::empty(),
        },
        cursor: 0,
        memory_id: 0,
        imports: 0,
        edges: seq![],
    }
}

/// Compilation of a program: check its nesting depth, register the library,
/// import the images, then compile the statements in order.
pub open spec fn program_gen(
    library: Seq<(Seq<char>, Seq<ValType>, Seq<ValType>)>,
    max_depth: nat,
    image_names: Seq<Seq<char>>,
    statements: Seq<Statement>,
) -> Result<CgView, CompileError> {
    if !stmts_within(statements, max_depth) {
        Err(CompileError::LimitExceeded)
    } else {
        compile_gen(library, image_names, statements)
    }
}

/// Compilation of a program within the depth limit.
pub open spec fn compile_gen(
    library: Seq<(Seq<char>, Seq<ValType>, Seq<ValType>)>,
    image_names: Seq<Seq<char>>,
    statements: Seq<Statement>,
) -> Result<CgView, CompileError> {
    match images_gen(
        image_names,
        register_gen(library, CgView { imports: library.len() as u32, ..initial_state() }),
    ) {
        Err(x) => Err(x),
        Ok(s) => stmts_gen(statements, s),
    }
}

/// A compiled module: the entry function's body and locals, the imports,
/// and the export descriptors for the host.
pub struct CompiledModule {
    /// Name of the exported entry function.
    pub entry: String,
    pub code: Vec<Instr>,
    /// Number of local slots of the entry function.
    pub locals: u32,
    pub imports: Vec<Import>,
    /// Exported images: (id, name), in the order first shown.
    pub textures: Vec<(i32, String)>,
    /// Where each channel of each material lives.
    pub materials: Vec<MaterialChannel>,
}

/// `m` is the module for the final state `s` of compiling against `library`.
pub open spec fn module_matches(
    m: CompiledModule,
    library: Seq<(Seq<char>, Seq<ValType>, Seq<ValType>)>,
    s: CgView,
) -> bool {
    &&& m.entry@ == "main"@
    &&& m.code@ == s.code
    &&& m.locals == s.locals
    &&& imports_view(m.imports@) == library
    &&& m.textures@.len() == s.tracker.exports.len()
    &&& forall|i: int|
        0 <= i < m.textures@.len() ==> (#[trigger] m.textures@[i]).0 == s.tracker.exports[i].1
            && m.textures@[i].1@ == s.tracker.exports[i].0
    &&& m.materials@.map_values(|c: MaterialChannel| channel_view(c)) == material_rows(
        s.tracker.materials,
    )
}

/// Every local slot and every function the module's code names exists.
pub open spec fn indices_ok(m: CompiledModule) -> bool {
    forall|i: int|
        0 <= i < m.code@.len() ==> match #[trigger] m.code@[i] {
            Instr::LocalGet(l) => l < m.locals,
            Instr::LocalSet(l) => l < m.locals,
            Instr::Call(f) => f < m.imports@.len(),
            _ => true,
        }
}

/// What the host receives for a compiled program: the binary, and where to
/// find the images and material channels it produced.
pub struct ModuleExport {
    pub wasm: Vec<u8>,
    pub textures: Vec<(i32, String)>,
    pub materials: Vec<MaterialChannel>,
}

/// Nesting depth a program may have unless the compiler is told otherwise.
pub const DEFAULT_MAX_DEPTH: usize = 256;

/// Compiles programs against a fixed library of host functions, refusing
/// programs nested deeper than a configurable limit.
pub struct Compiler {
    library: Vec<Import>,
    max_depth: usize,
}

impl Compiler {
    pub closed spec fn library(&self) -> Seq<(Seq<char>, Seq<ValType>, Seq<ValType>)> {
        imports_view(self.library@)
    }

    pub closed spec fn depth_limit(&self) -> nat {
        self.max_depth as nat
    }

    pub fn new() -> (r: Compiler)
        ensures
            r.library() == library_functions(),
            r.depth_limit() == DEFAULT_MAX_DEPTH,
    {
        Compiler { library: library_function_list(), max_depth: DEFAULT_MAX_DEPTH }
    }

    /// A compiler that refuses programs nested deeper than `max_depth`
    /// levels, statements and expressions together.
    pub fn with_max_depth(max_depth: usize) -> (r: Compiler)
        ensures
            r.library() == library_functions(),
            r.depth_limit() == max_depth,
    {
        Compiler { library: library_function_list(), max_depth }
    }

    fn import_lib(&self, cg: &mut Codegen)
        requires
            old(cg).wf(),
            old(cg).imports == 0,
            self.library().len() < u32::MAX,
        ensures
            final(cg).wf(),
            final(cg)@ == register_gen(
                self.library(),
                CgView { imports: self.library().len() as u32, ..old(cg)@ },
            ),
            final(cg).imports == self.library().len(),
    {
        let ghost lib = self.library();
        cg.set_imports(self.library.len() as u32);
        let ghost start = cg@;
        proof {
            assert(lib.subrange(0, 0) =~= Seq::<(Seq<char>, Seq<ValType>, Seq<ValType>)>::empty());
        }
        let mut i: usize = 0;
        while i < self.library.len()
            invariant
                cg.wf(),
                lib == self.library(),
                lib.len() < u32::MAX,
                i <= lib.len(),
                cg.imports == lib.len(),
                cg@ == register_gen(lib.subrange(0, i as int), start),
            decreases lib.len() - i,
        {
            let f = &self.library[i];
            proof {
                let sub = lib.subrange(0, i + 1);
                assert(sub.subrange(0, i as int) =~= lib.subrange(0, i as int));
                assert(sub[i as int] == import_view(*f));
            }
            cg.bind(
                copy_string(&f.name),
                Attribute::Func(i as u32, copy_types(&f.params), copy_types(&f.results)),
            );
            i = i + 1;
        }
        proof {
            assert(lib.subrange(0, lib.len() as int) =~= lib);
        }
    }

    fn import_images(cg: &mut Codegen, image_names: &Vec<String>) -> (r: Result<(), CompileError>)
        requires
            old(cg).wf(),
        ensures
            final(cg).wf(),
            outcome(images_gen(strings_view(image_names@), old(cg)@), r, final(cg)@),
            final(cg).imports == old(cg).imports,
    {
        let ghost names = strings_view(image_names@);
        proof {
            assert(names.subrange(0, 0) =~= Seq::<Seq<char>>::empty());
        }
        let mut k: usize = 0;
        while k < image_names.len()
            invariant
                cg.wf(),
                names == strings_view(image_names@),
                cg.imports == old(cg).imports,
                k <= names.len(),
                images_gen(names.subrange(0, k as int), old(cg)@) == Ok::<CgView, CompileError>(
                    cg@,
                ),
            decreases names.len() - k,
        {
            let ghost before = cg@;
            proof {
                let sub = names.subrange(0, k + 1);
                assert(sub.subrange(0, k as int) =~= names.subrange(0, k as int));
                assert(sub[k as int] == image_names@[k as int]@);
            }
            if cg.locals == u32::MAX || k >= (i32::MAX - 1) as usize {
                proof {
                    lemma_images_failure(names, old(cg)@, k + 1);
                }
                return Err(CompileError::LimitExceeded);
            }
            let l = cg.new_local();
            cg.push2(Instr::Const(k as i32), Instr::LocalSet(l));
            let name = trim_text(&image_names[k]);
            cg.bind(name, Attribute::Image(l, Some(Image::new(k as i32))));
            k = k + 1;
        }
        proof {
            assert(names.subrange(0, names.len() as int) =~= names);
        }
        Ok(())
    }

    /// Compiles `statements` as the body of the entry function `main`, after
    /// importing the host's images under `image_names`, in order. The first
    /// failing statement fails the whole compile.
    pub fn compile(&self, statements: &Vec<Statement>, image_names: &Vec<String>) -> (r: Result<
        CompiledModule,
        CompileError,
    >)
        requires
            self.library().len() < u32::MAX,
        ensures
            match program_gen(self.library(), self.depth_limit(), strings_view(image_names@), statements@) {
                Ok(s) => r matches Ok(m) && module_matches(m, self.library(), s) && indices_ok(m),
                Err(e) => r matches Err(x) && x == e,
            },
    {
        if !statements_within_depth(statements, self.max_depth) {
            return Err(CompileError::LimitExceeded);
        }
        let mut cg = Codegen {
            code: Vec::new(),
            locals: 0,
            symbol_table: SymbolTable::new(),
            memory: Memory::new(0),
            imports: 0,
            aliases: DependencyGraph::new(),
        };
        assert(cg.code@ =~= Seq::<Instr>::empty());
        assert(cg@ == initial_state());
        self.import_lib(&mut cg);
        match Self::import_images(&mut cg, image_names) {
            Err(x) => {
                return Err(x);
            },
            Ok(()) => {},
        }
        let ghost s0 = cg@;
        proof {
            assert(statements@.subrange(0, 0) =~= Seq::<Statement>::empty());
        }
        let mut i: usize = 0;
        while i < statements.len()
            invariant
                cg.wf(),
                cg.imports == self.library().len(),
                stmts_within(statements@, self.depth_limit()),
                i <= statements@.len(),
                images_gen(
                    strings_view(image_names@),
                    register_gen(
                        self.library(),
                        CgView { imports: self.library().len() as u32, ..initial_state() },
                    ),
                ) == Ok::<CgView, CompileError>(s0),
                stmts_gen(statements@.subrange(0, i as int), s0) == Ok::<CgView, CompileError>(
                    cg@,
                ),
            decreases statements@.len() - i,
        {
            proof {
                let sub = statements@.subrange(0, i + 1);
                assert(sub.subrange(0, i as int) =~= statements@.subrange(0, i as int));
                assert(sub[i as int] == statements@[i as int]);
            }
            match statements[i].compile(&mut cg) {
                Err(x) => {
                    proof {
                        crate::codegen::lemma_stmts_failure(statements@, s0, i + 1);
                    }
                    return Err(x);
                },
                Ok(()) => {},
            }
            i = i + 1;
        }
        proof {
            assert(statements@.subrange(0, statements@.len() as int) =~= statements@);
        }
        let mut imports: Vec<Import> = Vec::new();
        let mut j: usize = 0;
        while j < self.library.len()
            invariant
                j <= self.library@.len(),
                imports@.len() == j,
                forall|t: int| 0 <= t < j ==> import_view(#[trigger] imports@[t]) == import_view(self.library@[t]),
            decreases self.library@.len() - j,
        {
            let f = &self.library[j];
            imports.push(Import {
                name: copy_string(&f.name),
                params: copy_types(&f.params),
                results: copy_types(&f.results),
            });
            j = j + 1;
        }
        assert(imports_view(imports@) =~= self.library());
        proof {
            assert forall|t: int| 0 <= t < cg.code@.len() implies match #[trigger] cg.code@[t] {
                Instr::LocalGet(l) => l < cg.locals,
                Instr::LocalSet(l) => l < cg.locals,
                Instr::Call(f) => f < imports@.len(),
                _ => true,
            } by {
                assert(crate::codegen::instr_ok(cg.code@[t], cg.locals, cg.imports));
            }
        }
        let textures = cg.symbol_table.library_tracker().export_textures();
        let materials = cg.symbol_table.library_tracker().export_materials();
        Ok(CompiledModule {
            entry: text("main"),
            code: cg.code,
            locals: cg.locals,
            imports,
            textures,
            materials,
        })
    }

    /// Compiles the program and encodes it as a WebAssembly binary, with the
    /// image and material export descriptors. Fails as `compile` does.
    pub fn export(&self, statements: &Vec<Statement>, image_names: &Vec<String>) -> (r: Result<
        ModuleExport,
        CompileError,
    >)
        requires
            self.library().len() < u32::MAX,
        ensures
            match program_gen(self.library(), self.depth_limit(), strings_view(image_names@), statements@) {
                Ok(s) => r matches Ok(x) && x.wasm@.len() >= 8 && x.wasm@.subrange(0, 8)
                    == wasm_header() && x.textures@.len() == s.tracker.exports.len() && (forall|
                    i: int,
                |
                    0 <= i < x.textures@.len() ==> (#[trigger] x.textures@[i]).0
                        == s.tracker.exports[i].1 && x.textures@[i].1@ == s.tracker.exports[i].0)
                    && x.materials@.map_values(|c: MaterialChannel| channel_view(c))
                    == material_rows(s.tracker.materials),
                Err(e) => r matches Err(x) && x == e,
            },
    {
        let m = match self.compile(statements, image_names) {
            Err(x) => {
                return Err(x);
            },
            Ok(m) => m,
        };
        match emit_wasm(&m) {
            Some(wasm) => Ok(ModuleExport { wasm, textures: m.textures, materials: m.materials }),
            None => Err(CompileError::UnsupportedForm),
        }
    }
}

/// A failure among the first `i` images is the failure of them all.
proof fn lemma_images_failure(names: Seq<Seq<char>>, s: CgView, i: int)
    requires
        0 <= i <= names.len(),
        images_gen(names.subrange(0, i), s) is Err,
    ensures
        images_gen(names, s) == images_gen(names.subrange(0, i), s),
    decreases names.len() - i,
{
    if i < names.len() {
        assert(names.subrange(0, i + 1).subrange(0, i) =~= names.subrange(0, i));
        lemma_images_failure(names, s, i + 1);
    } else {
        assert(names.subrange(0, i) =~= names);
    }
}

} // verus!
